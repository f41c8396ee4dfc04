//! Length-prefixed byte runs: the framing every field of the tagged wire
//! format uses.  A run is a 32-bit big-endian length followed by that many
//! data bytes; a serialized key is simply a sequence of runs.

use vstd::prelude::*;
use vstd::slice::{slice_subrange, slice_to_vec};
use vstd::utf8::{encode_utf8, valid_utf8};

verus! {

/// The four big-endian bytes that spell `n`, for `n` below 2^32.
pub open spec fn len_bytes(n: nat) -> Seq<u8>
    recommends
        n < 0x1_0000_0000,
{
    let m = n as u32;
    seq![
        ((m >> 24) & 0xff) as u8,
        ((m >> 16) & 0xff) as u8,
        ((m >> 8) & 0xff) as u8,
        (m & 0xff) as u8,
    ]
}

/// The 32-bit big-endian value spelled by `b[i .. i + 4]`.
pub open spec fn be32_at(b: Seq<u8>, i: int) -> u32
    recommends
        0 <= i,
        i + 4 <= b.len(),
{
    ((b[i] as u32) << 24) | ((b[i + 1] as u32) << 16) | ((b[i + 2] as u32) << 8) | (b[i
        + 3] as u32)
}

/// One run: the length prefix followed by the data bytes themselves.
pub open spec fn enc_run(d: Seq<u8>) -> Seq<u8>
    recommends
        d.len() < 0x1_0000_0000,
{
    len_bytes(d.len()) + d
}

/// The run starting at offset `i` of `b`: its data bytes and the offset just
/// past them, or `None` when the bytes at `i` do not hold a whole run.
pub open spec fn spec_read_run(b: Seq<u8>, i: int) -> Option<(Seq<u8>, int)> {
    if 0 <= i && i + 4 <= b.len() {
        let n = be32_at(b, i) as int;
        if i + 4 + n <= b.len() {
            Some((b.subrange(i + 4, i + 4 + n), i + 4 + n))
        } else {
            None
        }
    } else {
        None
    }
}

proof fn lemma_u32_bytes_roundtrip(m: u32)
    by (bit_vector)
    ensures
        (((((m >> 24) & 0xff) as u8) as u32) << 24) | (((((m >> 16) & 0xff) as u8) as u32) << 16)
            | (((((m >> 8) & 0xff) as u8) as u32) << 8) | (((m & 0xff) as u8) as u32) == m,
{
}

/// Reading a well-formed run out of its surrounding bytes yields exactly the
/// data that was framed, and lands just past it.
pub proof fn lemma_read_of_enc(b: Seq<u8>, i: int, d: Seq<u8>)
    requires
        0 <= i,
        d.len() < 0x1_0000_0000,
        i + 4 + d.len() <= b.len(),
        b.subrange(i, i + 4 + d.len() as int) == enc_run(d),
    ensures
        spec_read_run(b, i) == Some((d, i + 4 + d.len() as int)),
{
    let m = d.len() as u32;
    let e = enc_run(d);
    let w = b.subrange(i, i + 4 + d.len() as int);
    assert forall|j: int| 0 <= j < 4 + d.len() implies b[i + j] == e[j] by {
        assert(w[j] == b[i + j]);
    }
    assert(e[0] == ((m >> 24) & 0xff) as u8 && e[1] == ((m >> 16) & 0xff) as u8 && e[2] == ((m >> 8)
        & 0xff) as u8 && e[3] == (m & 0xff) as u8) by {
        assert(len_bytes(d.len())[0] == ((m >> 24) & 0xff) as u8);
        assert(len_bytes(d.len())[1] == ((m >> 16) & 0xff) as u8);
        assert(len_bytes(d.len())[2] == ((m >> 8) & 0xff) as u8);
        assert(len_bytes(d.len())[3] == (m & 0xff) as u8);
    }
    assert(b[i + 0] == e[0] && b[i + 1] == e[1] && b[i + 2] == e[2] && b[i + 3] == e[3]);
    lemma_u32_bytes_roundtrip(m);
    assert(be32_at(b, i) == m);
    assert(b.subrange(i + 4, i + 4 + d.len() as int) =~= d) by {
        assert forall|j: int| 0 <= j < d.len() implies b[i + 4 + j] == d[j] by {
            assert(b[i + (4 + j)] == e[4 + j]);
        }
    }
}

/// What a successful read says about the bytes it came from: they are the
/// framing of the data returned.
pub proof fn lemma_read_run_sound(b: Seq<u8>, i: int, d: Seq<u8>, j: int)
    requires
        spec_read_run(b, i) == Some((d, j)),
    ensures
        0 <= i,
        i + 4 <= j <= b.len(),
        d.len() == j - (i + 4),
        d.len() < 0x1_0000_0000,
        b.subrange(i, j) == enc_run(d),
    decreases 0int,
{
    let m = be32_at(b, i);
    assert(d == b.subrange(i + 4, i + 4 + m as int));
    let x0 = b[i];
    let x1 = b[i + 1];
    let x2 = b[i + 2];
    let x3 = b[i + 3];
    assert(m == ((x0 as u32) << 24) | ((x1 as u32) << 16) | ((x2 as u32) << 8) | (x3 as u32));
    assert(((m >> 24) & 0xff) as u8 == x0 && ((m >> 16) & 0xff) as u8 == x1 && ((m >> 8)
        & 0xff) as u8 == x2 && (m & 0xff) as u8 == x3) by (bit_vector)
        requires
            m == ((x0 as u32) << 24) | ((x1 as u32) << 16) | ((x2 as u32) << 8) | (x3 as u32),
    ;
    assert(d.len() as u32 == m);
    assert(len_bytes(d.len()) =~= seq![x0, x1, x2, x3]);
    assert(b.subrange(i, j) =~= enc_run(d));
}

/// Two equal byte sequences that each start with a run carry the same run
/// and the same remainder.
pub proof fn lemma_enc_run_peel(d1: Seq<u8>, r1: Seq<u8>, d2: Seq<u8>, r2: Seq<u8>)
    requires
        d1.len() < 0x1_0000_0000,
        d2.len() < 0x1_0000_0000,
        enc_run(d1) + r1 == enc_run(d2) + r2,
    ensures
        d1 == d2,
        r1 == r2,
{
    let b = enc_run(d1) + r1;
    let c = enc_run(d2) + r2;
    let m1 = d1.len() as u32;
    let m2 = d2.len() as u32;
    let l1 = len_bytes(d1.len());
    let l2 = len_bytes(d2.len());
    assert(enc_run(d1).len() == 4 + d1.len());
    assert(enc_run(d2).len() == 4 + d2.len());
    assert forall|k: int| 0 <= k < 4 implies l1[k] == l2[k] by {
        assert(b[k] == l1[k]);
        assert(c[k] == l2[k]);
    }
    assert(l1[0] == ((m1 >> 24) & 0xff) as u8 && l1[1] == ((m1 >> 16) & 0xff) as u8 && l1[2] == ((m1
        >> 8) & 0xff) as u8 && l1[3] == (m1 & 0xff) as u8);
    assert(l2[0] == ((m2 >> 24) & 0xff) as u8 && l2[1] == ((m2 >> 16) & 0xff) as u8 && l2[2] == ((m2
        >> 8) & 0xff) as u8 && l2[3] == (m2 & 0xff) as u8);
    lemma_u32_bytes_roundtrip(m1);
    lemma_u32_bytes_roundtrip(m2);
    assert(m1 == m2);
    assert(d1.len() == d2.len());
    assert(d1 =~= d2) by {
        assert forall|j: int| 0 <= j < d1.len() implies d1[j] == d2[j] by {
            assert(b[4 + j] == d1[j]);
            assert(c[4 + j] == d2[j]);
            assert(b[4 + j] == c[4 + j]);
        }
    }
    let n = d1.len() as int;
    assert(b.len() == c.len());
    assert(b.len() == enc_run(d1).len() + r1.len());
    assert(c.len() == enc_run(d2).len() + r2.len());
    assert(d1.len() == d2.len());
    assert(r1.len() == r2.len());
    assert(r1 =~= r2) by {
        assert forall|j: int| 0 <= j < r1.len() implies r1[j] == r2[j] by {
            assert(b[4 + n + j] == r1[j]);
            assert(c[4 + n + j] == r2[j]);
            assert(b[4 + n + j] == c[4 + n + j]);
        }
    }
}

/// When the bytes from offset `i` on are one run followed by a remainder,
/// reading at `i` yields exactly that run, and what follows it is the
/// remainder.
pub proof fn lemma_read_first(b: Seq<u8>, i: int, d: Seq<u8>, rest: Seq<u8>)
    requires
        0 <= i <= b.len(),
        d.len() < 0x1_0000_0000,
        b.subrange(i, b.len() as int) == enc_run(d) + rest,
    ensures
        spec_read_run(b, i) == Some((d, i + 4 + d.len() as int)),
        b.subrange(i + 4 + d.len() as int, b.len() as int) == rest,
{
    let s = b.subrange(i, b.len() as int);
    let e = enc_run(d);
    assert(e.len() == 4 + d.len());
    assert(s.len() == b.len() - i);
    assert(s.len() == (e + rest).len());
    assert(b.len() - i == e.len() + rest.len());
    assert(b.subrange(i, i + 4 + d.len() as int) =~= e) by {
        assert forall|j: int| 0 <= j < e.len() implies b[i + j] == e[j] by {
            assert(s[j] == b[i + j]);
            assert(s[j] == (e + rest)[j]);
        }
    }
    lemma_read_of_enc(b, i, d);
    assert(b.subrange(i + 4 + d.len() as int, b.len() as int) =~= rest) by {
        assert forall|j: int| 0 <= j < rest.len() implies b[i + e.len() + j] == rest[j] by {
            assert(s[e.len() + j] == b[i + e.len() + j]);
            assert(s[e.len() + j] == (e + rest)[e.len() + j]);
        }
    }
}

/// Appends one run to `out`: the length prefix, then the data.
pub fn write_run(out: &mut Vec<u8>, d: &[u8])
    requires
        d@.len() < 0x1_0000_0000,
    ensures
        final(out)@ == old(out)@ + enc_run(d@),
{
    let n: usize = d.len();
    let m: u32 = n as u32;
    out.push(((m >> 24) & 0xff) as u8);
    out.push(((m >> 16) & 0xff) as u8);
    out.push(((m >> 8) & 0xff) as u8);
    out.push((m & 0xff) as u8);
    assert(out@ =~= old(out)@ + len_bytes(d@.len()));
    let mut j: usize = 0;
    while j < n
        invariant
            n == d@.len(),
            j <= n,
            out@ == old(out)@ + len_bytes(d@.len()) + d@.subrange(0, j as int),
        decreases n - j,
    {
        let byte: u8 = d[j];
        out.push(byte);
        assert(out@ =~= old(out)@ + len_bytes(d@.len()) + d@.subrange(0, j + 1 as int));
        j = j + 1;
    }
    assert(d@.subrange(0, n as int) =~= d@);
    assert(out@ =~= old(out)@ + enc_run(d@));
}

/// Reads the run starting at offset `i` of `b`, as [`spec_read_run`]
/// describes it.
pub fn read_run(b: &[u8], i: usize) -> (r: Option<(Vec<u8>, usize)>)
    ensures
        match r {
            Some(p) => spec_read_run(b@, i as int) == Some((p.0@, p.1 as int)),
            None => spec_read_run(b@, i as int) is None,
        },
{
    if b.len() < 4 || i > b.len() - 4 {
        return None;
    }
    let b0: u8 = b[i];
    let b1: u8 = b[i + 1];
    let b2: u8 = b[i + 2];
    let b3: u8 = b[i + 3];
    let m: u32 = ((b0 as u32) << 24) | ((b1 as u32) << 16) | ((b2 as u32) << 8) | (b3 as u32);
    assert(m == be32_at(b@, i as int));
    let rest: usize = b.len() - (i + 4);
    if m as usize > rest {
        return None;
    }
    let j: usize = i + 4 + (m as usize);
    let data: Vec<u8> = slice_to_vec(slice_subrange(b, i + 4, j));
    Some((data, j))
}

/// An owned copy of a byte buffer, byte for byte.
pub fn clone_bytes(v: &Vec<u8>) -> (r: Vec<u8>)
    ensures
        r@ == v@,
{
    slice_to_vec(v.as_slice())
}

/// Compares two byte sequences for equality.
pub fn bytes_eq(a: &[u8], b: &[u8]) -> (r: bool)
    ensures
        r == (a@ == b@),
{
    if a.len() != b.len() {
        assert(a@ != b@);
        return false;
    }
    let n: usize = a.len();
    let mut j: usize = 0;
    while j < n
        invariant
            n == a@.len() == b@.len(),
            j <= n,
            forall|t: int| 0 <= t < j ==> a@[t] == b@[t],
        decreases n - j,
    {
        if a[j] != b[j] {
            return false;
        }
        j = j + 1;
    }
    assert(a@ =~= b@);
    true
}

/// Relies on std's `String::from_utf8`: it succeeds exactly on the byte
/// sequences that are valid UTF-8, and the string it returns spells those
/// very bytes.
#[verifier::external_body]
pub fn bytes_to_string(b: &[u8]) -> (r: Option<String>)
    ensures
        r matches Some(s) ==> b@ == encode_utf8(s@),
        valid_utf8(b@) ==> r is Some,
{
    String::from_utf8(b.to_vec()).ok()
}

} // verus!
