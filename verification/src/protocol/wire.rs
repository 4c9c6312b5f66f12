//! Big-endian integers and length-prefixed strings, as the SSH agent
//! protocol writes them.

use vstd::prelude::*;

verus! {

/// The value of the first four bytes of `b`, read big-endian.
pub open spec fn be32_value(b: Seq<u8>) -> int {
    b[0] * 16777216 + b[1] * 65536 + b[2] * 256 + b[3]
}

/// The four big-endian bytes of `x`.
pub open spec fn be32_bytes(x: u32) -> Seq<u8> {
    seq![(x / 16777216) as u8, ((x / 65536) % 256) as u8, ((x / 256) % 256) as u8, (x % 256) as u8]
}

/// A length-prefixed byte string: its length as four big-endian bytes, then the bytes.
pub open spec fn ssh_string(b: Seq<u8>) -> Seq<u8> {
    be32_bytes(b.len() as u32) + b
}

/// Reads a length-prefixed byte string from the front of `d`: the bytes and
/// how many bytes of `d` it took, or `None` when `d` is too short.
pub open spec fn parse_ssh_string(d: Seq<u8>) -> Option<(Seq<u8>, int)> {
    if d.len() < 4 {
        None
    } else {
        let n = be32_value(d);
        if 4 + n <= d.len() {
            Some((d.subrange(4, 4 + n), 4 + n))
        } else {
            None
        }
    }
}

/// Reading back the four bytes of `x` gives `x`.
pub proof fn lemma_be32_roundtrip(x: u32)
    ensures
        be32_bytes(x).len() == 4,
        be32_value(be32_bytes(x)) == x,
{
    let b = be32_bytes(x);
    assert(b[0] == x / 16777216);
    assert(b[1] == (x / 65536) % 256);
    assert(b[2] == (x / 256) % 256);
    assert(b[3] == x % 256);
    assert((x / 16777216) * 16777216 + ((x / 65536) % 256) * 65536 + ((x / 256) % 256) * 256 + x
        % 256 == x) by (nonlinear_arith);
}

/// A big-endian value read from four bytes fits in a `u32`.
pub proof fn lemma_be32_value_bounds(b: Seq<u8>)
    requires
        b.len() >= 4,
    ensures
        0 <= be32_value(b) <= u32::MAX,
{
}

/// A length-prefixed string followed by anything reads back as itself.
pub proof fn lemma_ssh_string_roundtrip(b: Seq<u8>, rest: Seq<u8>)
    requires
        b.len() <= u32::MAX,
    ensures
        parse_ssh_string(ssh_string(b) + rest) == Some((b, 4 + b.len() as int)),
        ssh_string(b).len() == 4 + b.len(),
{
    lemma_be32_roundtrip(b.len() as u32);
    let d = ssh_string(b) + rest;
    assert(d.subrange(0, 4) =~= be32_bytes(b.len() as u32));
    assert(be32_value(d) == be32_value(be32_bytes(b.len() as u32)));
    assert(d.subrange(4, 4 + b.len() as int) =~= b);
}

/// Reads a big-endian `u32` at `pos`.
pub fn read_u32_be(d: &[u8], pos: usize) -> (r: u32)
    requires
        pos + 4 <= d@.len(),
    ensures
        r == be32_value(d@.skip(pos as int)),
{
    let v: u32 = (d[pos] as u32) * 16777216 + (d[pos + 1] as u32) * 65536 + (d[pos + 2] as u32)
        * 256 + (d[pos + 3] as u32);
    v
}

/// Appends the four big-endian bytes of `x`.
pub fn push_u32_be(out: &mut Vec<u8>, x: u32)
    ensures
        final(out)@ == old(out)@ + be32_bytes(x),
{
    out.push((x / 16777216) as u8);
    out.push(((x / 65536) % 256) as u8);
    out.push(((x / 256) % 256) as u8);
    out.push((x % 256) as u8);
    assert(final(out)@ =~= old(out)@ + be32_bytes(x));
}

/// Appends the bytes of `b`.
pub fn push_bytes(out: &mut Vec<u8>, b: &[u8])
    ensures
        final(out)@ == old(out)@ + b@,
{
    let mut i: usize = 0;
    while i < b.len()
        invariant
            i <= b@.len(),
            out@ == old(out)@ + b@.subrange(0, i as int),
        decreases b@.len() - i,
    {
        out.push(b[i]);
        i = i + 1;
        assert(out@ =~= old(out)@ + b@.subrange(0, i as int));
    }
    assert(b@.subrange(0, b@.len() as int) =~= b@);
}

/// Appends `b` as a length-prefixed string.
pub fn push_ssh_string(out: &mut Vec<u8>, b: &[u8])
    requires
        b@.len() <= u32::MAX,
    ensures
        final(out)@ == old(out)@ + ssh_string(b@),
{
    push_u32_be(out, b.len() as u32);
    push_bytes(out, b);
    assert(final(out)@ =~= old(out)@ + ssh_string(b@));
}

/// Copies `d[from..to]` into a new vector.
pub fn copy_range(d: &[u8], from: usize, to: usize) -> (r: Vec<u8>)
    requires
        from <= to <= d@.len(),
    ensures
        r@ == d@.subrange(from as int, to as int),
{
    let mut r: Vec<u8> = Vec::new();
    let mut i = from;
    while i < to
        invariant
            from <= i <= to <= d@.len(),
            r@ == d@.subrange(from as int, i as int),
        decreases to - i,
    {
        r.push(d[i]);
        i = i + 1;
        assert(r@ =~= d@.subrange(from as int, i as int));
    }
    r
}

/// Locates the length-prefixed string that starts at `pos`: returns where
/// its bytes start and end, or `None` when `d` is too short.
pub fn locate_ssh_string(d: &[u8], pos: usize) -> (r: Option<(usize, usize)>)
    requires
        pos <= d@.len(),
    ensures
        match r {
            Some((start, end)) => {
                &&& start == pos + 4
                &&& start <= end <= d@.len()
                &&& parse_ssh_string(d@.skip(pos as int)) == Some(
                    (d@.subrange(start as int, end as int), end - pos),
                )
            },
            None => parse_ssh_string(d@.skip(pos as int)) is None,
        },
{
    let rest = d.len() - pos;
    if rest < 4 {
        return None;
    }
    let n = read_u32_be(d, pos);
    if (n as usize) > rest - 4 {
        return None;
    }
    let start = pos + 4;
    let end = start + n as usize;
    assert(d@.skip(pos as int).subrange(4, 4 + n) =~= d@.subrange(start as int, end as int));
    Some((start, end))
}

} // verus!
