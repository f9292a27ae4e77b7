//! Little-endian words and length-framed records.
use vstd::prelude::*;

verus! {

/// The unsigned 32-bit little-endian value of the four bytes at `at`.
pub open spec fn le_u32(b: Seq<u8>, at: int) -> int {
    b[at] as int + 256 * (b[at + 1] as int) + 65536 * (b[at + 2] as int) + 16777216 * (
    b[at + 3] as int)
}

/// Reads the little-endian word at `at`.
pub fn read_le_u32(b: &[u8], at: usize) -> (r: u32)
    requires
        at + 4 <= b@.len(),
    ensures
        r as int == le_u32(b@, at as int),
{
    let b0 = b[at] as u32;
    let b1 = b[at + 1] as u32;
    let b2 = b[at + 2] as u32;
    let b3 = b[at + 3] as u32;
    b0 + 256 * b1 + 65536 * b2 + 16777216 * b3
}

} // verus!

verus! {

/// How decoding one piece of a framed stream at a position ends.
pub enum Outcome {
    /// The input ends before the piece does.
    Short,
    /// The two length tags of a record disagree, or a fixed tag is wrong.
    Mismatch,
    /// The piece is sound and ends at this position.
    Ends(int),
}

/// The length tag of a record that starts at `at`.
pub open spec fn tag_at(b: Seq<u8>, at: int) -> int {
    le_u32(b, at)
}

/// A record at `at`: a tag `n`, `n` payload bytes, and the tag again.
pub open spec fn record_outcome(b: Seq<u8>, at: int) -> Outcome {
    if at + 4 > b.len() {
        Outcome::Short
    } else if at + 8 + tag_at(b, at) > b.len() {
        Outcome::Short
    } else if tag_at(b, at + 4 + tag_at(b, at)) != tag_at(b, at) {
        Outcome::Mismatch
    } else {
        Outcome::Ends(at + 8 + tag_at(b, at))
    }
}

/// The payload of the record at `at`.
pub open spec fn record_payload(b: Seq<u8>, at: int) -> Seq<u8> {
    b.subrange(at + 4, at + 4 + tag_at(b, at))
}

/// A record at `at` whose payload has exactly `len` bytes, both tags included
/// in the check.
pub open spec fn fixed_record_outcome(b: Seq<u8>, at: int, len: int) -> Outcome {
    if at + 4 > b.len() {
        Outcome::Short
    } else if tag_at(b, at) != len {
        Outcome::Mismatch
    } else if at + 8 + len > b.len() {
        Outcome::Short
    } else if tag_at(b, at + 4 + len) != len {
        Outcome::Mismatch
    } else {
        Outcome::Ends(at + 8 + len)
    }
}

/// The bytes from `from` up to `to`, copied.
pub fn copy_range(b: &[u8], from: usize, to: usize) -> (r: Vec<u8>)
    requires
        from <= to <= b@.len(),
    ensures
        r@ == b@.subrange(from as int, to as int),
{
    let mut r: Vec<u8> = Vec::new();
    let mut i: usize = from;
    while i < to
        invariant
            from <= i <= to <= b@.len(),
            r@ == b@.subrange(from as int, i as int),
        decreases to - i,
    {
        r.push(b[i]);
        i = i + 1;
    }
    r
}

} // verus!

verus! {

/// Where the record at `at` ends, whether or not it fits.
pub open spec fn record_end(b: Seq<u8>, at: int) -> int {
    at + 8 + tag_at(b, at)
}

/// Decodes the record at `at`: its payload and the position after it.
pub fn parse_record(b: &[u8], at: usize) -> (r: Result<(Vec<u8>, usize), Outcome>)
    requires
        at <= b@.len(),
    ensures
        match r {
            Ok((p, end)) => record_outcome(b@, at as int) == Outcome::Ends(end as int) && p@
                == record_payload(b@, at as int),
            Err(o) => o == record_outcome(b@, at as int) && !(o is Ends),
        },
{
    if b.len() - at < 4 {
        return Err(Outcome::Short);
    }
    let n = read_le_u32(b, at) as usize;
    if b.len() - at - 4 < n || b.len() - at - 4 - n < 4 {
        return Err(Outcome::Short);
    }
    let check = read_le_u32(b, at + 4 + n) as usize;
    if check != n {
        return Err(Outcome::Mismatch);
    }
    let p = copy_range(b, at + 4, at + 4 + n);
    Ok((p, at + 8 + n))
}

/// Checks the record at `at` whose payload must have `len` bytes, and gives
/// the position after it.
pub fn check_fixed_record(b: &[u8], at: usize, len: u32) -> (r: Result<usize, Outcome>)
    requires
        at <= b@.len(),
    ensures
        match r {
            Ok(end) => fixed_record_outcome(b@, at as int, len as int) == Outcome::Ends(
                end as int,
            ),
            Err(o) => o == fixed_record_outcome(b@, at as int, len as int) && !(o is Ends),
        },
{
    if b.len() - at < 4 {
        return Err(Outcome::Short);
    }
    if read_le_u32(b, at) != len {
        return Err(Outcome::Mismatch);
    }
    let n = len as usize;
    if b.len() - at - 4 < n || b.len() - at - 4 - n < 4 {
        return Err(Outcome::Short);
    }
    if read_le_u32(b, at + 4 + n) != len {
        return Err(Outcome::Mismatch);
    }
    Ok(at + 8 + n)
}

} // verus!
