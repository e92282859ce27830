//! Framing of journals: one record per line.
use vstd::prelude::*;

verus! {

pub const NEWLINE: u8 = 10;

/// Length of the part that ends with the last newline.
pub open spec fn complete(bytes: Seq<u8>) -> nat
    decreases bytes.len(),
{
    if bytes.len() == 0 || bytes.last() == NEWLINE { bytes.len() } else { complete(bytes.drop_last()) }
}

/// A stretch of bytes whose only newline is its last byte.
pub open spec fn is_line(bytes: Seq<u8>, from: int, to: int) -> bool {
    &&& 0 <= from < to <= bytes.len()
    &&& bytes[to - 1] == NEWLINE
    &&& forall|i: int| from <= i < to - 1 ==> #[trigger] bytes[i] != NEWLINE
}

/// Consecutive lines that together are the first `end` bytes.
pub open spec fn divides(bytes: Seq<u8>, lines: Seq<(usize, usize)>, end: int) -> bool {
    &&& forall|k: int| 0 <= k < lines.len() ==> is_line(bytes, (#[trigger] lines[k]).0 as int, lines[k].1 as int)
    &&& forall|k: int, m: int| 0 <= k && k + 1 == m && m < lines.len() ==> (#[trigger] lines[k]).1 == (#[trigger] lines[m]).0
    &&& if lines.len() == 0 { end == 0 } else { lines[0].0 == 0 && lines.last().1 == end }
}

/// How many bytes belong to complete lines.
pub fn complete_len(bytes: &Vec<u8>) -> (n: usize)
    ensures
        n == complete(bytes@),
        n <= bytes@.len(),
        n > 0 ==> bytes@[n - 1] == NEWLINE,
        forall|i: int| n <= i < bytes@.len() ==> #[trigger] bytes@[i] != NEWLINE,
{
    let mut n: usize = bytes.len();
    assert(bytes@.subrange(0, n as int) =~= bytes@);
    while n > 0 && bytes[n - 1] != NEWLINE
        invariant
            n <= bytes.len(),
            complete(bytes@) == complete(bytes@.subrange(0, n as int)),
            forall|i: int| n <= i < bytes@.len() ==> #[trigger] bytes@[i] != NEWLINE,
        decreases n,
    {
        proof {
            let part = bytes@.subrange(0, n as int);
            assert(part.last() == bytes@[n - 1]);
            assert(part.drop_last() =~= bytes@.subrange(0, n - 1));
        }
        n = n - 1;
    }
    proof {
        let part = bytes@.subrange(0, n as int);
        if n > 0 {
            assert(part.last() == bytes@[n - 1]);
        }
    }
    n
}

/// The lines that make up the first `end` bytes.
pub fn split(bytes: &Vec<u8>, end: usize) -> (r: Vec<(usize, usize)>)
    requires
        end <= bytes@.len(),
        end > 0 ==> bytes@[end - 1] == NEWLINE,
    ensures
        divides(bytes@, r@, end as int),
{
    let mut r: Vec<(usize, usize)> = Vec::new();
    let mut from: usize = 0;
    while from < end
        invariant
            from <= end <= bytes@.len(),
            end > 0 ==> bytes@[end - 1] == NEWLINE,
            divides(bytes@, r@, from as int),
        decreases end - from,
    {
        let mut at: usize = from;
        while bytes[at] != NEWLINE
            invariant
                from <= at < end <= bytes@.len(),
                bytes@[end - 1] == NEWLINE,
                forall|i: int| from <= i < at ==> #[trigger] bytes@[i] != NEWLINE,
            decreases end - at,
        {
            at = at + 1;
        }
        let ghost before = r@;
        r.push((from, at + 1));
        proof {
            assert forall|k: int| 0 <= k < r@.len() implies is_line(bytes@, (#[trigger] r@[k]).0 as int, r@[k].1 as int) by {
                if k < before.len() {
                    assert(r@[k] == before[k]);
                }
            }
            assert forall|k: int, m: int| 0 <= k && k + 1 == m && m < r@.len() implies (#[trigger] r@[k]).1 == (#[trigger] r@[m]).0 by {
                if m < before.len() {
                    assert(r@[k] == before[k] && r@[m] == before[m]);
                }
            }
        }
        from = at + 1;
    }
    r
}

/// Whether the bytes end within a line.
pub fn incomplete(bytes: &Vec<u8>) -> (r: bool)
    ensures
        r == (bytes@.len() > 0 && bytes@.last() != NEWLINE),
{
    bytes.len() > 0 && bytes[bytes.len() - 1] != NEWLINE
}

} // verus!
