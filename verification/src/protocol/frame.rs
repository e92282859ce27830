//! Newline-terminated frames on a byte stream.
use super::{ExtensionError, Fault, MAX_FRAME_BYTES};
use crate::text::copied;
use vstd::prelude::*;

verus! {

pub const LINE_FEED: u8 = 10;

/// Number of bytes up to and with the first line feed.
pub open spec fn line_len(chunk: Seq<u8>) -> Option<nat>
    decreases chunk.len(),
{
    if chunk.len() == 0 {
        None
    } else if chunk[0] == LINE_FEED {
        Some(1)
    } else {
        match line_len(chunk.drop_first()) {
            Some(n) => Some(n + 1),
            None => None,
        }
    }
}

/// A found line ends with its only line feed.
pub proof fn line_len_is_first(chunk: Seq<u8>)
    ensures
        match line_len(chunk) {
            Some(n) => 0 < n <= chunk.len() && chunk[n - 1] == LINE_FEED && forall|i: int|
                0 <= i < n - 1 ==> chunk[i] != LINE_FEED,
            None => forall|i: int| 0 <= i < chunk.len() ==> chunk[i] != LINE_FEED,
        },
    decreases chunk.len(),
{
    if chunk.len() > 0 && chunk[0] != LINE_FEED {
        let rest = chunk.drop_first();
        line_len_is_first(rest);
        assert forall|i: int| 1 <= i < chunk.len() implies chunk[i] == rest[i - 1] by {}
        match line_len(rest) {
            Some(n) => {
                assert forall|i: int| 0 <= i < n implies chunk[i] != LINE_FEED by {
                    if i > 0 {
                        assert(chunk[i] == rest[i - 1]);
                    }
                }
                assert(chunk[n as int] == rest[n - 1]);
            },
            None => {
                assert forall|i: int| 0 <= i < chunk.len() implies chunk[i] != LINE_FEED by {
                    if i > 0 {
                        assert(chunk[i] == rest[i - 1]);
                    }
                }
            },
        }
    }
}

fn find_line(chunk: &[u8]) -> (r: Option<usize>)
    ensures
        match r {
            Some(n) => line_len(chunk@) == Some(n as nat) && n <= chunk.len(),
            None => line_len(chunk@) is None,
        },
{
    let mut i: usize = 0;
    assert(chunk@.subrange(0, chunk.len() as int) =~= chunk@);
    while i < chunk.len()
        invariant
            i <= chunk.len(),
            line_len(chunk@) == match line_len(chunk@.subrange(i as int, chunk.len() as int)) {
                Some(n) => Some(n + i as nat),
                None => None,
            },
        decreases chunk.len() - i,
    {
        let ghost rest = chunk@.subrange(i as int, chunk.len() as int);
        assert(rest[0] == chunk@[i as int]);
        assert(rest.drop_first() =~= chunk@.subrange(i + 1, chunk.len() as int));
        if chunk[i] == LINE_FEED {
            return Some(i + 1);
        }
        i = i + 1;
    }
    None
}

/// Bytes of a frame that has not ended yet.
pub struct FrameReader {
    bytes: Vec<u8>,
}

impl View for FrameReader {
    type V = Seq<u8>;

    closed spec fn view(&self) -> Seq<u8> {
        self.bytes@
    }
}

/// How many bytes of a chunk the current frame takes.
pub open spec fn taken(chunk: Seq<u8>) -> nat {
    match line_len(chunk) {
        Some(n) => n,
        None => chunk.len(),
    }
}

impl FrameReader {
    pub fn new() -> (r: Self)
        ensures
            r@ == Seq::<u8>::empty(),
    {
        FrameReader { bytes: Vec::new() }
    }

    /// Takes bytes up to the end of the current frame and says how many it
    /// took; a finished frame is handed out with its line feed. An empty chunk
    /// is the end of the stream.
    pub fn feed(&mut self, chunk: &[u8]) -> (r: Result<(usize, Option<Vec<u8>>), ExtensionError>)
        ensures
            ({
                let held = old(self)@ + chunk@.subrange(0, taken(chunk@) as int);
                match r {
                    Ok((used, Some(frame))) => chunk.len() > 0 && line_len(chunk@) is Some && used == taken(chunk@)
                        && held.len() <= MAX_FRAME_BYTES && frame@ == held && final(self)@ == Seq::<u8>::empty(),
                    Ok((used, None)) => chunk.len() > 0 && line_len(chunk@) is None && used == chunk.len() && held.len()
                        <= MAX_FRAME_BYTES && final(self)@ == held,
                    Err(e) => if chunk.len() == 0 {
                        e@ == Fault::Unavailable("unexpected EOF"@)
                    } else {
                        held.len() > MAX_FRAME_BYTES && e@ == Fault::Protocol("frame exceeds 1 MiB"@)
                    },
                }
            }),
    {
        if chunk.len() == 0 {
            return Err(ExtensionError::Unavailable(copied("unexpected EOF")));
        }
        let end = find_line(chunk);
        let length: usize = match end {
            Some(n) => n,
            None => chunk.len(),
        };
        if self.bytes.len() > MAX_FRAME_BYTES || length > MAX_FRAME_BYTES - self.bytes.len() {
            return Err(ExtensionError::Protocol(copied("frame exceeds 1 MiB")));
        }
        let ghost start = self.bytes@;
        let mut i: usize = 0;
        assert(start + chunk@.subrange(0, 0) =~= start);
        while i < length
            invariant
                i <= length <= chunk.len(),
                self.bytes@ == start + chunk@.subrange(0, i as int),
            decreases length - i,
        {
            self.bytes.push(chunk[i]);
            assert(self.bytes@ =~= start + chunk@.subrange(0, i + 1));
            i = i + 1;
        }
        if end.is_some() {
            let mut frame: Vec<u8> = Vec::new();
            std::mem::swap(&mut frame, &mut self.bytes);
            return Ok((length, Some(frame)));
        }
        Ok((length, None))
    }
}

/// Checks the size of an encoded message before its line feed is added.
pub fn outgoing(encoded: usize) -> (r: Result<(), ExtensionError>)
    ensures
        match r {
            Ok(_) => encoded + 1 <= MAX_FRAME_BYTES,
            Err(e) => encoded + 1 > MAX_FRAME_BYTES && e@ == Fault::Rejected("outgoing frame exceeds 1 MiB"@),
        },
{
    if encoded >= MAX_FRAME_BYTES {
        return Err(ExtensionError::Rejected(copied("outgoing frame exceeds 1 MiB")));
    }
    Ok(())
}

/// Bytes that follow a buffered part without a line feed come out as one frame
/// exactly where the stream's first line ends, however the stream was cut.
pub proof fn cutting_does_not_matter(front: Seq<u8>, back: Seq<u8>)
    requires
        line_len(front) is None,
    ensures
        line_len(front + back) == match line_len(back) {
            Some(n) => Some(n + front.len()),
            None => None,
        },
    decreases front.len(),
{
    if front.len() == 0 {
        assert(front + back =~= back);
    } else {
        assert((front + back).drop_first() =~= front.drop_first() + back);
        cutting_does_not_matter(front.drop_first(), back);
    }
}

} // verus!
