//! Reading frames back from bytes. A buffer may hold a whole frame, the start
//! of one, or something that no frame starts with; `decode` says which.

use crate::decimal::{parse_i64, parse_u64, spec_parse_i64, spec_parse_u64};
use crate::frame::{Frame, FrameView};
use crate::text::string_from_utf8;
use bytes::Bytes;
use vstd::prelude::*;
use vstd::slice::{slice_subrange, slice_to_vec};
use vstd::utf8::{decode_utf8, valid_utf8};

verus! {

/// What reading from the front of a buffer gives.
pub enum Decoded<T> {
    /// A value, and the number of bytes that it took.
    Done(T, int),
    /// The buffer ends before the value does.
    Incomplete,
    /// The bytes are not the start of any value.
    Invalid,
}

/// Why no frame could be read.
#[derive(Debug, PartialEq, Eq)]
pub enum FrameError {
    /// More bytes are needed.
    Incomplete,
    /// The bytes do not follow the protocol.
    Other(String),
}

/// The reason given for bytes that do not follow the protocol.
pub open spec fn invalid_frame_message() -> Seq<char> {
    "protocol error; invalid frame format"@
}

/// Where the first line end at or after `from` starts, if there is one.
pub open spec fn find_crlf(buf: Seq<u8>, from: int) -> Option<int>
    decreases buf.len() - from,
{
    if from < 0 || from + 1 >= buf.len() {
        None
    } else if buf[from] == 13 && buf[from + 1] == 10 {
        Some(from)
    } else {
        find_crlf(buf, from + 1)
    }
}

/// Whether a frame can start with `b`.
pub open spec fn is_tag(b: u8) -> bool {
    b == 43 || b == 45 || b == 58 || b == 36 || b == 42
}

/// The payload `-1`, which stands for the null blob and the null array.
pub open spec fn minus_one() -> Seq<u8> {
    seq![45u8, 49u8]
}

/// The frame at the front of `buf`.
pub open spec fn decode(buf: Seq<u8>) -> Decoded<FrameView>
    decreases buf.len(), 0nat,
{
    if buf.len() == 0 {
        Decoded::Incomplete
    } else if !is_tag(buf[0]) {
        Decoded::Invalid
    } else {
        match find_crlf(buf, 1) {
            None => Decoded::Incomplete,
            Some(end) => {
                let line = buf.subrange(1, end);
                let next = end + 2;
                if end < 1 || next > buf.len() {
                    Decoded::Invalid
                } else if buf[0] == 43 {
                    if valid_utf8(line) {
                        Decoded::Done(FrameView::Simple(decode_utf8(line)), next)
                    } else {
                        Decoded::Invalid
                    }
                } else if buf[0] == 45 {
                    if valid_utf8(line) {
                        Decoded::Done(FrameView::Error(decode_utf8(line)), next)
                    } else {
                        Decoded::Invalid
                    }
                } else if buf[0] == 58 {
                    match spec_parse_i64(line) {
                        Some(value) => Decoded::Done(FrameView::Integer(value), next),
                        None => Decoded::Invalid,
                    }
                } else if line == minus_one() {
                    Decoded::Done(FrameView::Null, next)
                } else {
                    match spec_parse_u64(line) {
                        None => Decoded::Invalid,
                        Some(n) => if buf[0] == 36 {
                            if buf.len() < next + n + 2 {
                                Decoded::Incomplete
                            } else if buf[next + n] != 13 || buf[next + n + 1] != 10 {
                                Decoded::Invalid
                            } else {
                                Decoded::Done(
                                    FrameView::Bulk(buf.subrange(next, next + n)),
                                    next + n + 2,
                                )
                            }
                        } else {
                            array_of(next, decode_all(buf.skip(next), n as nat))
                        },
                    }
                }
            },
        }
    }
}

/// The `count` frames at the front of `buf`, one after the other.
pub open spec fn decode_all(buf: Seq<u8>, count: nat) -> Decoded<Seq<FrameView>>
    decreases buf.len(), count + 1,
{
    if count == 0 {
        Decoded::Done(Seq::empty(), 0)
    } else {
        match decode(buf) {
            Decoded::Done(first, used) => if used <= 0 || used > buf.len() {
                Decoded::Invalid
            } else {
                after(seq![first], used, decode_all(buf.skip(used), (count - 1) as nat))
            },
            Decoded::Incomplete => Decoded::Incomplete,
            Decoded::Invalid => Decoded::Invalid,
        }
    }
}

/// The array read when its header took `next` bytes and `items` is what was
/// read behind it.
pub open spec fn array_of(next: int, items: Decoded<Seq<FrameView>>) -> Decoded<FrameView> {
    match items {
        Decoded::Done(items, used) => Decoded::Done(FrameView::Array(items), next + used),
        Decoded::Incomplete => Decoded::Incomplete,
        Decoded::Invalid => Decoded::Invalid,
    }
}

/// What is read in all when `items` took `used` bytes and `rest` is read
/// behind them.
pub open spec fn after(items: Seq<FrameView>, used: int, rest: Decoded<Seq<FrameView>>) -> Decoded<
    Seq<FrameView>,
> {
    match rest {
        Decoded::Done(more, further) => Decoded::Done(items + more, used + further),
        Decoded::Incomplete => Decoded::Incomplete,
        Decoded::Invalid => Decoded::Invalid,
    }
}

fn invalid<T>() -> (r: Result<T, FrameError>)
    ensures
        r matches Err(FrameError::Other(reason)) && reason@ == invalid_frame_message(),
{
    Err(FrameError::Other("protocol error; invalid frame format".to_owned()))
}

/// Finds the end of the line that follows the tag at `pos`.
fn line_end(src: &[u8], pos: usize) -> (r: Option<usize>)
    requires
        pos < src.len(),
    ensures
        match r {
            Some(end) => pos < end && end + 1 < src.len() && find_crlf(src@.skip(pos as int), 1)
                == Some(end - pos),
            None => find_crlf(src@.skip(pos as int), 1) is None,
        },
{
    let ghost buf = src@.skip(pos as int);
    let mut i: usize = pos + 1;
    while i < src.len() - 1
        invariant
            pos < i <= src.len(),
            buf == src@.skip(pos as int),
            find_crlf(buf, 1) == find_crlf(buf, i - pos),
        decreases src.len() - i,
    {
        if src[i] == 13 && src[i + 1] == 10 {
            return Some(i);
        }
        i = i + 1;
    }
    None
}

/// Reads the frame that starts at `pos`.
fn parse_at(src: &[u8], pos: usize) -> (r: Result<(Frame, usize), FrameError>)
    requires
        pos <= src.len(),
    ensures
        match r {
            Ok((frame, end)) => pos < end <= src.len() && decode(src@.skip(pos as int))
                == Decoded::Done(frame@, end - pos),
            Err(FrameError::Incomplete) => decode(src@.skip(pos as int)) is Incomplete,
            Err(FrameError::Other(reason)) => decode(src@.skip(pos as int)) is Invalid && reason@
                == invalid_frame_message(),
        },
    decreases src.len() - pos,
{
    let ghost buf = src@.skip(pos as int);
    if pos == src.len() {
        return Err(FrameError::Incomplete);
    }
    let tag = src[pos];
    if tag != 43 && tag != 45 && tag != 58 && tag != 36 && tag != 42 {
        return invalid();
    }
    let end = match line_end(src, pos) {
        Some(end) => end,
        None => {
            return Err(FrameError::Incomplete);
        },
    };
    let line = slice_subrange(src, pos + 1, end);
    let next = end + 2;
    assert(line@ =~= buf.subrange(1, end - pos));
    if tag == 43 || tag == 45 {
        return match string_from_utf8(slice_to_vec(line)) {
            Some(text) => if tag == 43 {
                Ok((Frame::Simple(text), next))
            } else {
                Ok((Frame::Error(text), next))
            },
            None => invalid(),
        };
    }
    if tag == 58 {
        return match parse_i64(line) {
            Some(value) => Ok((Frame::Integer(value), next)),
            None => invalid(),
        };
    }
    if line.len() == 2 && line[0] == 45 && line[1] == 49 {
        assert(line@ =~= minus_one());
        return Ok((Frame::Null, next));
    }
    assert(line@ != minus_one());
    let n = match parse_u64(line) {
        Some(n) => n,
        None => {
            return invalid();
        },
    };
    if tag == 36 {
        let left = src.len() - next;
        if n > left as u64 || left as u64 - n < 2 {
            return Err(FrameError::Incomplete);
        }
        let stop = next + n as usize;
        if src[stop] != 13 || src[stop + 1] != 10 {
            return invalid();
        }
        let body = slice_subrange(src, next, stop);
        assert(body@ =~= buf.subrange(next - pos, stop - pos));
        let data = Bytes::copy_from_slice(body);
        return Ok((Frame::Bulk(data), stop + 2));
    }
    let mut items: Vec<Frame> = Vec::new();
    let ghost mut views: Seq<FrameView> = Seq::empty();
    let mut cur = next;
    let mut i: u64 = 0;
    assert(buf.skip(next - pos) =~= src@.skip(next as int));
    while i < n
        invariant
            pos < next <= cur <= src.len(),
            i <= n,
            buf == src@.skip(pos as int),
            views.len() == items.len(),
            forall|j: int| 0 <= j < items.len() ==> views[j] == (#[trigger] items@[j])@,
            decode(buf) == array_of(next - pos, decode_all(src@.skip(next as int), n as nat)),
            decode_all(src@.skip(next as int), n as nat) == after(
                views,
                cur - next,
                decode_all(src@.skip(cur as int), (n - i) as nat),
            ),
        decreases n - i,
    {
        let ghost here = src@.skip(cur as int);
        match parse_at(src, cur) {
            Ok((item, stop)) => {
                proof {
                    assert(here.skip(stop - cur) =~= src@.skip(stop as int));
                    let rest = decode_all(src@.skip(stop as int), (n - i - 1) as nat);
                    assert(decode_all(here, (n - i) as nat) == after(seq![item@], stop - cur, rest));
                    match rest {
                        Decoded::Done(more, further) => {
                            assert(views + (seq![item@] + more) =~= views.push(item@) + more);
                        },
                        _ => {},
                    }
                    views = views.push(item@);
                }
                items.push(item);
                cur = stop;
                i = i + 1;
            },
            Err(FrameError::Incomplete) => {
                return Err(FrameError::Incomplete);
            },
            Err(FrameError::Other(reason)) => {
                return Err(FrameError::Other(reason));
            },
        }
    }
    proof {
        crate::frame::lemma_array_view(items);
        assert(Frame::Array(items)@->Array_0 =~= views);
        assert(views + Seq::<FrameView>::empty() =~= views);
    }
    Ok((Frame::Array(items), cur))
}

impl Frame {
    /// Reads the frame at the front of `src`, and says how many bytes it
    /// took. A buffer that ends before the frame does is `Incomplete`: the
    /// caller reads more bytes and tries again. Bytes that no frame starts
    /// with are an error for good.
    pub fn parse(src: &[u8]) -> (r: Result<(Frame, usize), FrameError>)
        ensures
            match r {
                Ok((frame, used)) => 0 < used <= src.len() && decode(src@) == Decoded::Done(
                    frame@,
                    used as int,
                ),
                Err(FrameError::Incomplete) => decode(src@) is Incomplete,
                Err(FrameError::Other(reason)) => decode(src@) is Invalid && reason@
                    == invalid_frame_message(),
            },
    {
        assert(src@.skip(0) =~= src@);
        parse_at(src, 0)
    }
}

} // verus!
