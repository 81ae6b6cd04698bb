//! Reading from a stream. Bytes arrive in pieces, so a buffer is read again
//! and again as it grows. What was read once stays: a frame that is whole
//! is the same frame whatever follows it, and bytes that are no frame are
//! never mended by more bytes. Only an incomplete frame is worth waiting for.

use crate::decimal::spec_parse_u64;
use crate::decode::{decode, decode_all, find_crlf, Decoded};
use vstd::prelude::*;

verus! {

/// Whether what was read from a buffer, `before`, stands once more bytes
/// have arrived and `later` is read: a value stays, with the bytes that it
/// took, and an error stays an error.
pub open spec fn stands<T>(before: Decoded<T>, later: Decoded<T>) -> bool {
    match before {
        Decoded::Done(_, _) => later == before,
        Decoded::Invalid => later is Invalid,
        Decoded::Incomplete => true,
    }
}

/// A line end that was found stays where it is when more bytes arrive.
pub proof fn lemma_line_end_stays(buf: Seq<u8>, more: Seq<u8>, from: int)
    requires
        find_crlf(buf, from) is Some,
    ensures
        find_crlf(buf + more, from) == find_crlf(buf, from),
        from <= find_crlf(buf, from)->0,
        find_crlf(buf, from)->0 + 1 < buf.len(),
    decreases buf.len() - from,
{
    if from >= 0 && from + 1 < buf.len() {
        assert((buf + more)[from] == buf[from]);
        assert((buf + more)[from + 1] == buf[from + 1]);
        if !(buf[from] == 13 && buf[from + 1] == 10) {
            lemma_line_end_stays(buf, more, from + 1);
        }
    }
}

/// A frame that is read takes one byte or more, and no more than the buffer
/// holds.
pub proof fn lemma_frame_within_buffer(buf: Seq<u8>)
    ensures
        decode(buf) matches Decoded::Done(_, used) ==> 0 < used <= buf.len(),
    decreases buf.len(), 0nat,
{
    if buf.len() > 0 && find_crlf(buf, 1) is Some {
        lemma_line_end_stays(buf, Seq::empty(), 1);
        let end = find_crlf(buf, 1)->0;
        let next = end + 2;
        if buf[0] == 42 {
            match spec_parse_u64(buf.subrange(1, end)) {
                Some(n) => {
                    lemma_frames_within_buffer(buf.skip(next), n as nat);
                },
                None => {},
            }
        }
    }
}

/// A run of frames that is read takes no more than the buffer holds.
pub proof fn lemma_frames_within_buffer(buf: Seq<u8>, count: nat)
    ensures
        decode_all(buf, count) matches Decoded::Done(_, used) ==> 0 <= used <= buf.len(),
    decreases buf.len(), count + 1,
{
    if count > 0 {
        lemma_frame_within_buffer(buf);
        match decode(buf) {
            Decoded::Done(first, used) => {
                if 0 < used <= buf.len() {
                    lemma_frames_within_buffer(buf.skip(used), (count - 1) as nat);
                }
            },
            _ => {},
        }
    }
}

/// What was read from a buffer stands when more bytes arrive.
pub proof fn lemma_more_bytes(buf: Seq<u8>, more: Seq<u8>)
    ensures
        stands(decode(buf), decode(buf + more)),
    decreases buf.len(), 0nat,
{
    let all = buf + more;
    if buf.len() > 0 {
        assert(all[0] == buf[0]);
        if find_crlf(buf, 1) is Some {
            lemma_line_end_stays(buf, more, 1);
            let end = find_crlf(buf, 1)->0;
            let next = end + 2;
            assert(all.subrange(1, end) =~= buf.subrange(1, end));
            if (buf[0] == 36 || buf[0] == 42) {
                let line = buf.subrange(1, end);
                match spec_parse_u64(line) {
                    Some(n) => {
                        if buf[0] == 36 {
                            if buf.len() >= next + n + 2 {
                                assert(all[next + n] == buf[next + n]);
                                assert(all[next + n + 1] == buf[next + n + 1]);
                                assert(all.subrange(next, next + n) =~= buf.subrange(
                                    next,
                                    next + n,
                                ));
                            }
                        } else {
                            assert(all.skip(next) =~= buf.skip(next) + more);
                            lemma_more_bytes_all(buf.skip(next), more, n as nat);
                        }
                    },
                    None => {},
                }
            }
        }
    }
}

/// What was read from a buffer as a run of frames stands when more bytes
/// arrive.
pub proof fn lemma_more_bytes_all(buf: Seq<u8>, more: Seq<u8>, count: nat)
    ensures
        stands(decode_all(buf, count), decode_all(buf + more, count)),
    decreases buf.len(), count + 1,
{
    if count > 0 {
        lemma_more_bytes(buf, more);
        lemma_frame_within_buffer(buf);
        match decode(buf) {
            Decoded::Done(first, used) => {
                assert((buf + more).skip(used) =~= buf.skip(used) + more);
                lemma_more_bytes_all(buf.skip(used), more, (count - 1) as nat);
            },
            _ => {},
        }
    }
}

} // verus!
