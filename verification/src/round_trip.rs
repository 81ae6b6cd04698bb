//! Writing a frame and reading it back gives the same frame.

use crate::decimal::{decimal, digits_of, is_digit, lemma_decimal_round_trip, lemma_digits_of};
use crate::decode::{after, array_of, decode, decode_all, find_crlf, minus_one, Decoded};
use crate::frame::{crlf, encode, encode_all, line_of, FrameView};
use vstd::prelude::*;
use vstd::utf8::encode_utf8;

verus! {

/// Whether `s` holds no line end.
pub open spec fn no_line_end(s: Seq<u8>) -> bool {
    forall|i: int| 0 <= i < s.len() - 1 ==> !(#[trigger] s[i] == 13 && s[i + 1] == 10)
}

/// Whether a frame can be written so that it is read back: its texts hold no
/// line end, and its lengths are within what a length on the wire can say.
pub open spec fn well_formed(frame: FrameView) -> bool
    decreases frame,
{
    match frame {
        FrameView::Simple(text) => no_line_end(encode_utf8(text)),
        FrameView::Error(text) => no_line_end(encode_utf8(text)),
        FrameView::Integer(_) => true,
        FrameView::Bulk(data) => data.len() <= u64::MAX,
        FrameView::Null => true,
        FrameView::Array(items) => items.len() <= u64::MAX && forall|i: int|
            0 <= i < items.len() ==> well_formed(#[trigger] items[i]),
    }
}

/// The first line end at or after `from` is at `end` if one is there and none
/// starts before it.
pub proof fn lemma_find_crlf(buf: Seq<u8>, from: int, end: int)
    requires
        0 <= from <= end,
        end + 1 < buf.len(),
        buf[end] == 13,
        buf[end + 1] == 10,
        forall|i: int| from <= i < end ==> !(#[trigger] buf[i] == 13 && buf[i + 1] == 10),
    ensures
        find_crlf(buf, from) == Some(end),
    decreases end - from,
{
    if from < end {
        assert(!(buf[from] == 13 && buf[from + 1] == 10));
        lemma_find_crlf(buf, from + 1, end);
    }
}

/// A line that is written is found again: the first line end behind the tag
/// is the one that was written, and the payload lies before it.
pub proof fn lemma_line(tag: u8, payload: Seq<u8>, rest: Seq<u8>)
    requires
        no_line_end(payload),
    ensures
        find_crlf(line_of(tag, payload) + rest, 1) == Some(1 + payload.len() as int),
        (line_of(tag, payload) + rest).subrange(1, 1 + payload.len() as int) == payload,
        (line_of(tag, payload) + rest).skip(3 + payload.len() as int) == rest,
        (line_of(tag, payload) + rest)[0] == tag,
        (line_of(tag, payload) + rest).len() == payload.len() + 3 + rest.len(),
{
    let buf = line_of(tag, payload) + rest;
    let end = 1 + payload.len() as int;
    assert(buf[end] == 13);
    assert(buf[end + 1] == 10);
    assert forall|i: int| 1 <= i < end implies !(#[trigger] buf[i] == 13 && buf[i + 1] == 10) by {
        assert(buf[i] == payload[i - 1]);
        if i + 1 < end {
            assert(buf[i + 1] == payload[i]);
        }
    }
    lemma_find_crlf(buf, 1, end);
    assert(buf.subrange(1, end) =~= payload);
    assert(buf.skip(end + 2) =~= rest);
}

/// A number as it is written holds no line end.
pub proof fn lemma_decimal_no_line_end(n: int)
    ensures
        no_line_end(decimal(n)),
        n >= 0 ==> decimal(n) != minus_one(),
{
    if n < 0 {
        lemma_digits_of((-n) as nat);
        let d = digits_of((-n) as nat);
        assert forall|i: int| 0 <= i < decimal(n).len() - 1 implies !(#[trigger] decimal(n)[i] == 13
            && decimal(n)[i + 1] == 10) by {
            if i > 0 {
                assert(is_digit(d[i - 1]));
            }
        }
    } else {
        lemma_digits_of(n as nat);
        let d = digits_of(n as nat);
        assert forall|i: int| 0 <= i < decimal(n).len() - 1 implies !(#[trigger] decimal(n)[i] == 13
            && decimal(n)[i + 1] == 10) by {
            assert(is_digit(d[i]));
        }
        assert(is_digit(d[0]));
        assert(minus_one()[0] == 45);
    }
}

/// A well-formed frame that is written and read back is the same frame, and
/// reading takes exactly the bytes that writing gave, whatever follows them.
pub proof fn lemma_round_trip(frame: FrameView, rest: Seq<u8>)
    requires
        well_formed(frame),
    ensures
        decode(encode(frame) + rest) == Decoded::Done(frame, encode(frame).len() as int),
        encode(frame).len() > 0,
    decreases frame, 0nat,
{
    broadcast use vstd::utf8::encode_utf8_valid_utf8;
    broadcast use vstd::utf8::encode_utf8_decode_utf8;

    match frame {
        FrameView::Simple(text) => {
            lemma_line(43, encode_utf8(text), rest);
        },
        FrameView::Error(text) => {
            lemma_line(45, encode_utf8(text), rest);
        },
        FrameView::Integer(value) => {
            lemma_decimal_no_line_end(value as int);
            lemma_decimal_round_trip(value as int);
            lemma_line(58, decimal(value as int), rest);
        },
        FrameView::Bulk(data) => {
            let n = data.len() as int;
            let tail = data + crlf() + rest;
            lemma_decimal_no_line_end(n);
            lemma_decimal_round_trip(n);
            lemma_line(36, decimal(n), tail);
            let buf = encode(frame) + rest;
            assert(buf =~= line_of(36, decimal(n)) + tail);
            let next = 3 + decimal(n).len() as int;
            assert(buf.subrange(next, next + n) =~= data);
            assert(buf[next + n] == tail[n]);
            assert(buf[next + n + 1] == tail[n + 1]);
        },
        FrameView::Null => {
            assert(decimal(-1) =~= minus_one()) by {
                reveal_with_fuel(digits_of, 2);
            }
            assert(no_line_end(minus_one()));
            lemma_line(36, minus_one(), rest);
        },
        FrameView::Array(items) => {
            let n = items.len() as int;
            let tail = encode_all(items) + rest;
            lemma_decimal_no_line_end(n);
            lemma_decimal_round_trip(n);
            lemma_line(42, decimal(n), tail);
            let buf = encode(frame) + rest;
            assert(buf =~= line_of(42, decimal(n)) + tail);
            lemma_round_trip_all(items, rest);
            let next = 3 + decimal(n).len() as int;
            assert(decode(buf) == array_of(next, decode_all(tail, n as nat)));
        },
    }
}

/// A run of well-formed frames that is written and read back is the same run.
pub proof fn lemma_round_trip_all(items: Seq<FrameView>, rest: Seq<u8>)
    requires
        forall|i: int| 0 <= i < items.len() ==> well_formed(#[trigger] items[i]),
    ensures
        decode_all(encode_all(items) + rest, items.len()) == Decoded::Done(
            items,
            encode_all(items).len() as int,
        ),
    decreases items, 1nat,
{
    if items.len() == 0 {
        assert(items =~= Seq::<FrameView>::empty());
    } else {
        let first = items[0];
        let others = items.drop_first();
        let tail = encode_all(others) + rest;
        let buf = encode_all(items) + rest;
        assert(buf =~= encode(first) + tail);
        lemma_round_trip(first, tail);
        assert forall|i: int| 0 <= i < others.len() implies well_formed(#[trigger] others[i]) by {
            assert(others[i] == items[i + 1]);
        }
        lemma_round_trip_all(others, rest);
        let used = encode(first).len() as int;
        assert(buf.skip(used) =~= tail);
        assert(seq![first] + others =~= items);
        assert(decode_all(buf, items.len()) == after(
            seq![first],
            used,
            decode_all(tail, others.len()),
        ));
    }
}

} // verus!
