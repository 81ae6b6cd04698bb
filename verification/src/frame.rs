//! Frames: the units of the wire protocol, how they are written as bytes and
//! how bytes are read back as frames.

use crate::blob::blob_bytes;
use crate::decimal::{decimal, push_i64, push_u64};
use bytes::Bytes;
use vstd::prelude::*;
use vstd::utf8::encode_utf8;

verus! {

/// A frame of the protocol.
#[derive(Debug, PartialEq, Eq)]
pub enum Frame {
    Simple(String),
    Error(String),
    Integer(i64),
    Bulk(Bytes),
    Null,
    Array(Vec<Frame>),
}

/// What a frame is: texts as characters, blobs as bytes, arrays as sequences.
pub enum FrameView {
    Simple(Seq<char>),
    Error(Seq<char>),
    Integer(i64),
    Bulk(Seq<u8>),
    Null,
    Array(Seq<FrameView>),
}

impl View for Frame {
    type V = FrameView;

    open spec fn view(&self) -> FrameView
        decreases self,
    {
        match self {
            Frame::Simple(text) => FrameView::Simple(text@),
            Frame::Error(text) => FrameView::Error(text@),
            Frame::Integer(value) => FrameView::Integer(*value),
            Frame::Bulk(blob) => FrameView::Bulk(blob_bytes(*blob)),
            Frame::Null => FrameView::Null,
            Frame::Array(items) => FrameView::Array(
                Seq::new(
                    items@.len(),
                    |i: int|
                        if 0 <= i < items@.len() {
                            items@[i]@
                        } else {
                            FrameView::Null
                        },
                ),
            ),
        }
    }
}

/// A count as an integer frame: such a frame holds no more than `i64::MAX`.
pub open spec fn count_of(count: usize) -> FrameView {
    FrameView::Integer(
        if count <= i64::MAX {
            count as i64
        } else {
            i64::MAX
        },
    )
}

/// A text as a blob frame: the blob holds the bytes of the text.
pub open spec fn bulk_of(text: Seq<char>) -> FrameView {
    FrameView::Bulk(encode_utf8(text))
}

/// The two bytes that end a line.
pub open spec fn crlf() -> Seq<u8> {
    seq![13u8, 10u8]
}

/// The bytes of a line that holds `payload` after the tag.
pub open spec fn line_of(tag: u8, payload: Seq<u8>) -> Seq<u8> {
    seq![tag] + payload + crlf()
}

/// The bytes that a frame is written as.
pub open spec fn encode(frame: FrameView) -> Seq<u8>
    decreases frame, 0nat,
{
    match frame {
        FrameView::Simple(text) => line_of(43, encode_utf8(text)),
        FrameView::Error(text) => line_of(45, encode_utf8(text)),
        FrameView::Integer(value) => line_of(58, decimal(value as int)),
        FrameView::Bulk(data) => line_of(36, decimal(data.len() as int)) + data + crlf(),
        FrameView::Null => line_of(36, decimal(-1)),
        FrameView::Array(items) => line_of(42, decimal(items.len() as int)) + encode_all(items),
    }
}

/// The bytes of the frames `items`, one after the other.
pub open spec fn encode_all(items: Seq<FrameView>) -> Seq<u8>
    decreases items, 1nat,
{
    if items.len() == 0 {
        Seq::empty()
    } else {
        encode(items[0]) + encode_all(items.drop_first())
    }
}

/// The bytes of a run of frames that grows by one are those of the run, then
/// those of the new frame.
pub proof fn lemma_encode_all_push(items: Seq<FrameView>, last: FrameView)
    ensures
        encode_all(items.push(last)) == encode_all(items) + encode(last),
    decreases items.len(),
{
    if items.len() == 0 {
        assert(items.push(last).drop_first() =~= Seq::<FrameView>::empty());
        assert(encode_all(items.push(last)) =~= encode(last) + encode_all(Seq::empty()));
        assert(encode_all(items.push(last)) =~= encode_all(items) + encode(last));
    } else {
        lemma_encode_all_push(items.drop_first(), last);
        assert(items.push(last).drop_first() =~= items.drop_first().push(last));
        assert(encode_all(items.push(last)) =~= encode_all(items) + encode(last));
    }
}

/// What an array of frames is: the sequence of what its items are.
pub proof fn lemma_array_view(items: Vec<Frame>)
    ensures
        Frame::Array(items)@ is Array,
        Frame::Array(items)@->Array_0.len() == items@.len(),
        forall|i: int| 0 <= i < items@.len() ==> Frame::Array(items)@->Array_0[i] == (#[trigger] items@[i])@,
{
    reveal_with_fuel(<Frame as View>::view, 3);
}

fn push_line_end(buf: &mut Vec<u8>)
    ensures
        final(buf)@ == old(buf)@ + crlf(),
{
    buf.push(13);
    buf.push(10);
    assert(buf@ =~= old(buf)@ + crlf());
}

fn push_bytes(buf: &mut Vec<u8>, data: &[u8])
    ensures
        final(buf)@ == old(buf)@ + data@,
{
    let mut i: usize = 0;
    while i < data.len()
        invariant
            i <= data.len(),
            buf@ == old(buf)@ + data@.take(i as int),
        decreases data.len() - i,
    {
        buf.push(data[i]);
        i = i + 1;
        assert(buf@ =~= old(buf)@ + data@.take(i as int));
    }
    assert(data@.take(i as int) =~= data@);
}

impl Frame {
    /// The integer frame that holds `count`.
    pub fn count(count: usize) -> (frame: Frame)
        ensures
            frame@ == count_of(count),
    {
        let count = count as u64;
        if count <= 0x7fff_ffff_ffff_ffff {
            Frame::Integer(count as i64)
        } else {
            Frame::Integer(i64::MAX)
        }
    }

    /// The blob frame that holds `text`.
    pub fn bulk(text: &str) -> (frame: Frame)
        ensures
            frame@ == bulk_of(text@),
    {
        Frame::Bulk(Bytes::copy_from_slice(text.as_bytes()))
    }

    /// The array frame of three items.
    pub fn triple(first: Frame, second: Frame, third: Frame) -> (frame: Frame)
        ensures
            frame@ == FrameView::Array(seq![first@, second@, third@]),
    {
        let mut items: Vec<Frame> = Vec::new();
        items.push(first);
        items.push(second);
        items.push(third);
        proof {
            lemma_array_view(items);
            assert(Frame::Array(items)@->Array_0 =~= seq![first@, second@, third@]);
        }
        Frame::Array(items)
    }

    /// Appends the bytes of the frame to `buf`.
    pub fn write_to(&self, buf: &mut Vec<u8>)
        ensures
            final(buf)@ == old(buf)@ + encode(self@),
        decreases self,
    {
        match self {
            Frame::Simple(text) => {
                buf.push(43);
                push_bytes(buf, text.as_str().as_bytes());
                push_line_end(buf);
                assert(buf@ =~= old(buf)@ + encode(self@));
            },
            Frame::Error(text) => {
                buf.push(45);
                push_bytes(buf, text.as_str().as_bytes());
                push_line_end(buf);
                assert(buf@ =~= old(buf)@ + encode(self@));
            },
            Frame::Integer(value) => {
                buf.push(58);
                push_i64(buf, *value);
                push_line_end(buf);
                assert(buf@ =~= old(buf)@ + encode(self@));
            },
            Frame::Bulk(blob) => {
                let data: &[u8] = &*blob;
                buf.push(36);
                push_u64(buf, data.len() as u64);
                push_line_end(buf);
                push_bytes(buf, data);
                push_line_end(buf);
                assert(buf@ =~= old(buf)@ + encode(self@));
            },
            Frame::Null => {
                buf.push(36);
                buf.push(45);
                buf.push(49);
                push_line_end(buf);
                assert(decimal(-1) =~= seq![45u8, 49u8]) by {
                    reveal_with_fuel(crate::decimal::digits_of, 2);
                }
                assert(buf@ =~= old(buf)@ + encode(self@));
            },
            Frame::Array(items) => {
                buf.push(42);
                push_u64(buf, items.len() as u64);
                push_line_end(buf);
                let ghost head = buf@;
                let ghost views = self@->Array_0;
                proof {
                    lemma_array_view(*items);
                }
                let mut i: usize = 0;
                while i < items.len()
                    invariant
                        i <= items.len(),
                        *self == Frame::Array(*items),
                        views.len() == items.len(),
                        forall|j: int| 0 <= j < items.len() ==> views[j] == (#[trigger] items@[j])@,
                        buf@ == head + encode_all(views.take(i as int)),
                    decreases items.len() - i,
                {
                    assert(decreases_to!(self => self->Array_0));
                    assert(decreases_to!(self->Array_0 => items@));
                    assert(decreases_to!(items@ => items@[i as int]));
                    items[i].write_to(buf);
                    proof {
                        lemma_encode_all_push(views.take(i as int), views[i as int]);
                        assert(views.take(i as int).push(views[i as int]) =~= views.take(i + 1));
                    }
                    i = i + 1;
                }
                assert(views.take(i as int) =~= views);
                assert(buf@ =~= old(buf)@ + encode(self@));
            },
        }
    }

    /// The bytes of the frame.
    pub fn encode(&self) -> (bytes: Vec<u8>)
        ensures
            bytes@ == encode(self@),
    {
        let mut buf: Vec<u8> = Vec::new();
        self.write_to(&mut buf);
        assert(buf@ =~= encode(self@));
        buf
    }
}

} // verus!
