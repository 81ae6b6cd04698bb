//! A cursor over the items of an array frame. A command is an array; its
//! parser takes the items one by one as texts, blobs and numbers.

use crate::blob::blob_bytes;
use crate::decimal::{parse_i64, spec_parse_i64};
use crate::frame::{lemma_array_view, Frame, FrameView};
use crate::text::string_from_utf8;
use bytes::Bytes;
use vstd::prelude::*;
use vstd::slice::slice_to_vec;
use vstd::utf8::{decode_utf8, encode_utf8, valid_utf8};

verus! {

/// Why an item could not be taken.
#[derive(Debug, PartialEq, Eq)]
pub enum ParseError {
    /// The array has no item left.
    EndOfStream,
    /// The item, or the frame itself, is not what was asked for.
    Other(String),
}

/// What a `ParseError` is.
pub enum ParseErrorView {
    EndOfStream,
    Other(Seq<char>),
}

impl View for ParseError {
    type V = ParseErrorView;

    open spec fn view(&self) -> ParseErrorView {
        match self {
            ParseError::EndOfStream => ParseErrorView::EndOfStream,
            ParseError::Other(reason) => ParseErrorView::Other(reason@),
        }
    }
}

/// What taking something from the front of `args` gives: the value or the
/// error, and the items that are left.
pub struct Taken<T> {
    pub result: Result<T, ParseErrorView>,
    pub rest: Seq<FrameView>,
}

/// The reason given for a frame that is not an array.
pub open spec fn not_an_array() -> Seq<char> {
    "protocol error; expected array"@
}

/// The reason given for an item that is not a text.
pub open spec fn not_a_string() -> Seq<char> {
    "protocol error; invalid string"@
}

/// The reason given for an item that is not a blob.
pub open spec fn not_bytes() -> Seq<char> {
    "protocol error; expected simple frame or bulk frame"@
}

/// The reason given for an item that is not a number.
pub open spec fn not_a_number() -> Seq<char> {
    "protocol error; invalid number"@
}

/// The reason given for items that are left over.
pub open spec fn trailing_arguments() -> Seq<char> {
    "protocol error; expected end of frame, but there was more"@
}

/// The text that an item stands for: a simple frame is its text, a blob is
/// the text that its bytes encode.
pub open spec fn text_of(item: FrameView) -> Option<Seq<char>> {
    match item {
        FrameView::Simple(text) => Some(text),
        FrameView::Bulk(data) => if valid_utf8(data) {
            Some(decode_utf8(data))
        } else {
            None
        },
        _ => None,
    }
}

/// The bytes that an item stands for: a blob is its bytes, a simple frame is
/// the bytes of its text.
pub open spec fn bytes_of(item: FrameView) -> Option<Seq<u8>> {
    match item {
        FrameView::Simple(text) => Some(encode_utf8(text)),
        FrameView::Bulk(data) => Some(data),
        _ => None,
    }
}

/// The number that an item stands for: an integer frame is its number, a
/// simple frame or a blob is the number that it writes in decimal.
pub open spec fn int_of(item: FrameView) -> Option<i64> {
    match item {
        FrameView::Integer(value) => Some(value),
        FrameView::Simple(text) => spec_parse_i64(encode_utf8(text)),
        FrameView::Bulk(data) => spec_parse_i64(data),
        _ => None,
    }
}

/// Taking an item as `read` reads it: the end of the stream where none is
/// left; otherwise the item leaves, and gives its value or `reason`.
pub open spec fn take<T>(
    args: Seq<FrameView>,
    read: spec_fn(FrameView) -> Option<T>,
    reason: Seq<char>,
) -> Taken<T> {
    if args.len() == 0 {
        Taken { result: Err(ParseErrorView::EndOfStream), rest: args }
    } else {
        Taken {
            result: match read(args[0]) {
                Some(value) => Ok(value),
                None => Err(ParseErrorView::Other(reason)),
            },
            rest: args.drop_first(),
        }
    }
}

/// Taking the next item as a text.
pub open spec fn take_string(args: Seq<FrameView>) -> Taken<Seq<char>> {
    take(args, |item: FrameView| text_of(item), not_a_string())
}

/// Taking the next item as a blob.
pub open spec fn take_bytes(args: Seq<FrameView>) -> Taken<Seq<u8>> {
    take(args, |item: FrameView| bytes_of(item), not_bytes())
}

/// Taking the next item as a number.
pub open spec fn take_int(args: Seq<FrameView>) -> Taken<i64> {
    take(args, |item: FrameView| int_of(item), not_a_number())
}

/// The cursor. It holds the items that are left, the next one last.
pub struct Parse {
    parts: Vec<Frame>,
}

impl View for Parse {
    type V = Seq<FrameView>;

    /// The items that are left, in the order in which they are taken.
    closed spec fn view(&self) -> Seq<FrameView> {
        Seq::new(self.parts@.len(), |i: int| self.parts@[self.parts@.len() - 1 - i]@)
    }
}

fn other<T>(reason: &str) -> (r: Result<T, ParseError>)
    ensures
        r matches Err(e) && e@ == ParseErrorView::Other(reason@),
{
    Err(ParseError::Other(reason.to_owned()))
}

impl Parse {
    /// A cursor over the items of `frame`, which has to be an array.
    pub fn new(frame: Frame) -> (r: Result<Parse, ParseError>)
        ensures
            match r {
                Ok(parse) => frame@ == FrameView::Array(parse@),
                Err(e) => !(frame@ is Array) && e@ == ParseErrorView::Other(not_an_array()),
            },
    {
        match frame {
            Frame::Array(items) => {
                proof {
                    lemma_array_view(items);
                }
                let ghost views = frame@->Array_0;
                let mut items = items;
                let mut parts: Vec<Frame> = Vec::new();
                while items.len() > 0
                    invariant
                        items@.len() + parts@.len() == views.len(),
                        forall|i: int| 0 <= i < items@.len() ==> views[i] == (#[trigger] items@[i])@,
                        forall|i: int|
                            0 <= i < parts@.len() ==> views[views.len() - 1 - i] == (
                            #[trigger] parts@[i])@,
                    decreases items@.len(),
                {
                    match items.pop() {
                        Some(item) => parts.push(item),
                        None => {},
                    }
                }
                let parse = Parse { parts };
                assert(parse@ =~= views);
                Ok(parse)
            },
            _ => other("protocol error; expected array"),
        }
    }

    /// Takes the next item.
    pub fn next(&mut self) -> (r: Result<Frame, ParseError>)
        ensures
            match r {
                Ok(item) => old(self)@.len() > 0 && item@ == old(self)@[0] && final(self)@ == old(
                    self,
                )@.drop_first(),
                Err(e) => old(self)@.len() == 0 && e@ == ParseErrorView::EndOfStream && final(self)@
                    == old(self)@,
            },
    {
        match self.parts.pop() {
            Some(item) => {
                assert(self@ =~= old(self)@.drop_first());
                Ok(item)
            },
            None => Err(ParseError::EndOfStream),
        }
    }

    /// Takes the next item as a text.
    pub fn next_string(&mut self) -> (r: Result<String, ParseError>)
        ensures
            final(self)@ == take_string(old(self)@).rest,
            match r {
                Ok(text) => take_string(old(self)@).result == Ok::<_, ParseErrorView>(text@),
                Err(e) => take_string(old(self)@).result == Err::<Seq<char>, _>(e@),
            },
    {
        match self.next() {
            Ok(Frame::Simple(text)) => Ok(text),
            Ok(Frame::Bulk(data)) => {
                let bytes: &[u8] = &*data;
                match string_from_utf8(slice_to_vec(bytes)) {
                    Some(text) => Ok(text),
                    None => other("protocol error; invalid string"),
                }
            },
            Ok(_) => other("protocol error; invalid string"),
            Err(e) => Err(e),
        }
    }

    /// Takes the next item as a blob.
    pub fn next_bytes(&mut self) -> (r: Result<Bytes, ParseError>)
        ensures
            final(self)@ == take_bytes(old(self)@).rest,
            match r {
                Ok(data) => take_bytes(old(self)@).result == Ok::<_, ParseErrorView>(
                    blob_bytes(data),
                ),
                Err(e) => take_bytes(old(self)@).result == Err::<Seq<u8>, _>(e@),
            },
    {
        match self.next() {
            Ok(Frame::Simple(text)) => Ok(Bytes::copy_from_slice(text.as_str().as_bytes())),
            Ok(Frame::Bulk(data)) => Ok(data),
            Ok(_) => other("protocol error; expected simple frame or bulk frame"),
            Err(e) => Err(e),
        }
    }

    /// Takes the next item as a number.
    pub fn next_int(&mut self) -> (r: Result<i64, ParseError>)
        ensures
            final(self)@ == take_int(old(self)@).rest,
            match r {
                Ok(value) => take_int(old(self)@).result == Ok::<_, ParseErrorView>(value),
                Err(e) => take_int(old(self)@).result == Err::<i64, _>(e@),
            },
    {
        match self.next() {
            Ok(Frame::Integer(value)) => Ok(value),
            Ok(Frame::Simple(text)) => match parse_i64(text.as_str().as_bytes()) {
                Some(value) => Ok(value),
                None => other("protocol error; invalid number"),
            },
            Ok(Frame::Bulk(data)) => {
                let bytes: &[u8] = &*data;
                match parse_i64(bytes) {
                    Some(value) => Ok(value),
                    None => other("protocol error; invalid number"),
                }
            },
            Ok(_) => other("protocol error; invalid number"),
            Err(e) => Err(e),
        }
    }

    /// Checks that no item is left.
    pub fn finish(&mut self) -> (r: Result<(), ParseError>)
        ensures
            final(self)@ == old(self)@,
            match r {
                Ok(_) => old(self)@.len() == 0,
                Err(e) => old(self)@.len() > 0 && e@ == ParseErrorView::Other(trailing_arguments()),
            },
    {
        if self.parts.len() == 0 {
            Ok(())
        } else {
            other("protocol error; expected end of frame, but there was more")
        }
    }
}

} // verus!
