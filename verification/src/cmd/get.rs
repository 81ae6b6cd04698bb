//! `GET key`: read the value of a key.

use crate::db::{State, StateView};
use crate::frame::{Frame, FrameView};
use crate::parse::{take_string, Parse, ParseError, ParseErrorView, Taken};
use vstd::prelude::*;

verus! {

/// The command `GET`.
#[derive(Debug)]
pub struct Get {
    key: String,
}

/// What a `Get` is: the key to read.
pub struct GetView {
    pub key: Seq<char>,
}

impl View for Get {
    type V = GetView;

    closed spec fn view(&self) -> GetView {
        GetView { key: self.key@ }
    }
}

impl GetView {
    /// The command that the arguments `args` give: one text, the key.
    pub open spec fn parse(args: Seq<FrameView>) -> Taken<GetView> {
        let key = take_string(args);
        Taken {
            result: match key.result {
                Ok(key) => Ok(GetView { key }),
                Err(e) => Err(e),
            },
            rest: key.rest,
        }
    }

    /// The answer: the value as a blob, or null where the key has none.
    pub open spec fn response(self, db: StateView) -> FrameView {
        match db.get(self.key) {
            Some(data) => FrameView::Bulk(data),
            None => FrameView::Null,
        }
    }
}

impl Get {
    /// A `GET` of `key`.
    pub fn new(key: String) -> (cmd: Get)
        ensures
            cmd@ == (GetView { key: key@ }),
    {
        Get { key }
    }

    /// The key to read.
    pub fn key(&self) -> (key: &str)
        ensures
            key@ == self@.key,
    {
        self.key.as_str()
    }

    /// Reads the command from the arguments that follow its name.
    pub fn parse_frames(parse: &mut Parse) -> (r: Result<Get, ParseError>)
        ensures
            final(parse)@ == GetView::parse(old(parse)@).rest,
            match r {
                Ok(cmd) => GetView::parse(old(parse)@).result == Ok::<_, ParseErrorView>(cmd@),
                Err(e) => GetView::parse(old(parse)@).result == Err::<GetView, _>(e@),
            },
    {
        match parse.next_string() {
            Ok(key) => Ok(Get { key }),
            Err(e) => Err(e),
        }
    }

    /// Reads the key in `db` and gives the answer for the client.
    pub fn apply(self, db: &State) -> (response: Frame)
        ensures
            response@ == self@.response(db@),
    {
        match db.get(self.key.as_str()) {
            Some(value) => Frame::Bulk(value),
            None => Frame::Null,
        }
    }
}

} // verus!
