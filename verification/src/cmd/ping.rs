//! `PING [message]`: answer `PONG`, or the message that was sent.

use crate::blob::blob_bytes;
use crate::frame::{Frame, FrameView};
use crate::parse::{take_bytes, Parse, ParseError, ParseErrorView, Taken};
use bytes::Bytes;
use vstd::prelude::*;

verus! {

/// The command `PING`.
#[derive(Debug)]
pub struct Ping {
    msg: Option<Bytes>,
}

/// What a `Ping` is: the message to echo, if one was sent.
pub struct PingView {
    pub msg: Option<Seq<u8>>,
}

impl View for Ping {
    type V = PingView;

    closed spec fn view(&self) -> PingView {
        PingView {
            msg: match self.msg {
                Some(msg) => Some(blob_bytes(msg)),
                None => None,
            },
        }
    }
}

impl PingView {
    /// The command that the arguments `args` give: a message, or nothing.
    pub open spec fn parse(args: Seq<FrameView>) -> Taken<PingView> {
        let msg = take_bytes(args);
        Taken {
            result: match msg.result {
                Ok(msg) => Ok(PingView { msg: Some(msg) }),
                Err(ParseErrorView::EndOfStream) => Ok(PingView { msg: None }),
                Err(e) => Err(e),
            },
            rest: msg.rest,
        }
    }

    /// The answer: `PONG`, or the message as a blob.
    pub open spec fn response(self) -> FrameView {
        match self.msg {
            Some(msg) => FrameView::Bulk(msg),
            None => FrameView::Simple("PONG"@),
        }
    }
}

impl Ping {
    /// A `PING` with the message `msg`, if any.
    pub fn new(msg: Option<Bytes>) -> (cmd: Ping)
        ensures
            cmd@.msg == match msg {
                Some(msg) => Some(blob_bytes(msg)),
                None => None,
            },
    {
        Ping { msg }
    }

    /// The message to echo, if one was sent.
    pub fn msg(&self) -> (msg: Option<&Bytes>)
        ensures
            match msg {
                Some(msg) => self@.msg == Some(blob_bytes(*msg)),
                None => self@.msg is None,
            },
    {
        match &self.msg {
            Some(msg) => Some(msg),
            None => None,
        }
    }

    /// Reads the command from the arguments that follow its name.
    pub fn parse_frames(parse: &mut Parse) -> (r: Result<Ping, ParseError>)
        ensures
            final(parse)@ == PingView::parse(old(parse)@).rest,
            match r {
                Ok(cmd) => PingView::parse(old(parse)@).result == Ok::<_, ParseErrorView>(cmd@),
                Err(e) => PingView::parse(old(parse)@).result == Err::<PingView, _>(e@),
            },
    {
        match parse.next_bytes() {
            Ok(msg) => Ok(Ping { msg: Some(msg) }),
            Err(ParseError::EndOfStream) => Ok(Ping { msg: None }),
            Err(e) => Err(e),
        }
    }

    /// The answer for the client.
    pub fn apply(self) -> (response: Frame)
        ensures
            response@ == self@.response(),
    {
        match self.msg {
            Some(msg) => Frame::Bulk(msg),
            None => Frame::Simple("PONG".to_owned()),
        }
    }
}

} // verus!
