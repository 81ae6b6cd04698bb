//! `PUBLISH channel message`: send a message to the subscribers of a channel.

use crate::blob::blob_bytes;
use crate::db::State;
use crate::frame::{Frame, FrameView};
use crate::parse::{take_bytes, take_string, Parse, ParseError, ParseErrorView, Taken};
use bytes::Bytes;
use vstd::prelude::*;

verus! {

/// The command `PUBLISH`.
#[derive(Debug)]
pub struct Publish {
    channel: String,
    message: Bytes,
}

/// What a `Publish` is: the channel, and the bytes of the message.
pub struct PublishView {
    pub channel: Seq<char>,
    pub message: Seq<u8>,
}

impl View for Publish {
    type V = PublishView;

    closed spec fn view(&self) -> PublishView {
        PublishView { channel: self.channel@, message: blob_bytes(self.message) }
    }
}

impl PublishView {
    /// The command that the arguments `args` give: a text, the channel, then
    /// a blob, the message.
    pub open spec fn parse(args: Seq<FrameView>) -> Taken<PublishView> {
        let channel = take_string(args);
        match channel.result {
            Err(e) => Taken { result: Err(e), rest: channel.rest },
            Ok(channel_name) => {
                let message = take_bytes(channel.rest);
                Taken {
                    result: match message.result {
                        Ok(message) => Ok(PublishView { channel: channel_name, message }),
                        Err(e) => Err(e),
                    },
                    rest: message.rest,
                }
            },
        }
    }
}

impl Publish {
    /// A `PUBLISH` of `message` on `channel`.
    pub fn new(channel: String, message: Bytes) -> (cmd: Publish)
        ensures
            cmd@ == (PublishView { channel: channel@, message: blob_bytes(message) }),
    {
        Publish { channel, message }
    }

    /// The channel to publish on.
    pub fn channel(&self) -> (channel: &str)
        ensures
            channel@ == self@.channel,
    {
        self.channel.as_str()
    }

    /// The message to publish.
    pub fn message(&self) -> (message: &Bytes)
        ensures
            blob_bytes(*message) == self@.message,
    {
        &self.message
    }

    /// Reads the command from the arguments that follow its name.
    pub fn parse_frames(parse: &mut Parse) -> (r: Result<Publish, ParseError>)
        ensures
            final(parse)@ == PublishView::parse(old(parse)@).rest,
            match r {
                Ok(cmd) => PublishView::parse(old(parse)@).result == Ok::<_, ParseErrorView>(cmd@),
                Err(e) => PublishView::parse(old(parse)@).result == Err::<PublishView, _>(e@),
            },
    {
        let channel = match parse.next_string() {
            Ok(channel) => channel,
            Err(e) => {
                return Err(e);
            },
        };
        match parse.next_bytes() {
            Ok(message) => Ok(Publish { channel, message }),
            Err(e) => Err(e),
        }
    }

    /// Publishes the message in `db` and gives the answer for the client: the
    /// number of receivers that the channel had, which is none where nobody
    /// ever subscribed to it.
    pub fn apply(self, db: &State) -> (response: Frame)
        ensures
            response@ is Integer,
            !db@.channels.contains_key(self@.channel) ==> response@ == FrameView::Integer(0),
    {
        let receivers = db.publish(self.channel.as_str(), self.message);
        Frame::count(receivers)
    }
}

} // verus!
