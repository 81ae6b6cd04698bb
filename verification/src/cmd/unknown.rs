//! A command that the server does not know.

use crate::frame::{Frame, FrameView};
use vstd::prelude::*;
use vstd::string::StringExecFns;

verus! {

/// A command with a name that the server does not know.
#[derive(Debug)]
pub struct Unknown {
    command_name: String,
}

/// What an `Unknown` is: the name that was sent, in lower case.
pub struct UnknownView {
    pub command_name: Seq<char>,
}

impl View for Unknown {
    type V = UnknownView;

    closed spec fn view(&self) -> UnknownView {
        UnknownView { command_name: self.command_name@ }
    }
}

/// The error that answers a command named `name`.
pub open spec fn unknown_command(name: Seq<char>) -> FrameView {
    FrameView::Error("ERR unknown command '"@ + name + "'"@)
}

/// The error frame that answers a command named `name`.
pub fn unknown_command_frame(name: &str) -> (response: Frame)
    ensures
        response@ == unknown_command(name@),
{
    let mut text = "ERR unknown command '".to_owned();
    text.append(name);
    text.append("'");
    Frame::Error(text)
}

impl Unknown {
    /// The unknown command named `key`.
    pub fn new(key: String) -> (cmd: Unknown)
        ensures
            cmd@ == (UnknownView { command_name: key@ }),
    {
        Unknown { command_name: key }
    }

    /// The name that was sent.
    pub fn get_name(&self) -> (name: &str)
        ensures
            name@ == self@.command_name,
    {
        self.command_name.as_str()
    }

    /// The answer for the client: an error that names the command.
    pub fn apply(self) -> (response: Frame)
        ensures
            response@ == unknown_command(self@.command_name),
    {
        unknown_command_frame(self.command_name.as_str())
    }
}

} // verus!
