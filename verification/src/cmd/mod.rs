//! The commands of the server: reading one from a frame, and applying it to
//! the store.

pub mod get;
pub mod ping;
pub mod publish;
pub mod set;
pub mod subscribe;
pub mod unknown;

pub use get::Get;
pub use ping::Ping;
pub use publish::Publish;
pub use set::SetCmd;
pub use subscribe::{Subscribe, Unsubscribe};
pub use unknown::Unknown;

use crate::db::{State, StateView};
use crate::frame::{Frame, FrameView};
use crate::parse::{
    not_an_array, take_string, trailing_arguments, Parse, ParseError, ParseErrorView, Taken,
};
use crate::text::{lowercase, str_eq, to_lowercase};
use get::GetView;
use ping::PingView;
use publish::PublishView;
use set::SetView;
use subscribe::{texts, ChannelsView};
use unknown::{unknown_command, UnknownView};
use vstd::prelude::*;

verus! {

/// A command of the server.
#[derive(Debug)]
pub enum Command {
    Get(Get),
    Publish(Publish),
    SetCmd(SetCmd),
    Subscribe(Subscribe),
    Unsubscribe(Unsubscribe),
    Ping(Ping),
    Unknown(Unknown),
}

/// What a command is.
pub enum CommandView {
    Get(GetView),
    Publish(PublishView),
    SetCmd(SetView),
    Subscribe(ChannelsView),
    Unsubscribe(ChannelsView),
    Ping(PingView),
    Unknown(UnknownView),
}

impl View for Command {
    type V = CommandView;

    open spec fn view(&self) -> CommandView {
        match self {
            Command::Get(cmd) => CommandView::Get(cmd@),
            Command::Publish(cmd) => CommandView::Publish(cmd@),
            Command::SetCmd(cmd) => CommandView::SetCmd(cmd@),
            Command::Subscribe(cmd) => CommandView::Subscribe(cmd@),
            Command::Unsubscribe(cmd) => CommandView::Unsubscribe(cmd@),
            Command::Ping(cmd) => CommandView::Ping(cmd@),
            Command::Unknown(cmd) => CommandView::Unknown(cmd@),
        }
    }
}

/// What applying a command asks of the connection.
#[derive(Debug)]
pub enum Applied {
    /// Send `response`; wake the purge task if `notify` says so.
    Reply { response: Frame, notify: bool },
    /// Enter subscribe mode with these channels.
    Subscribe { channels: Vec<String> },
    /// The command cannot be applied here; `reason` says why.
    Refused { reason: String },
}

/// What an `Applied` is.
pub enum AppliedView {
    Reply { response: FrameView, notify: bool },
    Subscribe { channels: Seq<Seq<char>> },
    Refused { reason: Seq<char> },
}

impl View for Applied {
    type V = AppliedView;

    open spec fn view(&self) -> AppliedView {
        match self {
            Applied::Reply { response, notify } => AppliedView::Reply {
                response: response@,
                notify: *notify,
            },
            Applied::Subscribe { channels } => AppliedView::Subscribe { channels: texts(channels@) },
            Applied::Refused { reason } => AppliedView::Refused { reason: reason@ },
        }
    }
}

/// The reason given for an `UNSUBSCRIBE` outside subscribe mode.
pub open spec fn unsubscribe_out_of_context() -> Seq<char> {
    "`Unsubscribe` is unsupported in this context"@
}

/// What was taken, where nothing is left behind it; left-over items are an
/// error.
pub open spec fn finished<T>(taken: Taken<T>) -> Result<T, ParseErrorView> {
    match taken.result {
        Ok(value) => if taken.rest.len() == 0 {
            Ok(value)
        } else {
            Err(ParseErrorView::Other(trailing_arguments()))
        },
        Err(e) => Err(e),
    }
}

impl CommandView {
    /// The command that `name`, in lower case, and the arguments `args`
    /// give. A name that the server does not know gives `Unknown`, whatever
    /// the arguments.
    pub open spec fn named(name: Seq<char>, args: Seq<FrameView>) -> Result<
        CommandView,
        ParseErrorView,
    > {
        if name == "get"@ {
            match finished(GetView::parse(args)) {
                Ok(cmd) => Ok(CommandView::Get(cmd)),
                Err(e) => Err(e),
            }
        } else if name == "publish"@ {
            match finished(PublishView::parse(args)) {
                Ok(cmd) => Ok(CommandView::Publish(cmd)),
                Err(e) => Err(e),
            }
        } else if name == "set"@ {
            match finished(SetView::parse(args)) {
                Ok(cmd) => Ok(CommandView::SetCmd(cmd)),
                Err(e) => Err(e),
            }
        } else if name == "subscribe"@ {
            match finished(ChannelsView::parse_subscribe(args)) {
                Ok(cmd) => Ok(CommandView::Subscribe(cmd)),
                Err(e) => Err(e),
            }
        } else if name == "unsubscribe"@ {
            match finished(ChannelsView::parse_unsubscribe(args)) {
                Ok(cmd) => Ok(CommandView::Unsubscribe(cmd)),
                Err(e) => Err(e),
            }
        } else if name == "ping"@ {
            match finished(PingView::parse(args)) {
                Ok(cmd) => Ok(CommandView::Ping(cmd)),
                Err(e) => Err(e),
            }
        } else {
            Ok(CommandView::Unknown(UnknownView { command_name: name }))
        }
    }

    /// The command that `frame` gives: an array whose first item is the
    /// name of the command, in any case, and whose other items are its
    /// arguments.
    pub open spec fn of_frame(frame: FrameView) -> Result<CommandView, ParseErrorView> {
        match frame {
            FrameView::Array(items) => {
                let name = take_string(items);
                match name.result {
                    Ok(text) => Self::named(lowercase(text), name.rest),
                    Err(e) => Err(e),
                }
            },
            _ => Err(ParseErrorView::Other(not_an_array())),
        }
    }

    /// The name of the command. `PUBLISH` goes by `pub`.
    pub open spec fn name(self) -> Seq<char> {
        match self {
            CommandView::Get(_) => "get"@,
            CommandView::Publish(_) => "pub"@,
            CommandView::SetCmd(_) => "set"@,
            CommandView::Subscribe(_) => "subscribe"@,
            CommandView::Unsubscribe(_) => "unsubscribe"@,
            CommandView::Ping(_) => "ping"@,
            CommandView::Unknown(cmd) => cmd.command_name,
        }
    }

    /// Whether the command needs the present instant: only a `SET` of a
    /// value that expires does.
    pub open spec fn timed(self) -> bool {
        self matches CommandView::SetCmd(cmd) && cmd.expire is Some
    }

    /// Whether `db` can take the command at `now`. Only `SET` asks anything
    /// of it.
    pub open spec fn fits(self, db: StateView, now: u64) -> bool {
        self matches CommandView::SetCmd(cmd) ==> cmd.fits(db, now)
    }

    /// The store after the command is applied at `now`. Only `SET` changes
    /// what the store holds.
    pub open spec fn db_after(self, db: StateView, now: u64) -> StateView {
        match self {
            CommandView::SetCmd(cmd) => db.set(cmd.key, cmd.value, cmd.expire, now),
            _ => db,
        }
    }

    /// Whether `applied` is what applying the command to `db` at `now` asks
    /// of the connection. The answer to a `PUBLISH` is the number of
    /// receivers that the channel had, which the store does not model: it is
    /// an integer, and zero where the channel does not exist.
    pub open spec fn asks(self, db: StateView, now: u64, applied: AppliedView) -> bool {
        match self {
            CommandView::Get(cmd) => applied == (AppliedView::Reply {
                response: cmd.response(db),
                notify: false,
            }),
            CommandView::Publish(cmd) => applied matches AppliedView::Reply { response, notify }
                && !notify && response is Integer && (!db.channels.contains_key(cmd.channel)
                ==> response == FrameView::Integer(0)),
            CommandView::SetCmd(cmd) => applied == (AppliedView::Reply {
                response: FrameView::Simple("OK"@),
                notify: db.set_notifies(cmd.expire, now),
            }),
            CommandView::Subscribe(cmd) => applied == (AppliedView::Subscribe {
                channels: cmd.channels,
            }),
            CommandView::Unsubscribe(_) => applied == (AppliedView::Refused {
                reason: unsubscribe_out_of_context(),
            }),
            CommandView::Ping(cmd) => applied == (AppliedView::Reply {
                response: cmd.response(),
                notify: false,
            }),
            CommandView::Unknown(cmd) => applied == (AppliedView::Reply {
                response: unknown_command(cmd.command_name),
                notify: false,
            }),
        }
    }
}

/// Checks that the cursor is at its end, and gives `cmd` if it is.
fn finish<T>(parse: Parse, taken: Result<T, ParseError>) -> (r: Result<T, ParseError>)
    ensures
        match r {
            Ok(cmd) => taken == Ok::<T, ParseError>(cmd) && parse@.len() == 0,
            Err(e) => match taken {
                Ok(_) => parse@.len() > 0 && e@ == ParseErrorView::Other(trailing_arguments()),
                Err(first) => e == first,
            },
        },
{
    let mut parse = parse;
    match taken {
        Ok(cmd) => match parse.finish() {
            Ok(_) => Ok(cmd),
            Err(e) => Err(e),
        },
        Err(e) => Err(e),
    }
}

impl Command {
    /// Reads a command from `frame`.
    pub fn from_frame(frame: Frame) -> (r: Result<Command, ParseError>)
        ensures
            match r {
                Ok(cmd) => CommandView::of_frame(frame@) == Ok::<_, ParseErrorView>(cmd@),
                Err(e) => CommandView::of_frame(frame@) == Err::<CommandView, _>(e@),
            },
    {
        let mut parse = match Parse::new(frame) {
            Ok(parse) => parse,
            Err(e) => {
                return Err(e);
            },
        };
        let name = match parse.next_string() {
            Ok(name) => name,
            Err(e) => {
                return Err(e);
            },
        };
        Command::from_name(to_lowercase(name.as_str()), parse)
    }

    /// Reads the command named `name`, in lower case, from the arguments
    /// that `parse` holds.
    pub fn from_name(name: String, parse: Parse) -> (r: Result<Command, ParseError>)
        ensures
            match r {
                Ok(cmd) => CommandView::named(name@, parse@) == Ok::<_, ParseErrorView>(cmd@),
                Err(e) => CommandView::named(name@, parse@) == Err::<CommandView, _>(e@),
            },
    {
        let mut parse = parse;
        let key = name.as_str();
        if str_eq(key, "get") {
            let taken = Get::parse_frames(&mut parse);
            match finish(parse, taken) {
                Ok(cmd) => Ok(Command::Get(cmd)),
                Err(e) => Err(e),
            }
        } else if str_eq(key, "publish") {
            let taken = Publish::parse_frames(&mut parse);
            match finish(parse, taken) {
                Ok(cmd) => Ok(Command::Publish(cmd)),
                Err(e) => Err(e),
            }
        } else if str_eq(key, "set") {
            let taken = SetCmd::parse_frames(&mut parse);
            match finish(parse, taken) {
                Ok(cmd) => Ok(Command::SetCmd(cmd)),
                Err(e) => Err(e),
            }
        } else if str_eq(key, "subscribe") {
            let taken = Subscribe::parse_frames(&mut parse);
            match finish(parse, taken) {
                Ok(cmd) => Ok(Command::Subscribe(cmd)),
                Err(e) => Err(e),
            }
        } else if str_eq(key, "unsubscribe") {
            let taken = Unsubscribe::parse_frames(&mut parse);
            match finish(parse, taken) {
                Ok(cmd) => Ok(Command::Unsubscribe(cmd)),
                Err(e) => Err(e),
            }
        } else if str_eq(key, "ping") {
            let taken = Ping::parse_frames(&mut parse);
            match finish(parse, taken) {
                Ok(cmd) => Ok(Command::Ping(cmd)),
                Err(e) => Err(e),
            }
        } else {
            Ok(Command::Unknown(Unknown::new(name)))
        }
    }

    /// The name of the command. `PUBLISH` goes by `pub`.
    pub fn get_name(&self) -> (name: &str)
        ensures
            name@ == self@.name(),
    {
        match self {
            Command::Get(_) => "get",
            Command::Publish(_) => "pub",
            Command::SetCmd(_) => "set",
            Command::Subscribe(_) => "subscribe",
            Command::Unsubscribe(_) => "unsubscribe",
            Command::Ping(_) => "ping",
            Command::Unknown(cmd) => cmd.get_name(),
        }
    }

    /// Whether the command needs the present instant.
    pub fn timed(&self) -> (timed: bool)
        ensures
            timed == self@.timed(),
    {
        match self {
            Command::SetCmd(cmd) => cmd.expire().is_some(),
            _ => false,
        }
    }

    /// Whether `db` can take the command at `now`.
    pub fn fits(&self, db: &State, now: u64) -> (fits: bool)
        ensures
            fits == self@.fits(db@, now),
    {
        match self {
            Command::SetCmd(cmd) => cmd.fits(db, now),
            _ => true,
        }
    }

    /// Applies the command to `db` at the instant `now`, and says what the
    /// connection has to do.
    pub fn apply(self, db: &mut State, now: u64) -> (applied: Applied)
        requires
            old(db)@.wf(),
            self@.fits(old(db)@, now),
        ensures
            final(db)@ == self@.db_after(old(db)@, now),
            final(db)@.wf(),
            self@.asks(old(db)@, now, applied@),
    {
        match self {
            Command::Get(cmd) => Applied::Reply { response: cmd.apply(db), notify: false },
            Command::Publish(cmd) => Applied::Reply { response: cmd.apply(db), notify: false },
            Command::SetCmd(cmd) => {
                let (response, notify) = cmd.apply(db, now);
                Applied::Reply { response, notify }
            },
            Command::Subscribe(cmd) => Applied::Subscribe { channels: cmd.into_channels() },
            Command::Unsubscribe(_) => Applied::Refused {
                reason: "`Unsubscribe` is unsupported in this context".to_owned(),
            },
            Command::Ping(cmd) => Applied::Reply { response: cmd.apply(), notify: false },
            Command::Unknown(cmd) => Applied::Reply { response: cmd.apply(), notify: false },
        }
    }

    /// Applies the command if `db` can take it at `now`; otherwise gives the
    /// command back and leaves `db` as it is.
    pub fn try_apply(self, db: &mut State, now: u64) -> (r: Result<Applied, Command>)
        requires
            old(db)@.wf(),
        ensures
            final(db)@.wf(),
            match r {
                Ok(applied) => self@.fits(old(db)@, now) && final(db)@ == self@.db_after(
                    old(db)@,
                    now,
                ) && self@.asks(old(db)@, now, applied@),
                Err(cmd) => !self@.fits(old(db)@, now) && cmd == self && final(db)@ == old(db)@,
            },
    {
        if self.fits(db, now) {
            Ok(self.apply(db, now))
        } else {
            Err(self)
        }
    }
}

} // verus!
