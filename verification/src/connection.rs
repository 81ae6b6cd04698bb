//! The two ends of a connection's codec that need no socket: the buffer that
//! bytes from the peer are gathered in until they make a frame, and what a
//! command that was read gets for an answer.

use crate::clock::Clock;
use crate::cmd::subscribe::{
    attached, effects_view, lemma_nothing_attached, lemma_unsubscribe_attaches_nothing,
    subscribe_all, texts,
    unsubscribe_all, Effect, EffectView, Subscriptions, Turn,
};
use crate::cmd::unknown::{unknown_command, unknown_command_frame};
use crate::cmd::{Applied, AppliedView, Command, CommandView};
use crate::db::{Db, State, StateView};
use crate::decode::{decode, invalid_frame_message, Decoded, FrameError};
use crate::frame::{Frame, FrameView};
use crate::parse::{ParseError, ParseErrorView};
use vstd::prelude::*;

verus! {

/// The reason given when the peer closes the connection inside a frame.
pub open spec fn reset_by_peer() -> Seq<char> {
    "connection reset by peer"@
}

/// The reason given for a command that ends before its arguments do.
pub open spec fn end_of_stream() -> Seq<char> {
    "protocol error; unexpected end of stream"@
}

/// The bytes that were read from the peer and not yet taken as frames.
pub struct ReadBuffer {
    bytes: Vec<u8>,
}

impl View for ReadBuffer {
    type V = Seq<u8>;

    closed spec fn view(&self) -> Seq<u8> {
        self.bytes@
    }
}

impl ReadBuffer {
    /// An empty buffer.
    pub fn new() -> (buffer: ReadBuffer)
        ensures
            buffer@ == Seq::<u8>::empty(),
    {
        ReadBuffer { bytes: Vec::new() }
    }

    /// Appends the bytes `data`, which were read from the peer.
    pub fn fill(&mut self, data: &[u8])
        ensures
            final(self)@ == old(self)@ + data@,
    {
        let mut i: usize = 0;
        while i < data.len()
            invariant
                i <= data.len(),
                self@ == old(self)@ + data@.take(i as int),
            decreases data.len() - i,
        {
            self.bytes.push(data[i]);
            i = i + 1;
            assert(self@ =~= old(self)@ + data@.take(i as int));
        }
        assert(data@.take(i as int) =~= data@);
    }

    /// Takes the frame at the front of the buffer, if a whole one is there.
    /// While the frame is incomplete the buffer is left as it is, for more
    /// bytes to be appended; bytes that no frame starts with are an error.
    pub fn parse_frame(&mut self) -> (r: Result<Option<Frame>, FrameError>)
        ensures
            match r {
                Ok(Some(frame)) => exists|used: int|
                    0 < used <= old(self)@.len() && decode(old(self)@) == Decoded::Done(
                        frame@,
                        used,
                    ) && final(self)@ == old(self)@.skip(used),
                Ok(None) => decode(old(self)@) is Incomplete && final(self)@ == old(self)@,
                Err(e) => decode(old(self)@) is Invalid && final(self)@ == old(self)@ && (e
                    matches FrameError::Other(reason) && reason@ == invalid_frame_message()),
            },
    {
        match Frame::parse(self.bytes.as_slice()) {
            Ok((frame, used)) => {
                let rest = self.bytes.split_off(used);
                self.bytes = rest;
                assert(self@ =~= old(self)@.skip(used as int));
                Ok(Some(frame))
            },
            Err(FrameError::Incomplete) => Ok(None),
            Err(FrameError::Other(reason)) => Err(FrameError::Other(reason)),
        }
    }

    /// What the end of the peer's stream means: a clean end where no byte
    /// is left in the buffer, a reset inside a frame otherwise.
    pub fn at_end_of_stream(&self) -> (r: Result<(), String>)
        ensures
            match r {
                Ok(_) => self@.len() == 0,
                Err(reason) => self@.len() > 0 && reason@ == reset_by_peer(),
            },
    {
        if self.bytes.len() == 0 {
            Ok(())
        } else {
            Err("connection reset by peer".to_owned())
        }
    }
}

impl ParseErrorView {
    /// The error as a text for the client.
    pub open spec fn message(self) -> Seq<char> {
        match self {
            ParseErrorView::EndOfStream => end_of_stream(),
            ParseErrorView::Other(reason) => reason,
        }
    }
}

impl ParseError {
    /// The error as a text for the client.
    pub fn message(self) -> (text: String)
        ensures
            text@ == self@.message(),
    {
        match self {
            ParseError::EndOfStream => "protocol error; unexpected end of stream".to_owned(),
            ParseError::Other(reason) => reason,
        }
    }
}

/// What a command asks of a connection outside subscribe mode when `db` is
/// the store at `now`: what applying it asks, but that an `UNSUBSCRIBE`, which
/// cannot be applied here, is answered with an error frame.
pub open spec fn answers(cmd: CommandView, db: StateView, now: u64, applied: AppliedView) -> bool {
    match cmd {
        CommandView::Unsubscribe(_) => applied == (AppliedView::Reply {
            response: FrameView::Error(crate::cmd::unsubscribe_out_of_context()),
            notify: false,
        }),
        _ => cmd.asks(db, now, applied),
    }
}

/// What a frame from the client asks of the connection when `db` is the
/// store at `now`: what its command asks, or an error frame for the client
/// where the frame is no command.
pub open spec fn asked(frame: FrameView, db: StateView, now: u64, applied: AppliedView) -> bool {
    match CommandView::of_frame(frame) {
        Ok(cmd) => answers(cmd, db, now, applied),
        Err(e) => applied == (AppliedView::Reply {
            response: FrameView::Error(e.message()),
            notify: false,
        }),
    }
}

/// Whether `db` can take the command of `frame` at `now`.
pub open spec fn frame_fits(frame: FrameView, db: StateView, now: u64) -> bool {
    CommandView::of_frame(frame) matches Ok(cmd) ==> cmd.fits(db, now)
}

/// The store after the command of `frame` is applied at `now`.
pub open spec fn db_after_frame(frame: FrameView, db: StateView, now: u64) -> StateView {
    match CommandView::of_frame(frame) {
        Ok(cmd) => cmd.db_after(db, now),
        Err(_) => db,
    }
}

/// Whether the command of `frame` needs the present instant: only a `SET`
/// of a value that expires does.
pub open spec fn frame_timed(frame: FrameView) -> bool {
    CommandView::of_frame(frame) matches Ok(cmd) && cmd.timed()
}

/// What `applied` is, if it is anything.
pub open spec fn applied_view(applied: Option<Applied>) -> Option<AppliedView> {
    match applied {
        Some(applied) => Some(applied@),
        None => None,
    }
}

/// Whether serving `frame` at `now` on the store `db` gives `r` and leaves
/// the store `after`: where `db` can take the command, the command is
/// applied and `r` is what it asks of the connection; where it cannot, `r`
/// is nothing and the store is as it was.
pub open spec fn served(
    frame: FrameView,
    db: StateView,
    now: u64,
    r: Option<AppliedView>,
    after: StateView,
) -> bool {
    match r {
        Some(applied) => frame_fits(frame, db, now) && after == db_after_frame(frame, db, now)
            && asked(frame, db, now, applied),
        None => !frame_fits(frame, db, now) && after == db,
    }
}

/// Answers a command of a client outside subscribe mode: applies it to `db`
/// at `now`, and answers one that cannot be applied here with an error frame.
/// Nothing is returned, and `db` is left as it is, where `db` cannot take the
/// command.
pub fn answer(cmd: Command, db: &mut State, now: u64) -> (r: Option<Applied>)
    requires
        old(db)@.wf(),
    ensures
        final(db)@.wf(),
        match r {
            Some(applied) => cmd@.fits(old(db)@, now) && final(db)@ == cmd@.db_after(old(db)@, now)
                && answers(cmd@, old(db)@, now, applied@),
            None => !cmd@.fits(old(db)@, now) && final(db)@ == old(db)@,
        },
{
    match cmd.try_apply(db, now) {
        Ok(Applied::Refused { reason }) => Some(
            Applied::Reply { response: Frame::Error(reason), notify: false },
        ),
        Ok(applied) => Some(applied),
        Err(_) => None,
    }
}

/// Serves one frame from a client outside subscribe mode: reads its command
/// and applies it to `db` at `now`. A frame that is no command, and a command
/// that cannot be applied here, are answered with an error frame, and the
/// connection goes on. Nothing is returned, and `db` is left as it is, where
/// `db` cannot take the command.
pub fn serve(frame: Frame, db: &mut State, now: u64) -> (r: Option<Applied>)
    requires
        old(db)@.wf(),
    ensures
        final(db)@.wf(),
        served(frame@, old(db)@, now, applied_view(r), final(db)@),
{
    match Command::from_frame(frame) {
        Ok(cmd) => answer(cmd, db, now),
        Err(e) => Some(Applied::Reply { response: Frame::Error(e.message()), notify: false }),
    }
}

/// Serves one frame from a client outside subscribe mode at the present
/// instant. The clock is read only for a command that needs the instant: any
/// other frame is served as `serve` serves it at any instant, whatever the
/// clock says. A command that needs the instant is served as `serve` serves
/// it at the instant that the clock gave; nothing is returned, and `db` is
/// left as it is, where the clock is beyond what the store can count.
pub fn serve_now(frame: Frame, db: &mut State, clock: &Clock) -> (r: Option<Applied>)
    requires
        old(db)@.wf(),
    ensures
        final(db)@.wf(),
        !frame_timed(frame@) ==> served(frame@, old(db)@, 0, applied_view(r), final(db)@),
        r is None ==> final(db)@ == old(db)@,
        r is Some ==> exists|now: u64| #[trigger]
            served(frame@, old(db)@, now, applied_view(r), final(db)@),
{
    match Command::from_frame(frame) {
        Ok(cmd) => {
            let now = if cmd.timed() {
                match clock.now() {
                    Some(now) => now,
                    None => {
                        return None;
                    },
                }
            } else {
                0
            };
            let r = answer(cmd, db, now);
            assert(served(frame@, old(db)@, now, applied_view(r), db@));
            r
        },
        Err(e) => {
            let r = Some(Applied::Reply { response: Frame::Error(e.message()), notify: false });
            assert(served(frame@, old(db)@, 0, applied_view(r), db@));
            r
        },
    }
}

/// What a frame from the client does to a connection in subscribe mode with
/// the subscriptions `channels`: `SUBSCRIBE` and `UNSUBSCRIBE` change the
/// subscriptions, an `UNSUBSCRIBE` without a channel ending them all; `PING`
/// is answered; any other command is answered as one that is not known here,
/// and a frame that is no command with its error.
pub open spec fn asked_of_subscriber(channels: Seq<Seq<char>>, frame: FrameView) -> Turn {
    match CommandView::of_frame(frame) {
        Ok(CommandView::Subscribe(cmd)) => subscribe_all(channels, cmd.channels),
        Ok(CommandView::Unsubscribe(cmd)) => unsubscribe_all(
            channels,
            if cmd.channels.len() == 0 {
                channels
            } else {
                cmd.channels
            },
        ),
        Ok(CommandView::Ping(cmd)) => Turn {
            channels,
            effects: seq![EffectView::Reply { response: cmd.response() }],
        },
        Ok(cmd) => Turn {
            channels,
            effects: seq![EffectView::Reply { response: unknown_command(cmd.name()) }],
        },
        Err(e) => Turn {
            channels,
            effects: seq![EffectView::Reply { response: FrameView::Error(e.message()) }],
        },
    }
}

/// Serves one frame from a client in subscribe mode, and says what there is
/// to do. The connection leaves subscribe mode once `subscriptions` is empty.
pub fn serve_subscriber(frame: Frame, subscriptions: &mut Subscriptions, db: &mut State) -> (effects:
    Vec<Effect>)
    requires
        old(subscriptions)@.no_duplicates(),
    ensures
        final(subscriptions)@ == asked_of_subscriber(old(subscriptions)@, frame@).channels,
        effects_view(effects@) == asked_of_subscriber(old(subscriptions)@, frame@).effects,
        final(subscriptions)@.no_duplicates(),
        attached(old(db)@, effects_view(effects@), final(db)@),
{
    let response = match Command::from_frame(frame) {
        Ok(Command::Subscribe(cmd)) => {
            return subscriptions.subscribe(cmd.into_channels(), db);
        },
        Ok(Command::Unsubscribe(cmd)) => {
            let effects = subscriptions.unsubscribe(cmd.into_channels());
            proof {
                lemma_unsubscribe_attaches_nothing(
                    old(subscriptions)@,
                    if cmd@.channels.len() == 0 {
                        old(subscriptions)@
                    } else {
                        cmd@.channels
                    },
                );
                lemma_nothing_attached(db@, effects_view(effects@));
            }
            return effects;
        },
        Ok(Command::Ping(cmd)) => cmd.apply(),
        Ok(cmd) => unknown_command_frame(cmd.get_name()),
        Err(e) => Frame::Error(e.message()),
    };
    let mut effects: Vec<Effect> = Vec::new();
    effects.push(Effect::Reply { response });
    proof {
        let turn = asked_of_subscriber(old(subscriptions)@, frame@);
        assert(effects_view(effects@) =~= turn.effects);
        assert forall|c: Seq<char>| !turn.effects.contains(EffectView::Attach { channel: c }) by {
            if turn.effects.contains(EffectView::Attach { channel: c }) {
                assert(turn.effects[0] is Reply);
            }
        }
        lemma_nothing_attached(db@, turn.effects);
    }
    effects
}

impl Db {
    /// Serves one frame from a client outside subscribe mode on the store as
    /// it is now, and wakes the purge task where the command asks for it.
    /// What is returned is what `serve` gives on some well-formed store at
    /// some instant: the store as this call found it. A frame that is no
    /// `SET` is always served; a `SET` is not where the store cannot take
    /// it, and nothing is returned then.
    pub fn serve(&self, frame: Frame) -> (r: Option<Applied>)
        ensures
            r matches Some(applied) ==> !(applied@ is Refused),
            r matches Some(applied) ==> exists|db: StateView, now: u64|
                db.wf() && frame_fits(frame@, db, now) && #[trigger] asked(
                    frame@,
                    db,
                    now,
                    applied@,
                ),
            !(CommandView::of_frame(frame@) matches Ok(CommandView::SetCmd(_))) ==> r is Some,
    {
        proof {
            use_type_invariant(self);
            self.lemma_lock_holds_well_formed_state();
        }
        let (mut state, guard) = self.shared.state.acquire_write();
        let ghost before = state@;
        let applied = serve_now(frame, &mut state, &self.shared.clock);
        guard.release_write(state);
        proof {
            if applied is Some {
                let now = choose|now: u64| #[trigger]
                    served(frame@, before, now, applied_view(applied), state@);
                assert(asked(frame@, before, now, applied->0@));
            }
        }
        match &applied {
            Some(Applied::Reply { notify, .. }) => {
                if *notify {
                    self.shared.background_task.notify_one();
                }
            },
            _ => {},
        }
        applied
    }

    /// Subscribes a connection to `channels`, on the store as it is now.
    pub fn enter_subscribe_mode(&self, subscriptions: &mut Subscriptions, channels: Vec<String>) -> (effects:
        Vec<Effect>)
        requires
            old(subscriptions)@.no_duplicates(),
        ensures
            final(subscriptions)@ == subscribe_all(old(subscriptions)@, texts(channels@)).channels,
            effects_view(effects@) == subscribe_all(old(subscriptions)@, texts(channels@)).effects,
            final(subscriptions)@.no_duplicates(),
    {
        proof {
            use_type_invariant(self);
            self.lemma_lock_holds_well_formed_state();
        }
        let (mut state, guard) = self.shared.state.acquire_write();
        let effects = subscriptions.subscribe(channels, &mut state);
        guard.release_write(state);
        effects
    }

    /// Serves one frame from a client in subscribe mode, on the store as it
    /// is now.
    pub fn serve_subscriber(&self, subscriptions: &mut Subscriptions, frame: Frame) -> (effects:
        Vec<Effect>)
        requires
            old(subscriptions)@.no_duplicates(),
        ensures
            final(subscriptions)@ == asked_of_subscriber(old(subscriptions)@, frame@).channels,
            effects_view(effects@) == asked_of_subscriber(old(subscriptions)@, frame@).effects,
            final(subscriptions)@.no_duplicates(),
    {
        proof {
            use_type_invariant(self);
            self.lemma_lock_holds_well_formed_state();
        }
        let (mut state, guard) = self.shared.state.acquire_write();
        let effects = serve_subscriber(frame, subscriptions, &mut state);
        guard.release_write(state);
        effects
    }
}

} // verus!
