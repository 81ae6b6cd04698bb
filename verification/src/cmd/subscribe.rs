//! `SUBSCRIBE channel [channel ...]` and `UNSUBSCRIBE [channel ...]`, and the
//! subscriptions of one connection.
//!
//! A connection that subscribes enters subscribe mode: it gets the messages
//! of its channels, and may only subscribe, unsubscribe and ping until it has
//! left its last channel.

use crate::blob::blob_bytes;
use crate::db::{State, StateView};
use crate::frame::{bulk_of, count_of, Frame, FrameView};
use crate::parse::{
    not_a_string, take_string, text_of, Parse, ParseError, ParseErrorView, Taken,
};
use crate::text::str_eq;
use bytes::Bytes;
use tokio::sync::broadcast::Receiver;
use vstd::prelude::*;

verus! {

/// The texts of `names`.
pub open spec fn texts(names: Seq<String>) -> Seq<Seq<char>> {
    names.map_values(|name: String| name@)
}

/// `taken`, with `front` before what it gives.
pub open spec fn with_front(front: Seq<Seq<char>>, taken: Taken<Seq<Seq<char>>>) -> Taken<
    Seq<Seq<char>>,
> {
    Taken {
        result: match taken.result {
            Ok(more) => Ok(front + more),
            Err(e) => Err(e),
        },
        rest: taken.rest,
    }
}

/// Taking every item that is left as a text.
pub open spec fn take_strings(args: Seq<FrameView>) -> Taken<Seq<Seq<char>>>
    decreases args.len(),
{
    if args.len() == 0 {
        Taken { result: Ok(Seq::empty()), rest: args }
    } else {
        match text_of(args[0]) {
            Some(text) => with_front(seq![text], take_strings(args.drop_first())),
            None => Taken {
                result: Err(ParseErrorView::Other(not_a_string())),
                rest: args.drop_first(),
            },
        }
    }
}

/// Takes every item that is left as a text, behind the texts of `names`.
fn next_strings(parse: &mut Parse, names: Vec<String>) -> (r: Result<Vec<String>, ParseError>)
    ensures
        final(parse)@ == take_strings(old(parse)@).rest,
        match r {
            Ok(all) => take_strings(old(parse)@).result == Ok::<_, ParseErrorView>(
                texts(all@).skip(names@.len() as int),
            ) && all@.len() >= names@.len() && texts(all@).take(names@.len() as int) == texts(
                names@,
            ),
            Err(e) => take_strings(old(parse)@).result == Err::<Seq<Seq<char>>, _>(e@),
        },
{
    let mut all = names;
    let ghost front = all@.len() as int;
    let ghost start = parse@;
    assert(texts(all@).skip(front) =~= Seq::<Seq<char>>::empty());
    assert(texts(all@).take(front) =~= texts(names@));
    loop
        invariant
            0 <= front <= all@.len(),
            front == names@.len(),
            start == old(parse)@,
            texts(all@).take(front) == texts(names@),
            take_strings(start) == with_front(texts(all@).skip(front), take_strings(parse@)),
        decreases parse@.len(),
    {
        let ghost seen = texts(all@).skip(front);
        match parse.next_string() {
            Ok(name) => {
                all.push(name);
                proof {
                    assert(texts(all@).skip(front) =~= seen + seq![name@]);
                    assert(texts(all@).take(front) =~= texts(names@));
                    let more = take_strings(parse@);
                    match more.result {
                        Ok(m) => {
                            assert(seen + (seq![name@] + m) =~= (seen + seq![name@]) + m);
                        },
                        Err(_) => {},
                    }
                }
            },
            Err(ParseError::EndOfStream) => {
                proof {
                    assert(seen + Seq::<Seq<char>>::empty() =~= seen);
                }
                return Ok(all);
            },
            Err(e) => {
                return Err(e);
            },
        }
    }
}

/// The command `SUBSCRIBE`.
#[derive(Debug)]
pub struct Subscribe {
    channels: Vec<String>,
}

/// The command `UNSUBSCRIBE`.
#[derive(Debug)]
pub struct Unsubscribe {
    channels: Vec<String>,
}

/// What a `Subscribe` or an `Unsubscribe` is: the channels, in order.
pub struct ChannelsView {
    pub channels: Seq<Seq<char>>,
}

impl View for Subscribe {
    type V = ChannelsView;

    closed spec fn view(&self) -> ChannelsView {
        ChannelsView { channels: texts(self.channels@) }
    }
}

impl View for Unsubscribe {
    type V = ChannelsView;

    closed spec fn view(&self) -> ChannelsView {
        ChannelsView { channels: texts(self.channels@) }
    }
}

impl ChannelsView {
    /// `taken` as the channels of a command.
    pub open spec fn of(taken: Taken<Seq<Seq<char>>>) -> Taken<ChannelsView> {
        Taken {
            result: match taken.result {
                Ok(channels) => Ok(ChannelsView { channels }),
                Err(e) => Err(e),
            },
            rest: taken.rest,
        }
    }

    /// The `SUBSCRIBE` that the arguments `args` give: one channel or more.
    pub open spec fn parse_subscribe(args: Seq<FrameView>) -> Taken<ChannelsView> {
        let first = take_string(args);
        match first.result {
            Ok(name) => Self::of(with_front(seq![name], take_strings(first.rest))),
            Err(e) => Taken { result: Err(e), rest: first.rest },
        }
    }

    /// The `UNSUBSCRIBE` that the arguments `args` give: any number of
    /// channels.
    pub open spec fn parse_unsubscribe(args: Seq<FrameView>) -> Taken<ChannelsView> {
        Self::of(take_strings(args))
    }
}

impl Subscribe {
    /// A `SUBSCRIBE` to `channels`.
    pub fn new(channels: Vec<String>) -> (cmd: Subscribe)
        ensures
            cmd@.channels == texts(channels@),
    {
        Subscribe { channels }
    }

    /// The channels, which the command gives up.
    pub fn into_channels(self) -> (channels: Vec<String>)
        ensures
            texts(channels@) == self@.channels,
    {
        self.channels
    }

    /// Reads the command from the arguments that follow its name.
    pub fn parse_frames(parse: &mut Parse) -> (r: Result<Subscribe, ParseError>)
        ensures
            final(parse)@ == ChannelsView::parse_subscribe(old(parse)@).rest,
            match r {
                Ok(cmd) => ChannelsView::parse_subscribe(old(parse)@).result == Ok::<
                    _,
                    ParseErrorView,
                >(cmd@),
                Err(e) => ChannelsView::parse_subscribe(old(parse)@).result == Err::<
                    ChannelsView,
                    _,
                >(e@),
            },
    {
        let first = match parse.next_string() {
            Ok(first) => first,
            Err(e) => {
                return Err(e);
            },
        };
        let ghost name = first@;
        let mut names: Vec<String> = Vec::new();
        names.push(first);
        match next_strings(parse, names) {
            Ok(channels) => {
                proof {
                    let all = texts(channels@);
                    assert(all.take(1) =~= seq![name]);
                    assert(all.take(1)[0] == name);
                    assert(seq![name] + all.skip(1) =~= all);
                }
                Ok(Subscribe { channels })
            },
            Err(e) => Err(e),
        }
    }
}

impl Unsubscribe {
    /// An `UNSUBSCRIBE` from `channels`.
    pub fn new(channels: Vec<String>) -> (cmd: Unsubscribe)
        ensures
            cmd@.channels == texts(channels@),
    {
        Unsubscribe { channels }
    }

    /// The channels, which the command gives up.
    pub fn into_channels(self) -> (channels: Vec<String>)
        ensures
            texts(channels@) == self@.channels,
    {
        self.channels
    }

    /// Reads the command from the arguments that follow its name.
    pub fn parse_frames(parse: &mut Parse) -> (r: Result<Unsubscribe, ParseError>)
        ensures
            final(parse)@ == ChannelsView::parse_unsubscribe(old(parse)@).rest,
            match r {
                Ok(cmd) => ChannelsView::parse_unsubscribe(old(parse)@).result == Ok::<
                    _,
                    ParseErrorView,
                >(cmd@),
                Err(e) => ChannelsView::parse_unsubscribe(old(parse)@).result == Err::<
                    ChannelsView,
                    _,
                >(e@),
            },
    {
        match next_strings(parse, Vec::new()) {
            Ok(channels) => {
                proof {
                    assert(texts(channels@).skip(0) =~= texts(channels@));
                }
                Ok(Unsubscribe { channels })
            },
            Err(e) => Err(e),
        }
    }
}

/// The acknowledgment of a subscription to `channel`, after which the
/// connection has `count` subscriptions.
pub open spec fn subscribed(channel: Seq<char>, count: nat) -> FrameView {
    FrameView::Array(seq![bulk_of("subscribe"@), bulk_of(channel), count_of(count as usize)])
}

/// The acknowledgment of the end of a subscription to `channel`, after which
/// the connection has `count` subscriptions.
pub open spec fn unsubscribed(channel: Seq<char>, count: nat) -> FrameView {
    FrameView::Array(seq![bulk_of("unsubscribe"@), bulk_of(channel), count_of(count as usize)])
}

/// The frame that hands a subscriber the message `payload` of `channel`.
pub open spec fn message(channel: Seq<char>, payload: Seq<u8>) -> FrameView {
    FrameView::Array(seq![bulk_of("message"@), bulk_of(channel), FrameView::Bulk(payload)])
}

/// The frame that hands a subscriber the message `payload` of `channel`.
pub fn message_frame(channel: &str, payload: Bytes) -> (frame: Frame)
    ensures
        frame@ == message(channel@, blob_bytes(payload)),
{
    Frame::triple(Frame::bulk("message"), Frame::bulk(channel), Frame::Bulk(payload))
}

/// What the connection has to do for its subscriptions.
#[derive(Debug)]
pub enum Effect {
    /// Listen to `receiver`, which is attached to `channel`.
    Attach { channel: String, receiver: Receiver<Bytes> },
    /// Stop listening to `channel`.
    Detach { channel: String },
    /// Send `response` to the client.
    Reply { response: Frame },
}

/// What an `Effect` is, but for the receiver that an `Attach` carries: a
/// receiver is made by the channel of the store, and nothing is known of it.
pub enum EffectView {
    Attach { channel: Seq<char> },
    Detach { channel: Seq<char> },
    Reply { response: FrameView },
}

impl View for Effect {
    type V = EffectView;

    open spec fn view(&self) -> EffectView {
        match self {
            Effect::Attach { channel, .. } => EffectView::Attach { channel: channel@ },
            Effect::Detach { channel } => EffectView::Detach { channel: channel@ },
            Effect::Reply { response } => EffectView::Reply { response: response@ },
        }
    }
}

/// What the effects `effects` are.
pub open spec fn effects_view(effects: Seq<Effect>) -> Seq<EffectView> {
    effects.map_values(|effect: Effect| effect@)
}

/// The subscriptions of a connection and what it has to do, as they change
/// together.
pub struct Turn {
    pub channels: Seq<Seq<char>>,
    pub effects: Seq<EffectView>,
}

impl Turn {
    /// The turn that `next` makes after this one.
    pub open spec fn followed_by(self, next: Turn) -> Turn {
        Turn { channels: next.channels, effects: self.effects + next.effects }
    }
}

/// `channels` without `channel`.
pub open spec fn without(channels: Seq<Seq<char>>, channel: Seq<char>) -> Seq<Seq<char>>
    decreases channels.len(),
{
    if channels.len() == 0 {
        channels
    } else if channels.last() == channel {
        without(channels.drop_last(), channel)
    } else {
        without(channels.drop_last(), channel).push(channels.last())
    }
}

/// Subscribing to `channel`: a new channel is attached and joins the
/// subscriptions; one that the connection has already is left alone. Either
/// way the subscription is acknowledged, with the number of subscriptions.
pub open spec fn subscribe_one(channels: Seq<Seq<char>>, channel: Seq<char>) -> Turn {
    if channels.contains(channel) {
        Turn {
            channels,
            effects: seq![EffectView::Reply { response: subscribed(channel, channels.len()) }],
        }
    } else {
        Turn {
            channels: channels.push(channel),
            effects: seq![
                EffectView::Attach { channel },
                EffectView::Reply { response: subscribed(channel, channels.len() + 1) },
            ],
        }
    }
}

/// Unsubscribing from `channel`: the channel is detached and leaves the
/// subscriptions, if it is among them. Either way this is acknowledged, with
/// the number of subscriptions that are left.
pub open spec fn unsubscribe_one(channels: Seq<Seq<char>>, channel: Seq<char>) -> Turn {
    if channels.contains(channel) {
        Turn {
            channels: without(channels, channel),
            effects: seq![
                EffectView::Detach { channel },
                EffectView::Reply {
                    response: unsubscribed(channel, without(channels, channel).len()),
                },
            ],
        }
    } else {
        Turn {
            channels,
            effects: seq![EffectView::Reply { response: unsubscribed(channel, channels.len()) }],
        }
    }
}

/// Subscribing to `names`, one after the other.
pub open spec fn subscribe_all(channels: Seq<Seq<char>>, names: Seq<Seq<char>>) -> Turn
    decreases names.len(),
{
    if names.len() == 0 {
        Turn { channels, effects: Seq::empty() }
    } else {
        let first = subscribe_one(channels, names[0]);
        first.followed_by(subscribe_all(first.channels, names.drop_first()))
    }
}

/// Unsubscribing from `names`, one after the other.
pub open spec fn unsubscribe_all(channels: Seq<Seq<char>>, names: Seq<Seq<char>>) -> Turn
    decreases names.len(),
{
    if names.len() == 0 {
        Turn { channels, effects: Seq::empty() }
    } else {
        let first = unsubscribe_one(channels, names[0]);
        first.followed_by(unsubscribe_all(first.channels, names.drop_first()))
    }
}

/// Taking a channel that occurs once out of the subscriptions removes it
/// where it stands.
pub proof fn lemma_without(channels: Seq<Seq<char>>, at: int)
    requires
        channels.no_duplicates(),
        0 <= at < channels.len(),
    ensures
        without(channels, channels[at]) == channels.remove(at),
        channels.remove(at).no_duplicates(),
        !channels.remove(at).contains(channels[at]),
    decreases channels.len(),
{
    let channel = channels[at];
    let front = channels.drop_last();
    if at == channels.len() - 1 {
        lemma_without_absent(front, channel);
        assert(channels.remove(at) =~= front);
    } else {
        lemma_without(front, at);
        assert(channels.last() != channel);
        assert(channels.remove(at) =~= front.remove(at).push(channels.last()));
    }
    let rest = channels.remove(at);
    assert forall|i: int, j: int| 0 <= i < rest.len() && 0 <= j < rest.len() && i != j implies rest[i]
        != rest[j] by {
        let a = if i < at { i } else { i + 1 };
        let b = if j < at { j } else { j + 1 };
        assert(rest[i] == channels[a]);
        assert(rest[j] == channels[b]);
    }
    assert forall|i: int| 0 <= i < rest.len() implies rest[i] != channel by {
        let a = if i < at { i } else { i + 1 };
        assert(rest[i] == channels[a]);
    }
}

/// Taking out a channel that is not among the subscriptions changes nothing.
pub proof fn lemma_without_absent(channels: Seq<Seq<char>>, channel: Seq<char>)
    requires
        !channels.contains(channel),
    ensures
        without(channels, channel) == channels,
    decreases channels.len(),
{
    if channels.len() > 0 {
        let front = channels.drop_last();
        assert(channels.last() == channels[channels.len() - 1]);
        assert forall|i: int| 0 <= i < front.len() implies front[i] != channel by {
            assert(front[i] == channels[i]);
        }
        lemma_without_absent(front, channel);
        assert(front.push(channels.last()) =~= channels);
    }
}

/// The names of the channels that `effects` attach.
pub open spec fn attaches(effects: Seq<EffectView>) -> Set<Seq<char>> {
    Set::new(|channel: Seq<char>| effects.contains(EffectView::Attach { channel }))
}

/// Whether `after` is the store `db` once the channels that `effects` attach
/// are subscribed to in it: every channel that `db` has keeps its sender, the
/// channels that are attached exist too, and nothing else differs.
pub open spec fn attached(db: StateView, effects: Seq<EffectView>, after: StateView) -> bool {
    &&& after == StateView { channels: after.channels, ..db }
    &&& db.channels.submap_of(after.channels)
    &&& after.channels.dom() == db.channels.dom().union(attaches(effects))
}

/// A run of effects attaches what its two parts attach.
pub proof fn lemma_attaches(first: Seq<EffectView>, second: Seq<EffectView>)
    ensures
        attaches(first + second) == attaches(first).union(attaches(second)),
        attaches(Seq::empty()) == Set::<Seq<char>>::empty(),
{
    assert forall|effect: EffectView| (first + second).contains(effect) <==> first.contains(effect)
        || second.contains(effect) by {
        if first.contains(effect) {
            let i = choose|i: int| 0 <= i < first.len() && first[i] == effect;
            assert((first + second)[i] == effect);
        }
        if second.contains(effect) {
            let i = choose|i: int| 0 <= i < second.len() && second[i] == effect;
            assert((first + second)[first.len() + i] == effect);
        }
        if (first + second).contains(effect) {
            let i = choose|i: int| 0 <= i < (first + second).len() && (first + second)[i] == effect;
            if i < first.len() {
                assert(first[i] == effect);
            } else {
                assert(second[i - first.len()] == effect);
            }
        }
    }
    assert(attaches(first + second) =~= attaches(first).union(attaches(second)));
    assert(attaches(Seq::empty()) =~= Set::<Seq<char>>::empty());
}

/// Subscribing for one run of effects and then for another is subscribing
/// for both; and a store is itself once nothing is attached.
pub proof fn lemma_attached(
    db: StateView,
    first: Seq<EffectView>,
    between: StateView,
    second: Seq<EffectView>,
    after: StateView,
)
    requires
        attached(db, first, between),
        attached(between, second, after),
    ensures
        attached(db, first + second, after),
        attached(db, Seq::empty(), db),
{
    lemma_attaches(first, second);
    assert(after.channels.dom() =~= db.channels.dom().union(attaches(first + second)));
    assert(db.channels.dom() =~= db.channels.dom().union(attaches(Seq::empty())));
}

/// A store is itself once the channels of effects that attach nothing are
/// subscribed to.
pub proof fn lemma_nothing_attached(db: StateView, effects: Seq<EffectView>)
    requires
        forall|channel: Seq<char>| !effects.contains(EffectView::Attach { channel }),
    ensures
        attached(db, effects, db),
{
    assert(attaches(effects) =~= Set::<Seq<char>>::empty());
    assert(db.channels.dom() =~= db.channels.dom().union(attaches(effects)));
}

/// Unsubscribing attaches no channel.
pub proof fn lemma_unsubscribe_attaches_nothing(channels: Seq<Seq<char>>, names: Seq<Seq<char>>)
    ensures
        forall|channel: Seq<char>|
            !unsubscribe_all(channels, names).effects.contains(
                EffectView::Attach { channel },
            ),
    decreases names.len(),
{
    let all = unsubscribe_all(channels, names).effects;
    if names.len() > 0 {
        let first = unsubscribe_one(channels, names[0]);
        let more = unsubscribe_all(first.channels, names.drop_first());
        lemma_unsubscribe_attaches_nothing(first.channels, names.drop_first());
        assert forall|channel: Seq<char>| !all.contains(EffectView::Attach { channel }) by {
            let effect = EffectView::Attach { channel };
            if all.contains(effect) {
                let i = choose|i: int| 0 <= i < all.len() && all[i] == effect;
                if i < first.effects.len() {
                    assert(first.effects[i] == effect);
                } else {
                    assert(more.effects[i - first.effects.len()] == effect);
                    assert(more.effects.contains(effect));
                }
            }
        }
    }
}

/// Subscribing to a channel that the connection has already changes nothing
/// and attaches nothing: it is acknowledged with the number of subscriptions
/// as it was. So it is for the second of two subscriptions to one channel.
pub proof fn lemma_subscribe_again(channels: Seq<Seq<char>>, channel: Seq<char>)
    ensures
        channels.contains(channel) ==> subscribe_one(channels, channel) == (Turn {
            channels,
            effects: seq![EffectView::Reply { response: subscribed(channel, channels.len()) }],
        }),
        subscribe_one(subscribe_one(channels, channel).channels, channel) == (Turn {
            channels: subscribe_one(channels, channel).channels,
            effects: seq![
                EffectView::Reply {
                    response: subscribed(channel, subscribe_one(channels, channel).channels.len()),
                },
            ],
        }),
{
    let once = subscribe_one(channels, channel).channels;
    if !channels.contains(channel) {
        assert(once[channels.len() as int] == channel);
    }
}

/// The channels that one connection is subscribed to, in the order in which
/// it subscribed. No channel is among them twice: a fresh value holds none,
/// and every method keeps it so.
pub struct Subscriptions {
    channels: Vec<String>,
}

impl View for Subscriptions {
    type V = Seq<Seq<char>>;

    closed spec fn view(&self) -> Seq<Seq<char>> {
        texts(self.channels@)
    }
}

impl Subscriptions {
    /// No subscriptions.
    pub fn new() -> (subscriptions: Subscriptions)
        ensures
            subscriptions@ == Seq::<Seq<char>>::empty(),
    {
        let subscriptions = Subscriptions { channels: Vec::new() };
        assert(subscriptions@ =~= Seq::<Seq<char>>::empty());
        subscriptions
    }

    /// The number of subscriptions.
    pub fn len(&self) -> (len: usize)
        ensures
            len == self@.len(),
    {
        self.channels.len()
    }

    /// Whether the connection has no subscription, and so is not, or no
    /// longer, in subscribe mode.
    pub fn is_empty(&self) -> (empty: bool)
        ensures
            empty == (self@.len() == 0),
    {
        self.channels.len() == 0
    }

    /// The channel that was subscribed to as the `at`-th of those that are
    /// left.
    pub fn channel(&self, at: usize) -> (channel: &str)
        requires
            at < self@.len(),
        ensures
            channel@ == self@[at as int],
    {
        self.channels[at].as_str()
    }

    /// Whether `channel` is among the subscriptions.
    pub fn contains(&self, channel: &str) -> (found: bool)
        ensures
            found == self@.contains(channel@),
    {
        self.find(channel).is_some()
    }

    /// Where `channel` stands among the subscriptions.
    fn find(&self, channel: &str) -> (at: Option<usize>)
        ensures
            match at {
                Some(at) => at < self@.len() && self@[at as int] == channel@,
                None => !self@.contains(channel@),
            },
    {
        let mut i: usize = 0;
        while i < self.channels.len()
            invariant
                i <= self.channels.len(),
                forall|j: int| 0 <= j < i ==> self@[j] != channel@,
            decreases self.channels.len() - i,
        {
            if str_eq(self.channels[i].as_str(), channel) {
                return Some(i);
            }
            i = i + 1;
        }
        None
    }

    /// Subscribes to `channel`, and appends what there is to do to `effects`.
    fn subscribe_one(&mut self, channel: String, db: &mut State, effects: &mut Vec<Effect>)
        requires
            old(self)@.no_duplicates(),
        ensures
            final(self)@.no_duplicates(),
            final(self)@ == subscribe_one(old(self)@, channel@).channels,
            effects_view(final(effects)@) == effects_view(old(effects)@) + subscribe_one(
                old(self)@,
                channel@,
            ).effects,
            attached(old(db)@, subscribe_one(old(self)@, channel@).effects, final(db)@),
    {
        let ghost turn = subscribe_one(self@, channel@);
        let name = channel.clone();
        if self.find(channel.as_str()).is_none() {
            let receiver = db.subscribe(channel.clone());
            proof {
                let before = texts(self.channels@);
                let after = before.push(channel@);
                assert forall|i: int, j: int|
                    0 <= i < after.len() && 0 <= j < after.len() && i != j implies after[i]
                    != after[j] by {
                    if i < before.len() {
                        assert(after[i] == before[i]);
                    }
                    if j < before.len() {
                        assert(after[j] == before[j]);
                    }
                }
                assert(texts(self.channels@.push(name)) =~= after);
            }
            self.channels.push(name);
            effects.push(Effect::Attach { channel: channel.clone(), receiver });
            proof {
                assert(turn.effects[0] == (EffectView::Attach { channel: channel@ }));
                assert forall|c: Seq<char>| attaches(turn.effects).contains(c) <==> c
                    == channel@ by {
                    if attaches(turn.effects).contains(c) {
                        let i = choose|i: int|
                            0 <= i < turn.effects.len() && turn.effects[i] == (EffectView::Attach {
                                channel: c,
                            });
                        assert(turn.effects[1] is Reply);
                    }
                }
                assert(db@.channels.dom() =~= old(db)@.channels.dom().union(
                    attaches(turn.effects),
                ));
            }
        } else {
            assert forall|c: Seq<char>| !turn.effects.contains(EffectView::Attach { channel: c }) by {
                if turn.effects.contains(EffectView::Attach { channel: c }) {
                    let i = choose|i: int|
                        0 <= i < turn.effects.len() && turn.effects[i] == (EffectView::Attach {
                            channel: c,
                        });
                    assert(turn.effects[0] is Reply);
                }
            }
            proof {
                lemma_nothing_attached(old(db)@, turn.effects);
            }
        }
        let count = self.channels.len();
        let response = Frame::triple(
            Frame::bulk("subscribe"),
            Frame::bulk(channel.as_str()),
            Frame::count(count),
        );
        effects.push(Effect::Reply { response });
        assert(effects_view(effects@) =~= effects_view(old(effects)@) + turn.effects);
    }

    /// Unsubscribes from `channel`, and appends what there is to do to
    /// `effects`.
    fn unsubscribe_one(&mut self, channel: String, effects: &mut Vec<Effect>)
        requires
            old(self)@.no_duplicates(),
        ensures
            final(self)@.no_duplicates(),
            final(self)@ == unsubscribe_one(old(self)@, channel@).channels,
            effects_view(final(effects)@) == effects_view(old(effects)@) + unsubscribe_one(
                old(self)@,
                channel@,
            ).effects,
    {
        let ghost turn = unsubscribe_one(self@, channel@);
        match self.find(channel.as_str()) {
            Some(at) => {
                proof {
                    lemma_without(texts(self.channels@), at as int);
                    assert(texts(self.channels@.remove(at as int)) =~= texts(self.channels@).remove(
                        at as int,
                    ));
                }
                self.channels.remove(at);
                effects.push(Effect::Detach { channel: channel.clone() });
            },
            None => {},
        }
        let count = self.channels.len();
        let response = Frame::triple(
            Frame::bulk("unsubscribe"),
            Frame::bulk(channel.as_str()),
            Frame::count(count),
        );
        effects.push(Effect::Reply { response });
        assert(effects_view(effects@) =~= effects_view(old(effects)@) + turn.effects);
    }

    /// Subscribes to `names`, one after the other, and says what there is to
    /// do: a receiver to listen to for each channel that is new to the
    /// connection, and an acknowledgment to send for each name.
    pub fn subscribe(&mut self, names: Vec<String>, db: &mut State) -> (effects: Vec<Effect>)
        requires
            old(self)@.no_duplicates(),
        ensures
            final(self)@ == subscribe_all(old(self)@, texts(names@)).channels,
            effects_view(effects@) == subscribe_all(old(self)@, texts(names@)).effects,
            attached(old(db)@, effects_view(effects@), final(db)@),
            final(self)@.no_duplicates(),
    {
        let mut effects: Vec<Effect> = Vec::new();
        let ghost all = texts(names@);
        let ghost start = self@;
        let mut i: usize = 0;
        proof {
            assert(all.skip(0) =~= all);
            assert(effects_view(effects@) =~= Seq::<EffectView>::empty());
            lemma_nothing_attached(db@, Seq::empty());
        }
        while i < names.len()
            invariant
                i <= names.len(),
                all == texts(names@),
                start == old(self)@,
                self@.no_duplicates(),
                attached(old(db)@, effects_view(effects@), db@),
                subscribe_all(start, all) == (Turn {
                    channels: self@,
                    effects: effects_view(effects@),
                }).followed_by(subscribe_all(self@, all.skip(i as int))),
            decreases names.len() - i,
        {
            let ghost before = self@;
            let ghost done = effects_view(effects@);
            let ghost store = db@;
            let name = names[i].clone();
            self.subscribe_one(name, db, &mut effects);
            proof {
                let left = all.skip(i as int);
                assert(left[0] == names@[i as int]@);
                assert(left.drop_first() =~= all.skip(i + 1));
                let one = subscribe_one(before, left[0]);
                let more = subscribe_all(one.channels, left.drop_first());
                assert(done + (one.effects + more.effects) =~= (done + one.effects) + more.effects);
                lemma_attached(old(db)@, done, store, one.effects, db@);
            }
            i = i + 1;
        }
        proof {
            assert(all.skip(i as int) =~= Seq::<Seq<char>>::empty());
            assert(effects_view(effects@) + Seq::<EffectView>::empty() =~= effects_view(effects@));
        }
        effects
    }

    /// Unsubscribes from `names`, one after the other, or from every channel
    /// where no name is given, and says what there is to do.
    pub fn unsubscribe(&mut self, names: Vec<String>) -> (effects: Vec<Effect>)
        requires
            old(self)@.no_duplicates(),
        ensures
            final(self)@ == unsubscribe_all(
                old(self)@,
                if names@.len() == 0 {
                    old(self)@
                } else {
                    texts(names@)
                },
            ).channels,
            effects_view(effects@) == unsubscribe_all(
                old(self)@,
                if names@.len() == 0 {
                    old(self)@
                } else {
                    texts(names@)
                },
            ).effects,
            final(self)@.no_duplicates(),
    {
        let names = if names.len() == 0 {
            self.channels.clone()
        } else {
            names
        };
        let mut effects: Vec<Effect> = Vec::new();
        let ghost all = texts(names@);
        let ghost start = self@;
        let mut i: usize = 0;
        proof {
            assert(all.skip(0) =~= all);
            assert(effects_view(effects@) =~= Seq::<EffectView>::empty());
        }
        while i < names.len()
            invariant
                i <= names.len(),
                all == texts(names@),
                start == old(self)@,
                self@.no_duplicates(),
                unsubscribe_all(start, all) == (Turn {
                    channels: self@,
                    effects: effects_view(effects@),
                }).followed_by(unsubscribe_all(self@, all.skip(i as int))),
            decreases names.len() - i,
        {
            let ghost before = self@;
            let ghost done = effects_view(effects@);
            let name = names[i].clone();
            self.unsubscribe_one(name, &mut effects);
            proof {
                let left = all.skip(i as int);
                assert(left[0] == names@[i as int]@);
                assert(left.drop_first() =~= all.skip(i + 1));
                let one = unsubscribe_one(before, left[0]);
                let more = unsubscribe_all(one.channels, left.drop_first());
                assert(done + (one.effects + more.effects) =~= (done + one.effects) + more.effects);
            }
            i = i + 1;
        }
        proof {
            assert(all.skip(i as int) =~= Seq::<Seq<char>>::empty());
            assert(effects_view(effects@) + Seq::<EffectView>::empty() =~= effects_view(effects@));
        }
        effects
    }
}

} // verus!
