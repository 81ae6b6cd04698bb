//! `SET key value [EX seconds | PX milliseconds]`: store a value, which may
//! expire.

use crate::blob::blob_bytes;
use crate::db::{State, StateView};
use crate::frame::{Frame, FrameView};
use crate::parse::{
    take_bytes, take_int, take_string, Parse, ParseError, ParseErrorView, Taken,
};
use crate::text::{str_eq, to_uppercase, uppercase};
use bytes::Bytes;
use vstd::prelude::*;

verus! {

/// The command `SET`.
#[derive(Debug)]
pub struct SetCmd {
    key: String,
    value: Bytes,
    expire: Option<u64>,
}

/// What a `SetCmd` is: the key, the bytes of the value, and the time that
/// the value is to live, in milliseconds.
pub struct SetView {
    pub key: Seq<char>,
    pub value: Seq<u8>,
    pub expire: Option<u64>,
}

impl View for SetCmd {
    type V = SetView;

    closed spec fn view(&self) -> SetView {
        SetView { key: self.key@, value: blob_bytes(self.value), expire: self.expire }
    }
}

/// The reason given for an option that is neither `EX` nor `PX`.
pub open spec fn unknown_option() -> Seq<char> {
    "currently `SET` only supports the expiration option"@
}

/// The reason given for a time to live that is not positive, or too long to
/// count in milliseconds.
pub open spec fn invalid_expire() -> Seq<char> {
    "invalid expire time in 'set' command"@
}

/// The time to live, in milliseconds, that `amount` units of `unit`
/// milliseconds are: nothing where the amount is not positive or the time
/// does not fit.
pub open spec fn time_to_live(amount: i64, unit: u64) -> Option<u64> {
    if amount > 0 && amount * unit <= u64::MAX {
        Some((amount * unit) as u64)
    } else {
        None
    }
}

/// A time to live that is not positive is no time to live: `EX 0` and `PX 0`
/// are refused, and so is every negative amount.
pub proof fn lemma_time_to_live_is_positive(amount: i64, unit: u64)
    requires
        unit == 1 || unit == 1000,
    ensures
        amount <= 0 ==> time_to_live(amount, unit) is None,
        time_to_live(amount, unit) matches Some(ttl) ==> ttl > 0,
{
    if amount > 0 {
        assert(amount * unit > 0) by (nonlinear_arith)
            requires
                amount > 0,
                unit == 1 || unit == 1000,
        ;
    }
}

impl SetView {
    /// The time to live that the option named `option`, in upper case, and
    /// the arguments `args` behind it give: `EX` and seconds, or `PX` and
    /// milliseconds.
    pub open spec fn parse_option(option: Seq<char>, args: Seq<FrameView>) -> Taken<Option<u64>> {
        let unit: u64 = if option == "EX"@ {
            1000
        } else {
            1
        };
        if option == "EX"@ || option == "PX"@ {
            let amount = take_int(args);
            Taken {
                result: match amount.result {
                    Err(e) => Err(e),
                    Ok(amount) => match time_to_live(amount, unit) {
                        Some(ttl) => Ok(Some(ttl)),
                        None => Err(ParseErrorView::Other(invalid_expire())),
                    },
                },
                rest: amount.rest,
            }
        } else {
            Taken { result: Err(ParseErrorView::Other(unknown_option())), rest: args }
        }
    }

    /// The time to live that the arguments `args` give, which follow the
    /// value: nothing, or an option, in either case, and its amount.
    pub open spec fn parse_expire(args: Seq<FrameView>) -> Taken<Option<u64>> {
        let option = take_string(args);
        match option.result {
            Err(ParseErrorView::EndOfStream) => Taken { result: Ok(None), rest: option.rest },
            Err(e) => Taken { result: Err(e), rest: option.rest },
            Ok(name) => Self::parse_option(uppercase(name), option.rest),
        }
    }

    /// The command that the arguments `args` give: a text, the key; a blob,
    /// the value; then the time to live, if any.
    pub open spec fn parse(args: Seq<FrameView>) -> Taken<SetView> {
        let key = take_string(args);
        match key.result {
            Err(e) => Taken { result: Err(e), rest: key.rest },
            Ok(key_name) => {
                let value = take_bytes(key.rest);
                match value.result {
                    Err(e) => Taken { result: Err(e), rest: value.rest },
                    Ok(data) => {
                        let expire = Self::parse_expire(value.rest);
                        Taken {
                            result: match expire.result {
                                Ok(expire) => Ok(SetView { key: key_name, value: data, expire }),
                                Err(e) => Err(e),
                            },
                            rest: expire.rest,
                        }
                    },
                }
            },
        }
    }

    /// Whether `db` can take the command at `now`: it has an id left, and the
    /// instant at which the value expires can be counted.
    pub open spec fn fits(self, db: StateView, now: u64) -> bool {
        db.can_set(self.expire, now)
    }
}

/// The time to live, in milliseconds, of `amount` units of `unit`
/// milliseconds.
fn ttl_millis(amount: i64, unit: u64) -> (ttl: Option<u64>)
    requires
        unit == 1 || unit == 1000,
    ensures
        ttl == time_to_live(amount, unit),
{
    if amount <= 0 {
        return None;
    }
    let amount = amount as u64;
    if amount > u64::MAX / unit {
        assert(amount * unit > u64::MAX) by (nonlinear_arith)
            requires
                amount > u64::MAX / unit,
                unit == 1 || unit == 1000,
        ;
        None
    } else {
        assert(amount * unit <= u64::MAX) by (nonlinear_arith)
            requires
                amount <= u64::MAX / unit,
                unit == 1 || unit == 1000,
        ;
        Some(amount * unit)
    }
}

/// Reads the time to live that the option named `option`, in upper case,
/// gives, from the arguments behind it.
pub fn parse_option(option: &str, parse: &mut Parse) -> (r: Result<Option<u64>, ParseError>)
    ensures
        final(parse)@ == SetView::parse_option(option@, old(parse)@).rest,
        match r {
            Ok(expire) => SetView::parse_option(option@, old(parse)@).result == Ok::<
                _,
                ParseErrorView,
            >(expire),
            Err(e) => SetView::parse_option(option@, old(parse)@).result == Err::<Option<u64>, _>(
                e@,
            ),
        },
{
    let unit: u64 = if str_eq(option, "EX") {
        1000
    } else if str_eq(option, "PX") {
        1
    } else {
        return Err(
            ParseError::Other("currently `SET` only supports the expiration option".to_owned()),
        );
    };
    match parse.next_int() {
        Ok(amount) => match ttl_millis(amount, unit) {
            Some(ttl) => Ok(Some(ttl)),
            None => Err(ParseError::Other("invalid expire time in 'set' command".to_owned())),
        },
        Err(e) => Err(e),
    }
}

/// Reads the time to live from the arguments that follow the value.
fn parse_expire(parse: &mut Parse) -> (r: Result<Option<u64>, ParseError>)
    ensures
        final(parse)@ == SetView::parse_expire(old(parse)@).rest,
        match r {
            Ok(expire) => SetView::parse_expire(old(parse)@).result == Ok::<_, ParseErrorView>(
                expire,
            ),
            Err(e) => SetView::parse_expire(old(parse)@).result == Err::<Option<u64>, _>(e@),
        },
{
    let name = match parse.next_string() {
        Ok(name) => name,
        Err(ParseError::EndOfStream) => {
            return Ok(None);
        },
        Err(e) => {
            return Err(e);
        },
    };
    let upper = to_uppercase(name.as_str());
    parse_option(upper.as_str(), parse)
}

impl SetCmd {
    /// A `SET` of `key` to `value`, to live for `expire` milliseconds if that
    /// is given.
    pub fn new(key: String, value: Bytes, expire: Option<u64>) -> (cmd: SetCmd)
        ensures
            cmd@ == (SetView { key: key@, value: blob_bytes(value), expire }),
    {
        SetCmd { key, value, expire }
    }

    /// The key to set.
    pub fn key(&self) -> (key: &str)
        ensures
            key@ == self@.key,
    {
        self.key.as_str()
    }

    /// The value to store.
    pub fn value(&self) -> (value: &Bytes)
        ensures
            blob_bytes(*value) == self@.value,
    {
        &self.value
    }

    /// The time that the value is to live, in milliseconds.
    pub fn expire(&self) -> (expire: Option<u64>)
        ensures
            expire == self@.expire,
    {
        self.expire
    }

    /// Reads the command from the arguments that follow its name.
    pub fn parse_frames(parse: &mut Parse) -> (r: Result<SetCmd, ParseError>)
        ensures
            final(parse)@ == SetView::parse(old(parse)@).rest,
            match r {
                Ok(cmd) => SetView::parse(old(parse)@).result == Ok::<_, ParseErrorView>(cmd@),
                Err(e) => SetView::parse(old(parse)@).result == Err::<SetView, _>(e@),
            },
    {
        let key = match parse.next_string() {
            Ok(key) => key,
            Err(e) => {
                return Err(e);
            },
        };
        let value = match parse.next_bytes() {
            Ok(value) => value,
            Err(e) => {
                return Err(e);
            },
        };
        match parse_expire(parse) {
            Ok(expire) => Ok(SetCmd { key, value, expire }),
            Err(e) => Err(e),
        }
    }

    /// Whether `db` can take the command at `now`.
    pub fn fits(&self, db: &State, now: u64) -> (fits: bool)
        ensures
            fits == self@.fits(db@, now),
    {
        db.can_set(self.expire, now)
    }

    /// Stores the value in `db` at the instant `now`, and gives the answer
    /// for the client and whether the purge task has to be woken.
    pub fn apply(self, db: &mut State, now: u64) -> (r: (Frame, bool))
        requires
            old(db)@.wf(),
            self@.fits(old(db)@, now),
        ensures
            final(db)@ == old(db)@.set(self@.key, self@.value, self@.expire, now),
            final(db)@.wf(),
            r.0@ == FrameView::Simple("OK"@),
            r.1 == old(db)@.set_notifies(self@.expire, now),
    {
        let notify = db.set(self.key, self.value, self.expire, now);
        (Frame::Simple("OK".to_owned()), notify)
    }
}

} // verus!
