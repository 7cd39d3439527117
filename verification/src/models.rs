//! The values that the gateway stores and exchanges: timestamps in the
//! stored text form, shard sessions and statuses, and the opcodes of the
//! commands that arrive on the send queue.
use vstd::prelude::*;

verus! {

/// The first instant that the timestamps can hold: -9999-01-01T00:00:00
/// UTC, in nanoseconds since the Unix epoch.
pub const MIN_UNIX_NANOS: i128 = -377_705_116_800_000_000_000i128;

/// The last instant that the timestamps can hold: 9999-12-31T23:59:59.999999999
/// UTC, in nanoseconds since the Unix epoch.
pub const MAX_UNIX_NANOS: i128 = 253_402_300_799_999_999_999i128;

/// How a timestamp is written in the cache.
pub const TIMESTAMP_FORMAT: &'static str = "[year]-[month]-[day]T[hour]:[minute]:[second].[subsecond]";

/// How a stored timestamp is read, once the UTC offset `+00` is appended.
pub const TIMESTAMP_PARSE_FORMAT: &'static str = "[year]-[month]-[day]T[hour]:[minute]:[second].[subsecond]+[offset_hour]";

pub const NANOS_PER_MILLI: i128 = 1_000_000i128;

/// The text that `time` formats the instant `nanos` (UTC) into with the
/// format description `description`, if it can.
pub uninterp spec fn formatted_datetime(nanos: i128, description: Seq<char>) -> Option<Seq<char>>;

/// The instant, in nanoseconds since the Unix epoch, that `time` reads from
/// `text` with the format description `description`, if it can.
pub uninterp spec fn parsed_datetime(text: Seq<char>, description: Seq<char>) -> Option<i128>;

/// The current instant in nanoseconds since the Unix epoch, through
/// `time::OffsetDateTime::now_utc` and `unix_timestamp_nanos`: only its range
/// is claimed, as every `OffsetDateTime` lies between -9999 and 9999.
#[verifier::external_body]
fn now_unix_nanos() -> (nanos: i128)
    ensures
        MIN_UNIX_NANOS <= nanos <= MAX_UNIX_NANOS,
{
    time::OffsetDateTime::now_utc().unix_timestamp_nanos()
}

/// `time::OffsetDateTime::format` of the instant `nanos` with the format
/// description that `time::format_description::parse` reads from
/// `description`: the text is the named result; `None` when the instant is
/// out of range or either step fails. With the stored format and an instant
/// in range, the text is written and reads back, once the offset `+00` is
/// appended, as the same instant: the year is written as an optional `-`
/// and four digits and read as an optional sign and four digits, the other
/// fields as two digits, the subsecond as one to nine digits with trailing
/// zeros dropped and read back to the nanosecond, and the offset is zero.
#[verifier::external_body]
fn format_datetime(nanos: i128, description: &str) -> (text: Option<String>)
    ensures
        match text {
            Some(t) => formatted_datetime(nanos, description@) == Some(t@),
            None => formatted_datetime(nanos, description@) is None,
        },
        description@ == TIMESTAMP_FORMAT@ && in_range(nanos as int) ==> text is Some,
        description@ == TIMESTAMP_FORMAT@ && in_range(nanos as int) ==>
            parsed_datetime(text.unwrap()@ + utc_suffix(), TIMESTAMP_PARSE_FORMAT@) == Some(nanos),
{
    let items = time::format_description::parse(description).ok()?;
    let datetime = time::OffsetDateTime::from_unix_timestamp_nanos(nanos).ok()?;
    datetime.format(&items).ok()
}

/// `time::OffsetDateTime::parse` of `text` with the format description that
/// `time::format_description::parse` reads from `description`, as
/// nanoseconds since the Unix epoch: the instant is the named result. Its
/// range is left unsaid: the date read is in the supported range in the
/// offset read, and the offset can move the instant past either end.
#[verifier::external_body]
fn parse_datetime(text: &str, description: &str) -> (nanos: Option<i128>)
    ensures
        nanos == parsed_datetime(text@, description@),
{
    let items = time::format_description::parse(description).ok()?;
    time::OffsetDateTime::parse(text, &items).ok().map(|datetime| datetime.unix_timestamp_nanos())
}

/// A UTC instant, stored in the cache as text with sub-second precision.
#[derive(Clone, Copy, Debug, PartialEq, Eq)]
pub struct FormattedDateTime {
    pub nanos: i128,
}

/// Whether `nanos` is an instant that a timestamp can hold.
pub open spec fn in_range(nanos: int) -> bool {
    MIN_UNIX_NANOS <= nanos <= MAX_UNIX_NANOS
}

impl FormattedDateTime {
    /// The instant is one that `time` can represent.
    pub open spec fn wf(&self) -> bool {
        in_range(self.nanos as int)
    }

    /// The current instant.
    pub fn now() -> (now: Self)
        ensures
            now.wf(),
    {
        FormattedDateTime { nanos: now_unix_nanos() }
    }

    /// The instant `millis` milliseconds later (earlier when negative); the
    /// result must be representable, as adding past it panics.
    pub fn add_millis(&self, millis: i64) -> (later: Self)
        requires
            in_range(self.nanos + millis * NANOS_PER_MILLI),
        ensures
            later.nanos == self.nanos + millis * NANOS_PER_MILLI,
            later.wf(),
    {
        FormattedDateTime { nanos: self.nanos + (millis as i128) * NANOS_PER_MILLI }
    }

    /// The instant `millis` milliseconds earlier; the result must be
    /// representable, as subtracting past it panics.
    pub fn sub_millis(&self, millis: i64) -> (earlier: Self)
        requires
            in_range(self.nanos - millis * NANOS_PER_MILLI),
        ensures
            earlier.nanos == self.nanos - millis * NANOS_PER_MILLI,
            earlier.wf(),
    {
        FormattedDateTime { nanos: self.nanos - (millis as i128) * NANOS_PER_MILLI }
    }

    /// The time from `other` to `self`, in nanoseconds.
    pub fn since(&self, other: &Self) -> (nanos: i128)
        requires
            self.wf(),
            other.wf(),
        ensures
            nanos == self.nanos - other.nanos,
    {
        self.nanos - other.nanos
    }

    /// The stored text of the instant, such as `2021-03-04T05:06:07.89`.
    /// Every instant that a timestamp can hold is written, and its text is
    /// read back by `parse` as the same instant.
    pub fn format(&self) -> (text: Option<String>)
        ensures
            match text {
                Some(t) => formatted_datetime(self.nanos, TIMESTAMP_FORMAT@) == Some(t@),
                None => formatted_datetime(self.nanos, TIMESTAMP_FORMAT@) is None,
            },
            self.wf() ==> (text matches Some(t)
                && parsed_datetime(t@ + utc_suffix(), TIMESTAMP_PARSE_FORMAT@) == Some(self.nanos)),
    {
        format_datetime(self.nanos, TIMESTAMP_FORMAT)
    }

    /// The instant that a stored text gives: the text is read as UTC, by
    /// appending the offset `+00`; an instant out of the supported range is
    /// refused.
    pub fn parse(text: &str) -> (res: Option<Self>)
        ensures
            match res {
                Some(t) => t.wf() && parsed_datetime(text@ + utc_suffix(), TIMESTAMP_PARSE_FORMAT@) == Some(t.nanos),
                None => match parsed_datetime(text@ + utc_suffix(), TIMESTAMP_PARSE_FORMAT@) {
                    Some(n) => !in_range(n as int),
                    None => true,
                },
            },
    {
        proof {
            reveal_strlit("+00");
            assert("+00"@ =~= utc_suffix());
        }
        let full = String::from_str(text).concat("+00");
        match parse_datetime(full.as_str(), TIMESTAMP_PARSE_FORMAT) {
            Some(nanos) => if MIN_UNIX_NANOS <= nanos && nanos <= MAX_UNIX_NANOS {
                Some(FormattedDateTime { nanos })
            } else {
                None
            },
            None => None,
        }
    }
}

/// The UTC offset appended to a stored timestamp before it is read.
pub open spec fn utc_suffix() -> Seq<char> {
    seq!['+', '0', '0']
}

/// The session of a shard, kept to resume it after a restart.
#[derive(Clone, Debug, PartialEq, Eq)]
pub struct SessionInfo {
    pub session_id: String,
    pub sequence: u64,
}

/// The status of a shard as stored under `gateway_statuses`.
#[derive(Clone, Debug, PartialEq, Eq)]
pub struct StatusInfo {
    pub shard: u64,
    pub status: String,
    pub latency: u64,
    pub last_ack: FormattedDateTime,
}

/// What a command on the send queue asks for: a payload to send through a
/// shard, or a reconnect of the shard.
#[derive(Clone, Copy, Debug, PartialEq, Eq)]
pub enum DeliveryOpcode {
    Send,
    Reconnect,
}

impl DeliveryOpcode {
    /// The opcode of its number on the wire (`0` is `Send`, `1` is
    /// `Reconnect`), if it is one.
    pub fn from_u8(code: u8) -> (op: Option<DeliveryOpcode>)
        ensures
            code == 0 ==> op == Some(DeliveryOpcode::Send),
            code == 1 ==> op == Some(DeliveryOpcode::Reconnect),
            code > 1 ==> op is None,
    {
        match code {
            0 => Some(DeliveryOpcode::Send),
            1 => Some(DeliveryOpcode::Reconnect),
            _ => None,
        }
    }

    /// The number of the opcode on the wire.
    pub fn to_u8(&self) -> (code: u8)
        ensures
            *self == DeliveryOpcode::Send ==> code == 0,
            *self == DeliveryOpcode::Reconnect ==> code == 1,
    {
        match self {
            DeliveryOpcode::Send => 0,
            DeliveryOpcode::Reconnect => 1,
        }
    }
}

/// Reading the number of an opcode gives the opcode back.
pub proof fn law_opcode_number_roundtrip(op: DeliveryOpcode, code: u8)
    requires
        (op == DeliveryOpcode::Send ==> code == 0),
        (op == DeliveryOpcode::Reconnect ==> code == 1),
    ensures
        code == 0 || code == 1,
        (code == 0) == (op == DeliveryOpcode::Send),
{
}

} // verus!
