//! Wire events exchanged between hubs, connections and client sockets.

use vstd::prelude::*;
use vstd::string::StringExecFns;

verus! {

/// The kind of a wire event.
#[allow(non_camel_case_types)]
#[derive(Clone, Copy, Debug, PartialEq, Eq, Structural)]
pub enum MessageType {
    JOIN,
    LEAVE,
    TEXT,
    INIT,
    DISCONNECTED,
    CHAT_DELETED,
}

/// An event as it travels to and from a socket.
#[derive(Debug)]
pub struct SocketMessage {
    pub message_type: MessageType,
    pub message: String,
    pub id: Option<i64>,
    pub date: String,
}

/// The content of a [`SocketMessage`]: its kind, its body, the user it
/// originates from, if any, and its timestamp.
pub struct WireEvent {
    pub kind: MessageType,
    pub body: Seq<char>,
    pub origin: Option<i64>,
    pub timestamp: Seq<char>,
}

impl View for SocketMessage {
    type V = WireEvent;

    open spec fn view(&self) -> WireEvent {
        WireEvent {
            kind: self.message_type,
            body: self.message@,
            origin: self.id,
            timestamp: self.date@,
        }
    }
}

/// The pattern of every timestamp: `YYYY-MM-DD HH:MM:SS`.
pub const DATE_FORMATTING: &'static str = "%Y-%m-%d %H:%M:%S";

/// Whether `c` is one of the digits `0` to `9`.
pub open spec fn is_digit(c: char) -> bool {
    '0' <= c && c <= '9'
}

/// Whether `s` is a year as a printed clock reading has it: four digits
/// or, past the year 9999, a plus sign and then five digits or more.
pub open spec fn is_year_text(s: Seq<char>) -> bool {
    if s.len() == 4 {
        forall|i: int| 0 <= i < 4 ==> is_digit(#[trigger] s[i])
    } else {
        s.len() >= 6 && s[0] == '+' && forall|i: int|
            1 <= i < s.len() ==> is_digit(#[trigger] s[i])
    }
}

/// Whether `s` is `-MM-DD HH:MM:SS`, with a digit for each letter.
pub open spec fn is_day_and_time_text(s: Seq<char>) -> bool {
    &&& s.len() == 15
    &&& s[0] == '-' && is_digit(s[1]) && is_digit(s[2])
    &&& s[3] == '-' && is_digit(s[4]) && is_digit(s[5])
    &&& s[6] == ' ' && is_digit(s[7]) && is_digit(s[8])
    &&& s[9] == ':' && is_digit(s[10]) && is_digit(s[11])
    &&& s[12] == ':' && is_digit(s[13]) && is_digit(s[14])
}

/// The shape of a printed clock reading: the year, then `-MM-DD HH:MM:SS`.
/// Up to the year 9999 that is `YYYY-MM-DD HH:MM:SS`, nineteen characters.
pub open spec fn is_date_text(s: Seq<char>) -> bool {
    &&& s.len() >= 19
    &&& is_year_text(s.take(s.len() - 15))
    &&& is_day_and_time_text(s.skip(s.len() - 15))
}

/// What chrono prints in `pattern` for the instant `seconds` seconds after
/// the start of 1970 in UTC; `None` where chrono cannot hold the instant.
pub uninterp spec fn utc_date_text(seconds: i64, pattern: Seq<char>) -> Option<Seq<char>>;

/// The text of an instant beyond the dates that can be printed: the start
/// of 1970.
pub open spec fn epoch_text() -> Seq<char> {
    "1970-01-01 00:00:00"@
}

/// The timestamp of the instant `seconds` seconds after the start of 1970
/// in UTC: what chrono prints for it in [`DATE_FORMATTING`], and
/// [`epoch_text`] for an instant that chrono cannot hold.
pub open spec fn date_text(seconds: u64) -> Seq<char> {
    if seconds <= i64::MAX {
        match utc_date_text(seconds as i64, DATE_FORMATTING@) {
            Some(text) => text,
            None => epoch_text(),
        }
    } else {
        epoch_text()
    }
}

/// Calls `SystemTime::elapsed` on `UNIX_EPOCH`: the time that the system
/// clock shows, counted from the start of 1970, and `None` where the clock
/// stands before 1970. Trusted, and nothing is claimed of the reading.
#[verifier::external_body]
fn since_epoch() -> (r: Option<std::time::Duration>) {
    std::time::UNIX_EPOCH.elapsed().ok()
}

/// Calls `Duration::as_secs`. Trusted, and nothing is claimed of the
/// number.
#[verifier::external_body]
fn whole_seconds(elapsed: &std::time::Duration) -> (r: u64) {
    elapsed.as_secs()
}

/// Makes the instant with `chrono::DateTime::from_timestamp` and prints it
/// with `DateTime::format`. Trusted: the result is what [`utc_date_text`]
/// names, `None` where `from_timestamp` gives none. A text that comes back
/// has the shape that chrono gives this pattern from 1970 on: the year, a
/// hyphen, two digits each for month and day, a space, and two digits each
/// for hour, minute and second with colons between, where the year is four
/// digits up to 9999 and a plus sign and its digits after. Printing panics
/// on a pattern that chrono cannot read, which the precondition rules out.
#[verifier::external_body]
fn print_utc(seconds: i64, pattern: &str) -> (r: Option<String>)
    requires
        0 <= seconds,
        pattern@ == DATE_FORMATTING@,
    ensures
        r.is_some() == utc_date_text(seconds, pattern@).is_some(),
        r matches Some(text) ==> utc_date_text(seconds, pattern@) == Some(text@) && is_date_text(
            text@,
        ),
{
    match chrono::DateTime::from_timestamp(seconds, 0) {
        Some(date_time) => Some(date_time.format(pattern).to_string()),
        None => None,
    }
}

/// The epoch's text has the shape of a timestamp.
pub proof fn lemma_epoch_text()
    ensures
        is_date_text(epoch_text()),
{
    reveal_strlit("1970-01-01 00:00:00");
    let s = epoch_text();
    assert(s.take(4) =~= seq!['1', '9', '7', '0']);
    assert(s.skip(4) =~= seq![
        '-',
        '0',
        '1',
        '-',
        '0',
        '1',
        ' ',
        '0',
        '0',
        ':',
        '0',
        '0',
        ':',
        '0',
        '0',
    ]);
}

/// The timestamp that stands for what was printed: the printed text, and
/// the text of the start of 1970 where nothing was printed.
pub fn printed_or_epoch(printed: Option<String>) -> (r: String)
    ensures
        r@ == (match printed {
            Some(text) => text@,
            None => epoch_text(),
        }),
{
    match printed {
        Some(text) => text,
        None => String::from_str("1970-01-01 00:00:00"),
    }
}

/// The timestamp of the instant `seconds` seconds after the start of 1970
/// in UTC, in the pattern [`DATE_FORMATTING`]. An instant beyond the dates
/// that chrono can hold gives the text of the start of 1970.
pub fn format_date(seconds: u64) -> (r: String)
    ensures
        r@ == date_text(seconds),
        is_date_text(r@),
{
    proof {
        lemma_epoch_text();
    }
    if seconds <= i64::MAX as u64 {
        printed_or_epoch(print_utc(seconds as i64, DATE_FORMATTING))
    } else {
        printed_or_epoch(None)
    }
}

/// The current UTC time in the pattern [`DATE_FORMATTING`]: the timestamp
/// of the second that the system clock shows. A clock that stands before
/// 1970 counts as standing at its start. The text has the shape
/// [`is_date_text`], which is `YYYY-MM-DD HH:MM:SS` up to the year 9999.
pub fn current_date() -> (r: String)
    ensures
        is_date_text(r@),
        exists|seconds: u64| r@ == #[trigger] date_text(seconds),
{
    let seconds: u64 = match since_epoch() {
        Some(elapsed) => whole_seconds(&elapsed),
        None => 0,
    };
    let r = format_date(seconds);
    assert(r@ == date_text(seconds));
    r
}

impl Clone for SocketMessage {
    fn clone(&self) -> (r: Self)
        ensures
            r@ == self@,
    {
        SocketMessage {
            message_type: self.message_type,
            message: self.message.clone(),
            id: self.id,
            date: self.date.clone(),
        }
    }
}

impl Default for SocketMessage {
    /// An empty TEXT event without origin, stamped with the current time.
    fn default() -> (r: Self)
        ensures
            r@.kind == MessageType::TEXT,
            r@.body == Seq::<char>::empty(),
            r@.origin.is_none(),
            is_date_text(r@.timestamp),
    {
        SocketMessage::dated(String::new(), MessageType::TEXT, None, current_date())
    }
}

impl SocketMessage {
    /// An event with the given fields.
    pub fn dated(message: String, message_type: MessageType, id: Option<i64>, date: String) -> (r:
        Self)
        ensures
            r@ == (WireEvent { kind: message_type, body: message@, origin: id, timestamp: date@ }),
    {
        SocketMessage { message_type, message, id, date }
    }

    /// An event with the given body, kind and origin, stamped with the
    /// current time.
    pub fn new(message: String, message_type: MessageType, id: Option<i64>) -> (r: Self)
        ensures
            r@.kind == message_type,
            r@.body == message@,
            r@.origin == id,
            is_date_text(r@.timestamp),
    {
        SocketMessage::dated(message, message_type, id, current_date())
    }

    /// What an inbound record becomes at time `date`: a TEXT event that
    /// keeps the record's body and nothing else of it.
    pub open spec fn inbound(decoded: WireEvent, date: Seq<char>) -> WireEvent {
        WireEvent { kind: MessageType::TEXT, body: decoded.body, origin: None, timestamp: date }
    }

    /// The lenient reading of an inbound frame at a given time. `decoded` is
    /// the record that the frame's text holds, `None` where the text holds
    /// none. A record gives a TEXT event with its body; anything else gives
    /// the empty TEXT event.
    pub fn parse_at(decoded: Option<SocketMessage>, date: String) -> (r: Self)
        ensures
            r@ == (match decoded {
                Some(m) => Self::inbound(m@, date@),
                None => WireEvent {
                    kind: MessageType::TEXT,
                    body: Seq::<char>::empty(),
                    origin: None,
                    timestamp: date@,
                },
            }),
    {
        match decoded {
            Some(object) => SocketMessage::dated(object.message, MessageType::TEXT, None, date),
            None => SocketMessage::dated(String::new(), MessageType::TEXT, None, date),
        }
    }

    /// The lenient reading of an inbound frame: never fails, and always
    /// gives a TEXT event without origin. The body is that of the decoded
    /// record, and empty where the frame held no record.
    pub fn parse(decoded: Option<SocketMessage>) -> (r: Self)
        ensures
            r@.kind == MessageType::TEXT,
            r@.origin.is_none(),
            r@.body == (match decoded {
                Some(m) => m@.body,
                None => Seq::<char>::empty(),
            }),
            is_date_text(r@.timestamp),
    {
        SocketMessage::parse_at(decoded, current_date())
    }

    /// The strict reading of an inbound frame: `None` where the frame held
    /// no record, else a TEXT event without origin that keeps the record's
    /// body.
    pub fn parse_failable(decoded: Option<SocketMessage>) -> (r: Option<Self>)
        ensures
            r.is_some() == decoded.is_some(),
            r matches Some(m) ==> {
                &&& m@.kind == MessageType::TEXT
                &&& m@.origin.is_none()
                &&& m@.body == decoded.unwrap()@.body
                &&& is_date_text(m@.timestamp)
            },
    {
        match decoded {
            Some(object) => Some(
                SocketMessage::dated(object.message, MessageType::TEXT, None, current_date()),
            ),
            None => None,
        }
    }
}

} // verus!
