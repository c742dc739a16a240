//! Points in time.
use vstd::prelude::*;

verus! {

/// The first second of the calendar: the start of the year -262143.
pub const FIRST_SECOND: i64 = -8_334_601_228_800;

/// The last second of the calendar: the end of the year 262142.
pub const LAST_SECOND: i64 = 8_210_266_876_799;

/// A second since the start of 1970 in UTC, and the nanoseconds after it.
pub struct Moment {
    pub seconds: int,
    pub nanos: int,
}

impl Moment {
    /// The calendar has this moment. A whole second and more may stand after
    /// the last second of a minute only: a leap second.
    pub open spec fn valid(self) -> bool {
        &&& FIRST_SECOND <= self.seconds <= LAST_SECOND
        &&& 0 <= self.nanos < 2_000_000_000
        &&& self.nanos >= 1_000_000_000 ==> self.seconds % 60 == 59
    }

    /// This moment is not later than the other.
    pub open spec fn not_after(self, other: Moment) -> bool {
        self.seconds < other.seconds || self.seconds == other.seconds && self.nanos <= other.nanos
    }
}

/// A valid moment in the notation of RFC 3339, as chrono writes it in UTC.
pub uninterp spec fn rfc3339_text(seconds: int, nanos: int) -> Seq<char>;

/// `chrono::DateTime::from_timestamp`, which gives nothing exactly for a moment
/// outside the calendar, and `chrono::DateTime::to_rfc3339` on what it gives.
/// What the notation looks like is not stated; it depends on the two numbers
/// alone.
#[verifier::external_body]
fn rfc3339(seconds: i64, nanos: u32) -> (res: Option<String>)
    ensures
        match res {
            Some(text) => (Moment { seconds: seconds as int, nanos: nanos as int }).valid() && text@
                == rfc3339_text(seconds as int, nanos as int),
            None => !(Moment { seconds: seconds as int, nanos: nanos as int }).valid(),
        },
{
    match chrono::DateTime::<chrono::Utc>::from_timestamp(seconds, nanos) {
        Some(time) => Some(time.to_rfc3339()),
        None => None,
    }
}

/// A moment of the calendar: seconds since the start of 1970 in UTC, and the
/// nanoseconds after that second.
#[derive(Debug, Clone, Copy, PartialEq, Eq)]
pub struct Timestamp {
    seconds: i64,
    nanos: u32,
}

impl View for Timestamp {
    type V = Moment;

    closed spec fn view(&self) -> Moment {
        Moment { seconds: self.seconds as int, nanos: self.nanos as int }
    }
}

impl Timestamp {
    #[verifier::type_invariant]
    spec fn wf(self) -> bool {
        self@.valid()
    }

    /// The moment with these numbers, if the calendar has it.
    pub fn new(seconds: i64, nanos: u32) -> (res: Option<Timestamp>)
        ensures
            ({
                let moment = Moment { seconds: seconds as int, nanos: nanos as int };
                match res {
                    Some(time) => moment.valid() && time@ == moment,
                    None => !moment.valid(),
                }
            }),
    {
        match rfc3339(seconds, nanos) {
            Some(_) => Some(Timestamp { seconds, nanos }),
            None => None,
        }
    }

    /// The seconds since the start of 1970.
    pub fn seconds(&self) -> (res: i64)
        ensures
            res == self@.seconds,
    {
        self.seconds
    }

    /// The nanoseconds after the second.
    pub fn nanos(&self) -> (res: u32)
        ensures
            res == self@.nanos,
    {
        self.nanos
    }

    /// The moment in the notation of RFC 3339.
    pub fn to_rfc3339(&self) -> (res: String)
        ensures
            res@ == rfc3339_text(self@.seconds, self@.nanos),
    {
        proof {
            use_type_invariant(self);
        }
        match rfc3339(self.seconds, self.nanos) {
            Some(text) => text,
            None => String::new(),
        }
    }

    /// Whether this moment is not later than `other`.
    pub fn not_after(&self, other: &Timestamp) -> (res: bool)
        ensures
            res == self@.not_after(other@),
    {
        self.seconds < other.seconds || self.seconds == other.seconds && self.nanos <= other.nanos
    }
}

} // verus!
