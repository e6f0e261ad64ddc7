use vstd::prelude::*;

verus! {

/// Largest value that encodes a clock time as `HHMM`.
pub const LAST_MINUTE: u16 = 2359;

/// The operating window of one weekday.
///
/// An open day carries its opening and closing time, each encoded as `HHMM`
/// on a 24-hour clock (630 is 06:30, 2230 is 22:30). A closed day carries
/// neither.
#[derive(Copy, Clone, Debug)]
pub struct Daily {
    opening: Option<u16>,
    closing: Option<u16>,
    open: bool,
}

impl Daily {
    #[verifier::type_invariant]
    spec fn wf(&self) -> bool {
        if self.open {
            &&& self.opening is Some
            &&& self.closing is Some
            &&& self.opening->0 <= self.closing->0
            &&& self.closing->0 <= LAST_MINUTE
        } else {
            self.opening is None && self.closing is None
        }
    }

    /// Whether the venue opens on this day.
    pub closed spec fn spec_open(&self) -> bool {
        self.open
    }

    /// The opening time as `HHMM`, on an open day.
    pub closed spec fn spec_opening(&self) -> Option<u16> {
        self.opening
    }

    /// The closing time as `HHMM`, on an open day.
    pub closed spec fn spec_closing(&self) -> Option<u16> {
        self.closing
    }

    /// The day that is open from `opening` to `closing`.
    pub closed spec fn open_day(opening: u16, closing: u16) -> Daily {
        Daily { opening: Some(opening), closing: Some(closing), open: true }
    }

    /// The day on which the venue stays closed.
    pub closed spec fn closed_day() -> Daily {
        Daily { opening: None, closing: None, open: false }
    }

    /// What an open day and a closed day hold.
    pub proof fn lemma_open_day(opening: u16, closing: u16)
        ensures
            Daily::open_day(opening, closing).spec_open(),
            Daily::open_day(opening, closing).spec_opening() == Some(opening),
            Daily::open_day(opening, closing).spec_closing() == Some(closing),
            !Daily::closed_day().spec_open(),
            Daily::closed_day().spec_opening() is None,
            Daily::closed_day().spec_closing() is None,
    {
    }

    /// A day that is open from `opening` to `closing`, both inclusive.
    pub fn new_open(opening: u16, closing: u16) -> (day: Self)
        requires
            opening <= closing,
            closing <= LAST_MINUTE,
        ensures
            day == Daily::open_day(opening, closing),
            day.spec_open(),
            day.spec_opening() == Some(opening),
            day.spec_closing() == Some(closing),
    {
        Self { opening: Some(opening), closing: Some(closing), open: true }
    }

    /// A day on which the venue stays closed.
    pub fn new_closed() -> (day: Self)
        ensures
            day == Daily::closed_day(),
            !day.spec_open(),
            day.spec_opening() is None,
            day.spec_closing() is None,
    {
        Self { opening: None, closing: None, open: false }
    }

    /// A day that is open from `opening` to `closing`, or `None` where the two
    /// are not ordered or lie beyond the last minute of a day.
    pub fn try_new_open(opening: u16, closing: u16) -> (day: Option<Self>)
        ensures
            opening <= closing <= LAST_MINUTE ==> day == Some(Daily::open_day(opening, closing))
                && day->0.spec_open()
                && day->0.spec_opening() == Some(opening) && day->0.spec_closing() == Some(
                closing,
            ),
            !(opening <= closing <= LAST_MINUTE) ==> day is None,
    {
        if opening <= closing && closing <= LAST_MINUTE {
            Some(Self::new_open(opening, closing))
        } else {
            None
        }
    }

    /// Whether the venue opens on this day.
    #[verifier::when_used_as_spec(spec_open)]
    pub fn open(&self) -> (r: bool)
        ensures
            r == self.spec_open(),
            r == (self.spec_opening() is Some),
            r == (self.spec_closing() is Some),
    {
        proof {
            use_type_invariant(self);
        }
        self.open
    }

    /// The opening time as `HHMM`; `None` on a closed day.
    #[verifier::when_used_as_spec(spec_opening)]
    pub fn opening(&self) -> (r: Option<u16>)
        ensures
            r == self.spec_opening(),
            r matches Some(opening) ==> self.spec_closing() matches Some(closing) && opening
                <= closing <= LAST_MINUTE,
    {
        proof {
            use_type_invariant(self);
        }
        self.opening
    }

    /// The closing time as `HHMM`; `None` on a closed day.
    #[verifier::when_used_as_spec(spec_closing)]
    pub fn closing(&self) -> (r: Option<u16>)
        ensures
            r == self.spec_closing(),
            r matches Some(closing) ==> self.spec_opening() matches Some(opening) && opening
                <= closing <= LAST_MINUTE,
    {
        proof {
            use_type_invariant(self);
        }
        self.closing
    }
}

} // verus!
