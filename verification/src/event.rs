//! Dated shocks and named analysis windows.
use crate::day::{date_text, weekday_of, Day};
use vstd::prelude::*;
use vstd::string::*;

verus! {

#[derive(Debug, PartialEq, Eq)]
pub struct Event {
    pub id: String,
    pub name: String,
    /// Seconds since the Unix epoch (UTC).
    pub timestamp: i64,
}

/// Which analysis sections evaluate a named window.
///
/// Omitted `applies_to` in project.toml defaults to both [`WindowUse::Response`]
/// and [`WindowUse::Flow`].
#[derive(Debug, Clone, Copy, PartialEq, Eq, Structural, Hash)]
pub enum WindowUse {
    Response,
    Flow,
}

#[derive(Debug, PartialEq, Eq)]
pub struct EventWindow {
    pub name: String,
    pub start: Day,
    pub end: Day,
    /// Non-empty after load. Default policy: response + flow.
    pub applies_to: Vec<WindowUse>,
}

/// How expected observation days are counted inside a window for coverage.
///
/// - `Continuous`: every calendar day in `[start, end]` (24/7 on-chain series).
/// - `ExchangeSessions`: Monday–Friday only. Weekends are not gaps.
#[derive(Debug, Clone, Copy, PartialEq, Eq, Structural, Hash)]
pub enum SessionCalendar {
    Continuous,
    ExchangeSessions,
}

impl SessionCalendar {
    /// The calendar used when an asset declares none.
    pub fn default_calendar() -> (r: SessionCalendar)
        ensures
            r == SessionCalendar::Continuous,
    {
        SessionCalendar::Continuous
    }

    /// Label used in coverage gap reason strings.
    pub fn coverage_label(self) -> (r: &'static str)
        ensures
            r@ == calendar_label(self),
    {
        match self {
            SessionCalendar::Continuous => "calendar",
            SessionCalendar::ExchangeSessions => "weekday",
        }
    }
}

/// The label of a calendar in gap reasons.
pub open spec fn calendar_label(c: SessionCalendar) -> Seq<char> {
    match c {
        SessionCalendar::Continuous => "calendar"@,
        SessionCalendar::ExchangeSessions => "weekday"@,
    }
}

/// Whether the day numbered `n` is an expected session under `c`.
pub open spec fn is_session(c: SessionCalendar, n: int) -> bool {
    match c {
        SessionCalendar::Continuous => true,
        SessionCalendar::ExchangeSessions => weekday_of(n) < 5,
    }
}

/// Number of expected sessions among the days numbered `a..=b`.
pub open spec fn session_count(c: SessionCalendar, a: int, b: int) -> nat
    decreases b - a + 1,
{
    if b < a {
        0
    } else {
        session_count(c, a, b - 1) + if is_session(c, b) { 1nat } else { 0nat }
    }
}

/// Whether some day in `obs` has number `n`.
pub open spec fn observed_on(obs: Seq<Day>, n: int) -> bool {
    exists|i: int| 0 <= i < obs.len() && (#[trigger] obs[i]).num() == n
}

/// Numbers of the days in `a..=b`, in increasing order, that are expected
/// sessions under `c` and are not observed.
pub open spec fn missing_days(c: SessionCalendar, a: int, b: int, obs: Seq<Day>) -> Seq<int>
    decreases b - a + 1,
{
    if b < a {
        Seq::empty()
    } else {
        missing_days(c, a, b - 1, obs) + if is_session(c, b) && !observed_on(obs, b) {
            seq![b]
        } else {
            Seq::empty()
        }
    }
}

/// Whether `w` contains the day numbered `n`.
pub open spec fn window_has(w: EventWindow, n: int) -> bool {
    w.start.num() <= n <= w.end.num()
}

/// Whether the window is evaluated by the response section.
pub open spec fn window_for_response(w: EventWindow) -> bool {
    w.applies_to@.contains(WindowUse::Response)
}

/// Whether the window is evaluated by the flow section.
pub open spec fn window_for_flow(w: EventWindow) -> bool {
    w.applies_to@.contains(WindowUse::Flow)
}

/// The message for a window that ends before it starts.
pub open spec fn reversed_window_message(w: EventWindow) -> Seq<char> {
    "window '"@ + w.name@ + "': end "@ + date_text(w.end.num()) + " is before start "@
        + date_text(w.start.num())
}

/// The message for a window evaluated by no section.
pub open spec fn unused_window_message(w: EventWindow) -> Seq<char> {
    "window '"@ + w.name@ + "': applies_to must be non-empty (use response and/or flow)"@
}

fn uses_contain(uses: &Vec<WindowUse>, u: WindowUse) -> (r: bool)
    ensures
        r == uses@.contains(u),
{
    let mut i: usize = 0;
    while i < uses.len()
        invariant
            i <= uses.len(),
            forall|j: int| 0 <= j < i ==> uses@[j] != u,
        decreases uses.len() - i,
    {
        if uses[i] == u {
            return true;
        }
        i += 1;
    }
    false
}

impl Clone for EventWindow {
    fn clone(&self) -> (r: Self)
        ensures
            r.name == self.name,
            r.start == self.start,
            r.end == self.end,
            r.applies_to@ == self.applies_to@,
    {
        let applies_to = self.applies_to.clone();
        proof {
            assert(applies_to@ =~= self.applies_to@);
        }
        EventWindow { name: self.name.clone(), start: self.start, end: self.end, applies_to }
    }
}

impl EventWindow {
    pub fn contains(&self, day: Day) -> (r: bool)
        ensures
            r == window_has(*self, day.num()),
    {
        self.start.number() <= day.number() && day.number() <= self.end.number()
    }

    pub fn applies_to_response(&self) -> (r: bool)
        ensures
            r == window_for_response(*self),
    {
        uses_contain(&self.applies_to, WindowUse::Response)
    }

    pub fn applies_to_flow(&self) -> (r: bool)
        ensures
            r == window_for_flow(*self),
    {
        uses_contain(&self.applies_to, WindowUse::Flow)
    }

    pub fn validate(&self) -> (r: Result<(), String>)
        ensures
            self.end.num() < self.start.num() ==> (r matches Err(m) && m@
                == reversed_window_message(*self)),
            self.start.num() <= self.end.num() && self.applies_to@.len() == 0 ==> (r matches Err(
                m,
            ) && m@ == unused_window_message(*self)),
            r is Ok <==> (self.start.num() <= self.end.num() && self.applies_to@.len() > 0),
    {
        if self.end.number() < self.start.number() {
            let m = String::from_str("window '").concat(self.name.as_str()).concat(
                "': end ",
            ).concat(self.end.to_text().as_str()).concat(" is before start ").concat(
                self.start.to_text().as_str(),
            );
            return Err(m);
        }
        if self.applies_to.len() == 0 {
            let m = String::from_str("window '").concat(self.name.as_str()).concat(
                "': applies_to must be non-empty (use response and/or flow)",
            );
            return Err(m);
        }
        Ok(())
    }

    /// Inclusive calendar length (always continuous days).
    pub fn calendar_day_count(&self) -> (r: usize)
        requires
            self.start.num() <= self.end.num(),
        ensures
            r == self.end.num() - self.start.num() + 1,
    {
        (self.end.number() - self.start.number()) as usize + 1
    }

    /// Expected observation slots for coverage under `calendar`.
    pub fn expected_session_count(&self, calendar: SessionCalendar) -> (r: usize)
        requires
            self.start.num() <= self.end.num(),
        ensures
            r == session_count(calendar, self.start.num(), self.end.num()),
    {
        match calendar {
            SessionCalendar::Continuous => {
                proof {
                    lemma_continuous_count(self.start.num(), self.end.num());
                }
                self.calendar_day_count()
            },
            SessionCalendar::ExchangeSessions => self.weekday_count(),
        }
    }

    /// Count of Mondays–Fridays in the inclusive range.
    pub fn weekday_count(&self) -> (r: usize)
        ensures
            r == session_count(SessionCalendar::ExchangeSessions, self.start.num(), self.end.num()),
    {
        if self.end.number() < self.start.number() {
            return 0;
        }
        let mut n: usize = 0;
        let mut d = self.start;
        loop
            invariant
                self.start.num() <= d.num() <= self.end.num(),
                n == session_count(SessionCalendar::ExchangeSessions, self.start.num(), d.num() - 1),
                n <= d.num() - self.start.num(),
                self.end.num() - self.start.num() < 200_000_000,
            decreases self.end.num() - d.num(),
        {
            proof {
                use_type_invariant(&self.start);
                use_type_invariant(&self.end);
            }
            if d.weekday_from_monday() < 5 {
                n += 1;
            }
            if d.number() >= self.end.number() {
                return n;
            }
            d = d.succ().unwrap();
        }
    }

    /// Days that count as expected sessions but have no observation, in increasing order.
    pub fn missing_sessions(&self, calendar: SessionCalendar, observed: &Vec<Day>) -> (r: Vec<Day>)
        ensures
            r@.map_values(|d: Day| d.num()) == missing_days(
                calendar,
                self.start.num(),
                self.end.num(),
                observed@,
            ),
    {
        let mut missing: Vec<Day> = Vec::new();
        if self.end.number() < self.start.number() {
            proof {
                assert(missing@.map_values(|d: Day| d.num()) =~= Seq::<int>::empty());
            }
            return missing;
        }
        let mut d = self.start;
        loop
            invariant
                self.start.num() <= d.num() <= self.end.num(),
                missing@.map_values(|d: Day| d.num()) == missing_days(
                    calendar,
                    self.start.num(),
                    d.num() - 1,
                    observed@,
                ),
            decreases self.end.num() - d.num(),
        {
            proof {
                use_type_invariant(&self.end);
            }
            let expected = match calendar {
                SessionCalendar::Continuous => true,
                SessionCalendar::ExchangeSessions => d.weekday_from_monday() < 5,
            };
            let ghost before = missing@;
            if expected && !day_observed(observed, d) {
                missing.push(d);
                proof {
                    assert(missing@.map_values(|d: Day| d.num()) =~= before.map_values(
                        |d: Day| d.num(),
                    ).push(d.num()));
                }
            } else {
                proof {
                    assert(missing_days(calendar, self.start.num(), d.num(), observed@)
                        =~= missing_days(calendar, self.start.num(), d.num() - 1, observed@));
                }
            }
            if d.number() >= self.end.number() {
                return missing;
            }
            d = d.succ().unwrap();
        }
    }
}

/// Whether some day in `obs` is `d`.
fn day_observed(obs: &Vec<Day>, d: Day) -> (r: bool)
    ensures
        r == observed_on(obs@, d.num()),
{
    let mut i: usize = 0;
    while i < obs.len()
        invariant
            i <= obs.len(),
            forall|j: int| 0 <= j < i ==> (#[trigger] obs@[j]).num() != d.num(),
        decreases obs.len() - i,
    {
        if obs[i].number() == d.number() {
            return true;
        }
        i += 1;
    }
    false
}

proof fn lemma_continuous_count(a: int, b: int)
    requires
        a <= b + 1,
    ensures
        session_count(SessionCalendar::Continuous, a, b) == b - a + 1,
    decreases b - a + 1,
{
    if b >= a {
        lemma_continuous_count(a, b - 1);
    }
}

/// Default when `applies_to` is omitted: both response and flow.
pub fn default_window_applies_to() -> (r: Vec<WindowUse>)
    ensures
        r@ == seq![WindowUse::Response, WindowUse::Flow],
{
    let mut v = Vec::new();
    v.push(WindowUse::Response);
    v.push(WindowUse::Flow);
    proof {
        assert(v@ =~= seq![WindowUse::Response, WindowUse::Flow]);
    }
    v
}

} // verus!
