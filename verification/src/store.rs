//! The flight store: three in-memory tables (pilots, aircraft, flights) and
//! the service operations over them. Every mutation enforces the business
//! rules — a flight plan must hold visible text, a departure may not lie in
//! the past at scheduling time, and flight identifiers stay unique — and the
//! upcoming and history views are filters of the flight table by departure
//! time.

use vstd::prelude::*;
use crate::models::Aircraft;
use crate::models::Flight;
use crate::models::FlightError;
use crate::models::Pilot;
use crate::models::blank;
use crate::models::plan_is_blank;

verus! {

/// Whether some stored flight carries the given identifier.
pub open spec fn has_flight(fs: Seq<Flight>, id: u32) -> bool {
    exists|i: int| 0 <= i < fs.len() && (#[trigger] fs[i]).flight_id == id
}

/// No two stored flights share an identifier.
pub open spec fn unique_flight_ids(fs: Seq<Flight>) -> bool {
    forall|i: int, j: int|
        0 <= i < fs.len() && 0 <= j < fs.len() && i != j ==> (#[trigger] fs[i]).flight_id != (
        #[trigger] fs[j]).flight_id
}

/// The flights departing at or after the given moment: the upcoming ones.
pub open spec fn departs_at_or_after(now: i64) -> spec_fn(Flight) -> bool {
    |f: Flight| f.departure_time >= now
}

/// The flights departing strictly before the given moment: the history.
pub open spec fn departs_before(now: i64) -> spec_fn(Flight) -> bool {
    |f: Flight| f.departure_time < now
}

/// The flights whose identifier differs from the given one.
pub open spec fn keeps_id_other_than(id: u32) -> spec_fn(Flight) -> bool {
    |f: Flight| f.flight_id != id
}

/// The stored flights that are upcoming at the given moment, in store order.
pub open spec fn upcoming_flights(fs: Seq<Flight>, now: i64) -> Seq<Flight> {
    fs.filter(departs_at_or_after(now))
}

/// The stored flights that already departed at the given moment, in store
/// order.
pub open spec fn history_flights(fs: Seq<Flight>, now: i64) -> Seq<Flight> {
    fs.filter(departs_before(now))
}

/// The stored flights with every record of the given identifier removed.
pub open spec fn flights_without(fs: Seq<Flight>, id: u32) -> Seq<Flight> {
    fs.filter(keeps_id_other_than(id))
}

/// Scheduling is allowed exactly when the plan holds visible text, the
/// departure does not lie in the past, and the identifier is not yet taken.
pub open spec fn schedule_allowed(fs: Seq<Flight>, f: Flight, now: i64) -> bool {
    &&& !blank(f.flight_plan@)
    &&& f.departure_time >= now
    &&& !has_flight(fs, f.flight_id)
}

/// The error a refused scheduling reports: invalid input for a blank plan or
/// a past departure, and a conflict for a duplicate identifier.
pub open spec fn schedule_error(fs: Seq<Flight>, f: Flight, now: i64) -> FlightError {
    if blank(f.flight_plan@) || f.departure_time < now {
        FlightError::Validation
    } else {
        FlightError::Conflict
    }
}

/// What scheduling does: append the flight and echo it when allowed, report
/// the matching error and leave the table unchanged otherwise.
pub open spec fn schedule_post(
    pre: Seq<Flight>,
    post: Seq<Flight>,
    f: Flight,
    now: i64,
    r: Result<Flight, FlightError>,
) -> bool {
    if schedule_allowed(pre, f, now) {
        &&& r == Ok::<Flight, FlightError>(f)
        &&& post == pre.push(f)
    } else {
        &&& r == Err::<Flight, FlightError>(schedule_error(pre, f, now))
        &&& post == pre
    }
}

/// A plan update is allowed exactly when the new plan holds visible text and
/// a flight with the identifier exists.
pub open spec fn update_allowed(fs: Seq<Flight>, id: u32, plan: Seq<char>) -> bool {
    &&& !blank(plan)
    &&& has_flight(fs, id)
}

/// The error a refused plan update reports: invalid input for a blank plan,
/// else no matching record.
pub open spec fn update_error(fs: Seq<Flight>, id: u32, plan: Seq<char>) -> FlightError {
    if blank(plan) {
        FlightError::Validation
    } else {
        FlightError::NotFound
    }
}

/// The flight table after a plan update: the matching record carries the new
/// plan and keeps every other field; all other records are untouched.
pub open spec fn plan_updated(
    pre: Seq<Flight>,
    post: Seq<Flight>,
    id: u32,
    plan: Seq<char>,
) -> bool {
    &&& post.len() == pre.len()
    &&& forall|i: int|
        0 <= i < pre.len() && (#[trigger] pre[i]).flight_id == id ==> {
            &&& post[i].flight_id == pre[i].flight_id
            &&& post[i].pilot_id == pre[i].pilot_id
            &&& post[i].aircraft_id == pre[i].aircraft_id
            &&& post[i].departure_time == pre[i].departure_time
            &&& post[i].flight_plan@ == plan
        }
    &&& forall|i: int|
        0 <= i < pre.len() && (#[trigger] pre[i]).flight_id != id ==> post[i] == pre[i]
}

/// What a plan update does: rewrite the matching record's plan when allowed,
/// report the matching error and leave the table unchanged otherwise.
pub open spec fn update_plan_post(
    pre: Seq<Flight>,
    post: Seq<Flight>,
    id: u32,
    plan: Seq<char>,
    r: Result<(), FlightError>,
) -> bool {
    if update_allowed(pre, id, plan) {
        &&& r == Ok::<(), FlightError>(())
        &&& plan_updated(pre, post, id, plan)
    } else {
        &&& r == Err::<(), FlightError>(update_error(pre, id, plan))
        &&& post == pre
    }
}

/// What cancelling does: remove the matching record when one exists, report
/// that nothing matched and leave the table unchanged otherwise.
pub open spec fn cancel_post(
    pre: Seq<Flight>,
    post: Seq<Flight>,
    id: u32,
    r: Result<(), FlightError>,
) -> bool {
    if has_flight(pre, id) {
        &&& r == Ok::<(), FlightError>(())
        &&& post == flights_without(pre, id)
    } else {
        &&& r == Err::<(), FlightError>(FlightError::NotFound)
        &&& post == pre
    }
}

/// The in-memory store: pilots and aircraft are seed rows loaded at creation
/// and never mutated; flights are created, updated and removed by the service
/// operations.
pub struct FlightStore {
    pub pilots: Vec<Pilot>,
    pub aircraft: Vec<Aircraft>,
    pub flights: Vec<Flight>,
}

impl FlightStore {
    /// The store's invariant: flight identifiers are unique, and no stored
    /// flight carries a blank plan.
    pub open spec fn wf(&self) -> bool {
        &&& unique_flight_ids(self.flights@)
        &&& forall|i: int|
            0 <= i < self.flights@.len() ==> !blank((#[trigger] self.flights@[i]).flight_plan@)
    }

    /// Creates the store with its seed rows: two pilots, two aircraft, and no
    /// flights.
    pub fn new() -> (r: FlightStore)
        ensures
            r.wf(),
            r.flights@.len() == 0,
            r.pilots@.len() == 2,
            r.pilots@[0].pilot_id == 101,
            r.pilots@[0].name@ == "Alice Wong"@,
            r.pilots@[0].license_number@ == "LIC-ALW-001"@,
            r.pilots@[1].pilot_id == 102,
            r.pilots@[1].name@ == "Bob Tan"@,
            r.pilots@[1].license_number@ == "LIC-BTN-002"@,
            r.aircraft@.len() == 2,
            r.aircraft@[0].aircraft_id == 202,
            r.aircraft@[0].model@ == "Cessna 172"@,
            r.aircraft@[0].capacity == 4,
            r.aircraft@[1].aircraft_id == 203,
            r.aircraft@[1].model@ == "Piper PA-28"@,
            r.aircraft@[1].capacity == 4,
    {
        let mut pilots: Vec<Pilot> = Vec::new();
        pilots.push(Pilot {
            pilot_id: 101,
            name: "Alice Wong".to_owned(),
            license_number: "LIC-ALW-001".to_owned(),
        });
        pilots.push(Pilot {
            pilot_id: 102,
            name: "Bob Tan".to_owned(),
            license_number: "LIC-BTN-002".to_owned(),
        });
        let mut aircraft: Vec<Aircraft> = Vec::new();
        aircraft.push(Aircraft { aircraft_id: 202, model: "Cessna 172".to_owned(), capacity: 4 });
        aircraft.push(Aircraft { aircraft_id: 203, model: "Piper PA-28".to_owned(), capacity: 4 });
        FlightStore { pilots, aircraft, flights: Vec::new() }
    }

    /// The position of the flight carrying the given identifier, if any.
    fn find_flight(&self, flight_id: u32) -> (r: Option<usize>)
        ensures
            match r {
                Some(i) => i < self.flights@.len() && self.flights@[i as int].flight_id
                    == flight_id,
                None => !has_flight(self.flights@, flight_id),
            },
    {
        let n = self.flights.len();
        let mut i: usize = 0;
        while i < n
            invariant
                i <= n,
                n == self.flights@.len(),
                forall|j: int| 0 <= j < i ==> (#[trigger] self.flights@[j]).flight_id != flight_id,
            decreases n - i,
        {
            if self.flights[i].flight_id == flight_id {
                return Some(i);
            }
            i += 1;
        }
        None
    }

    /// Schedules a flight. Refuses a blank plan or a departure strictly
    /// before `now` as invalid input, and a taken identifier as a conflict;
    /// otherwise appends the flight and echoes it back.
    pub fn schedule_flight(&mut self, flight: Flight, now: i64) -> (r: Result<Flight, FlightError>)
        requires
            old(self).wf(),
        ensures
            final(self).wf(),
            final(self).pilots@ == old(self).pilots@,
            final(self).aircraft@ == old(self).aircraft@,
            schedule_post(old(self).flights@, final(self).flights@, flight, now, r),
    {
        if plan_is_blank(flight.flight_plan.as_str()) {
            return Err(FlightError::Validation);
        }
        if flight.is_in_past(now) {
            return Err(FlightError::Validation);
        }
        if let Some(i) = self.find_flight(flight.flight_id) {
            proof {
                assert(has_flight(self.flights@, flight.flight_id));
            }
            return Err(FlightError::Conflict);
        }
        let stored = flight.clone();
        self.flights.push(stored);
        proof {
            assert(self.flights@ == old(self).flights@.push(flight));
            assert forall|i: int, j: int|
                0 <= i < self.flights@.len() && 0 <= j < self.flights@.len() && i != j implies (
            self.flights@[i]).flight_id != (self.flights@[j]).flight_id by {
                if i < old(self).flights@.len() && j < old(self).flights@.len() {
                } else {
                    assert(!has_flight(old(self).flights@, flight.flight_id));
                }
            }
        }
        Ok(flight)
    }

    /// The flights upcoming at `now` — departure at or after that moment —
    /// in store order.
    pub fn view_scheduled_flights(&self, now: i64) -> (r: Vec<Flight>)
        ensures
            r@ == upcoming_flights(self.flights@, now),
    {
        let mut out: Vec<Flight> = Vec::new();
        let n = self.flights.len();
        let mut i: usize = 0;
        while i < n
            invariant
                i <= n,
                n == self.flights@.len(),
                out@ == upcoming_flights(self.flights@.take(i as int), now),
            decreases n - i,
        {
            proof {
                lemma_filter_take_step(self.flights@, departs_at_or_after(now), i as int);
            }
            if self.flights[i].departure_time >= now {
                out.push(self.flights[i].clone());
            }
            i += 1;
        }
        proof {
            assert(self.flights@.take(n as int) =~= self.flights@);
        }
        out
    }

    /// The flights already departed at `now` — departure strictly before
    /// that moment — in store order.
    pub fn view_flight_history(&self, now: i64) -> (r: Vec<Flight>)
        ensures
            r@ == history_flights(self.flights@, now),
    {
        let mut out: Vec<Flight> = Vec::new();
        let n = self.flights.len();
        let mut i: usize = 0;
        while i < n
            invariant
                i <= n,
                n == self.flights@.len(),
                out@ == history_flights(self.flights@.take(i as int), now),
            decreases n - i,
        {
            proof {
                lemma_filter_take_step(self.flights@, departs_before(now), i as int);
            }
            if self.flights[i].departure_time < now {
                out.push(self.flights[i].clone());
            }
            i += 1;
        }
        proof {
            assert(self.flights@.take(n as int) =~= self.flights@);
        }
        out
    }

    /// Replaces the plan of the flight carrying the given identifier.
    /// Refuses a blank plan as invalid input; reports that nothing matched
    /// when the identifier is unknown.
    pub fn update_flight_plan(&mut self, flight_id: u32, new_plan: String) -> (r: Result<
        (),
        FlightError,
    >)
        requires
            old(self).wf(),
        ensures
            final(self).wf(),
            final(self).pilots@ == old(self).pilots@,
            final(self).aircraft@ == old(self).aircraft@,
            update_plan_post(old(self).flights@, final(self).flights@, flight_id, new_plan@, r),
    {
        if plan_is_blank(new_plan.as_str()) {
            return Err(FlightError::Validation);
        }
        match self.find_flight(flight_id) {
            None => Err(FlightError::NotFound),
            Some(i) => {
                proof {
                    assert(has_flight(self.flights@, flight_id));
                }
                let f = self.flights.remove(i);
                let updated = Flight {
                    flight_id: f.flight_id,
                    pilot_id: f.pilot_id,
                    aircraft_id: f.aircraft_id,
                    flight_plan: new_plan,
                    departure_time: f.departure_time,
                };
                self.flights.insert(i, updated);
                proof {
                    let pre = old(self).flights@;
                    assert(self.flights@ =~= pre.update(i as int, updated));
                    assert(plan_updated(pre, self.flights@, flight_id, new_plan@));
                }
                Ok(())
            },
        }
    }

    /// Removes the flight carrying the given identifier; reports that
    /// nothing matched when it is unknown.
    pub fn cancel_flight(&mut self, flight_id: u32) -> (r: Result<(), FlightError>)
        requires
            old(self).wf(),
        ensures
            final(self).wf(),
            final(self).pilots@ == old(self).pilots@,
            final(self).aircraft@ == old(self).aircraft@,
            cancel_post(old(self).flights@, final(self).flights@, flight_id, r),
    {
        match self.find_flight(flight_id) {
            None => Err(FlightError::NotFound),
            Some(i) => {
                proof {
                    assert(has_flight(self.flights@, flight_id));
                }
                let _removed = self.flights.remove(i);
                proof {
                    old(self).flights@.remove_ensures(i as int);
                    lemma_remove_unique_is_filter(old(self).flights@, flight_id, i as int);
                }
                Ok(())
            },
        }
    }

    /// The pilots on record, in store order.
    pub fn list_pilots(&self) -> (r: Vec<Pilot>)
        ensures
            r@ == self.pilots@,
    {
        let mut out: Vec<Pilot> = Vec::new();
        let n = self.pilots.len();
        let mut i: usize = 0;
        while i < n
            invariant
                i <= n,
                n == self.pilots@.len(),
                out@ == self.pilots@.take(i as int),
            decreases n - i,
        {
            out.push(self.pilots[i].clone());
            proof {
                assert(out@ =~= self.pilots@.take(i + 1 as int));
            }
            i += 1;
        }
        proof {
            assert(self.pilots@.take(n as int) =~= self.pilots@);
        }
        out
    }

    /// The aircraft on record, in store order.
    pub fn list_aircraft(&self) -> (r: Vec<Aircraft>)
        ensures
            r@ == self.aircraft@,
    {
        let mut out: Vec<Aircraft> = Vec::new();
        let n = self.aircraft.len();
        let mut i: usize = 0;
        while i < n
            invariant
                i <= n,
                n == self.aircraft@.len(),
                out@ == self.aircraft@.take(i as int),
            decreases n - i,
        {
            out.push(self.aircraft[i].clone());
            proof {
                assert(out@ =~= self.aircraft@.take(i + 1 as int));
            }
            i += 1;
        }
        proof {
            assert(self.aircraft@.take(n as int) =~= self.aircraft@);
        }
        out
    }
}

/// Relies on `chrono::Utc::now` for the current wall-clock moment, reduced by
/// `DateTime::timestamp` to whole seconds since the Unix epoch. The value
/// depends on the machine's clock, so nothing is promised of it.
#[verifier::external_body]
fn unix_now_seconds() -> i64 {
    chrono::Utc::now().timestamp()
}

impl FlightStore {
    /// Schedules a flight against the clock: as `schedule_flight`, with `now`
    /// read from the wall clock. Whatever moment the clock reports, a blank
    /// plan is refused as invalid input, a taken identifier never gets in,
    /// and a refusal leaves the store unchanged.
    pub fn schedule_flight_now(&mut self, flight: Flight) -> (r: Result<Flight, FlightError>)
        requires
            old(self).wf(),
        ensures
            final(self).wf(),
            final(self).pilots@ == old(self).pilots@,
            final(self).aircraft@ == old(self).aircraft@,
            exists|now: i64|
                schedule_post(old(self).flights@, final(self).flights@, flight, now, r),
            blank(flight.flight_plan@) ==> r == Err::<Flight, FlightError>(FlightError::Validation)
                && final(self).flights@ == old(self).flights@,
            has_flight(old(self).flights@, flight.flight_id) ==> r is Err && final(self).flights@
                == old(self).flights@,
            r is Err ==> final(self).flights@ == old(self).flights@,
    {
        let now = unix_now_seconds();
        let ghost f = flight;
        let r = self.schedule_flight(flight, now);
        proof {
            assert(schedule_post(old(self).flights@, self.flights@, f, now, r));
        }
        r
    }

    /// The flights upcoming at the moment the wall clock reports: one
    /// consistent snapshot taken against a single reading of the clock.
    pub fn view_scheduled_flights_now(&self) -> (r: Vec<Flight>)
        ensures
            exists|now: i64| r@ == upcoming_flights(self.flights@, now),
    {
        let now = unix_now_seconds();
        let r = self.view_scheduled_flights(now);
        proof {
            assert(r@ == upcoming_flights(self.flights@, now));
        }
        r
    }

    /// The flights already departed at the moment the wall clock reports:
    /// one consistent snapshot taken against a single reading of the clock.
    pub fn view_flight_history_now(&self) -> (r: Vec<Flight>)
        ensures
            exists|now: i64| r@ == history_flights(self.flights@, now),
    {
        let now = unix_now_seconds();
        let r = self.view_flight_history(now);
        proof {
            assert(r@ == history_flights(self.flights@, now));
        }
        r
    }
}

/// One step of filtering a prefix: taking one more element extends the
/// filtered prefix by that element exactly when it satisfies the predicate.
proof fn lemma_filter_take_step(s: Seq<Flight>, pred: spec_fn(Flight) -> bool, i: int)
    requires
        0 <= i < s.len(),
    ensures
        s.take(i + 1).filter(pred) == (if pred(s[i]) {
            s.take(i).filter(pred).push(s[i])
        } else {
            s.take(i).filter(pred)
        }),
{
    reveal(Seq::filter);
    assert(s.take(i + 1).drop_last() =~= s.take(i));
    assert(s.take(i + 1).last() == s[i]);
}

/// Filtering keeps a sequence whole when every element satisfies the
/// predicate.
proof fn lemma_filter_all(s: Seq<Flight>, pred: spec_fn(Flight) -> bool)
    requires
        forall|k: int| 0 <= k < s.len() ==> pred(#[trigger] s[k]),
    ensures
        s.filter(pred) == s,
    decreases s.len(),
{
    reveal(Seq::filter);
    if s.len() == 0 {
        assert(s.filter(pred) =~= s);
    } else {
        lemma_filter_all(s.drop_last(), pred);
        assert(s.filter(pred) =~= s);
    }
}

/// Under unique identifiers, removing the one record at the found position
/// is the same as filtering out every record with that identifier.
proof fn lemma_remove_unique_is_filter(fs: Seq<Flight>, id: u32, i: int)
    requires
        unique_flight_ids(fs),
        0 <= i < fs.len(),
        fs[i].flight_id == id,
    ensures
        fs.remove(i) == flights_without(fs, id),
{
    broadcast use vstd::seq_lib::group_seq_lib_default;

    let pred = keeps_id_other_than(id);
    let a = fs.subrange(0, i);
    let b = fs.subrange(i, i + 1);
    let c = fs.subrange(i + 1, fs.len() as int);
    assert(fs =~= (a + b) + c);
    lemma_filter_all(a, pred);
    lemma_filter_all(c, pred);
    reveal_with_fuel(Seq::filter, 2);
    assert(b.drop_last() =~= Seq::<Flight>::empty());
    assert(b.filter(pred) =~= Seq::<Flight>::empty());
    assert(fs.filter(pred) == (a + b).filter(pred) + c.filter(pred));
    assert(fs.remove(i) =~= a + c);
    assert(fs.filter(pred) =~= a + c);
}

} // verus!
