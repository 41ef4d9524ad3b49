//! The laws of the flight service, proved over the same spec functions the
//! operations' contracts use: when scheduling succeeds, what each refusal
//! reports, that cancelling is terminal, and that the upcoming and history
//! views partition the stored flights.

use vstd::prelude::*;
use crate::models::Flight;
use crate::models::FlightError;
use crate::models::blank;
use crate::store::departs_at_or_after;
use crate::store::departs_before;
use crate::store::flights_without;
use crate::store::has_flight;
use crate::store::history_flights;
use crate::store::keeps_id_other_than;
use crate::store::schedule_allowed;
use crate::store::schedule_error;
use crate::store::upcoming_flights;
use crate::store::update_allowed;
use crate::store::update_error;

verus! {

/// A flight with a plan of visible text, a departure not in the past, and a
/// fresh identifier is accepted, and the view of flights upcoming at any
/// moment up to its departure includes it.
pub proof fn lemma_scheduled_flight_is_upcoming(fs: Seq<Flight>, f: Flight, now: i64, t: i64)
    requires
        !blank(f.flight_plan@),
        f.departure_time >= now,
        !has_flight(fs, f.flight_id),
        t <= f.departure_time,
    ensures
        schedule_allowed(fs, f, now),
        upcoming_flights(fs.push(f), t).contains(f),
{
    broadcast use vstd::seq_lib::group_filter_ensures;

    let g = fs.push(f);
    assert(g[fs.len() as int] == f);
    assert(departs_at_or_after(t)(f));
    assert(upcoming_flights(g, t).contains(g[fs.len() as int]));
}

/// A blank plan is never scheduled, and the refusal reports invalid input,
/// whatever the other fields, the stored flights and the clock say.
pub proof fn lemma_blank_plan_never_schedules(fs: Seq<Flight>, f: Flight, now: i64)
    requires
        blank(f.flight_plan@),
    ensures
        !schedule_allowed(fs, f, now),
        schedule_error(fs, f, now) == FlightError::Validation,
{
}

/// A departure strictly before the clock's moment is never scheduled, and
/// the refusal reports invalid input.
pub proof fn lemma_past_departure_never_schedules(fs: Seq<Flight>, f: Flight, now: i64)
    requires
        f.departure_time < now,
    ensures
        !schedule_allowed(fs, f, now),
        schedule_error(fs, f, now) == FlightError::Validation,
{
}

/// Once a flight is scheduled, a second flight carrying the same identifier
/// is refused as a conflict, whatever moment the second attempt happens; by
/// the scheduling contract the refusal leaves the store holding exactly the
/// first flight.
pub proof fn lemma_duplicate_id_conflicts(
    fs: Seq<Flight>,
    f1: Flight,
    f2: Flight,
    now1: i64,
    now2: i64,
)
    requires
        schedule_allowed(fs, f1, now1),
        f2.flight_id == f1.flight_id,
        !blank(f2.flight_plan@),
        f2.departure_time >= now2,
    ensures
        !schedule_allowed(fs.push(f1), f2, now2),
        schedule_error(fs.push(f1), f2, now2) == FlightError::Conflict,
{
    let g = fs.push(f1);
    assert(g[fs.len() as int].flight_id == f2.flight_id);
    assert(has_flight(g, f2.flight_id));
}

/// A blank replacement plan is never applied, and the refusal reports
/// invalid input; by the update contract the stored plan is left unchanged.
pub proof fn lemma_blank_update_never_applies(fs: Seq<Flight>, id: u32, plan: Seq<char>)
    requires
        blank(plan),
    ensures
        !update_allowed(fs, id, plan),
        update_error(fs, id, plan) == FlightError::Validation,
{
}

/// A plan update naming an identifier no stored flight carries is refused as
/// not found, however valid the new plan is.
pub proof fn lemma_unknown_id_update_not_found(fs: Seq<Flight>, id: u32, plan: Seq<char>)
    requires
        !blank(plan),
        !has_flight(fs, id),
    ensures
        !update_allowed(fs, id, plan),
        update_error(fs, id, plan) == FlightError::NotFound,
{
}

/// Cancelling is terminal: once every record of an identifier is removed, no
/// stored flight carries it, so a second cancel of the same identifier is
/// refused as not found by the cancel contract.
pub proof fn lemma_cancel_is_terminal(fs: Seq<Flight>, id: u32)
    ensures
        !has_flight(flights_without(fs, id), id),
{
    broadcast use vstd::seq_lib::group_filter_ensures;

    let fw = flights_without(fs, id);
    assert forall|i: int| 0 <= i < fw.len() implies (#[trigger] fw[i]).flight_id != id by {
        assert(keeps_id_other_than(id)(fw[i]));
    }
}

/// The upcoming and history views partition the stored flights: together
/// they hold as many records as the store, and each stored flight appears in
/// the upcoming view exactly when its departure is at or after the given
/// moment, in the history view exactly when it is before — one view or the
/// other, never both.
pub proof fn lemma_upcoming_history_partition(fs: Seq<Flight>, now: i64)
    ensures
        upcoming_flights(fs, now).len() + history_flights(fs, now).len() == fs.len(),
        forall|i: int|
            0 <= i < fs.len() ==> (upcoming_flights(fs, now).contains(#[trigger] fs[i]) <==> fs[i].departure_time
                >= now),
        forall|i: int|
            0 <= i < fs.len() ==> (history_flights(fs, now).contains(#[trigger] fs[i]) <==> fs[i].departure_time
                < now),
        forall|i: int|
            0 <= i < fs.len() ==> (upcoming_flights(fs, now).contains(#[trigger] fs[i])
                != history_flights(fs, now).contains(fs[i])),
{
    broadcast use vstd::seq_lib::group_filter_ensures;

    lemma_partition_len(fs, now);
    let up = upcoming_flights(fs, now);
    let hist = history_flights(fs, now);
    assert forall|i: int| 0 <= i < fs.len() && up.contains(#[trigger] fs[i]) implies fs[i].departure_time
        >= now by {
        let k = choose|k: int| 0 <= k < up.len() && up[k] == fs[i];
        assert(departs_at_or_after(now)(up[k]));
    }
    assert forall|i: int| 0 <= i < fs.len() && hist.contains(#[trigger] fs[i]) implies fs[i].departure_time
        < now by {
        let k = choose|k: int| 0 <= k < hist.len() && hist[k] == fs[i];
        assert(departs_before(now)(hist[k]));
    }
    assert forall|i: int| 0 <= i < fs.len() && fs[i].departure_time >= now implies up.contains(
        #[trigger] fs[i],
    ) by {
        assert(departs_at_or_after(now)(fs[i]));
    }
    assert forall|i: int| 0 <= i < fs.len() && fs[i].departure_time < now implies hist.contains(
        #[trigger] fs[i],
    ) by {
        assert(departs_before(now)(fs[i]));
    }
}

/// The two filtered views account for every stored record exactly once by
/// count.
proof fn lemma_partition_len(fs: Seq<Flight>, now: i64)
    ensures
        upcoming_flights(fs, now).len() + history_flights(fs, now).len() == fs.len(),
    decreases fs.len(),
{
    reveal(Seq::filter);
    if fs.len() == 0 {
    } else {
        lemma_partition_len(fs.drop_last(), now);
    }
}

} // verus!
