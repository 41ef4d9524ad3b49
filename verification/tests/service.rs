use flight_scheduler::models::Flight;
use flight_scheduler::models::FlightError;
use flight_scheduler::store::FlightStore;

fn flight(id: u32, plan: &str, departure_time: i64) -> Flight {
    Flight {
        flight_id: id,
        pilot_id: 101,
        aircraft_id: 202,
        flight_plan: plan.to_string(),
        departure_time,
    }
}

#[test]
fn schedule_ok_included_in_upcoming() {
    let mut s = FlightStore::new();
    let now = 1_000;
    let r = s.schedule_flight(flight(7, "VFR direct", 5_000), now);
    let echoed = r.unwrap();
    assert_eq!(echoed.flight_id, 7);
    assert_eq!(echoed.flight_plan, "VFR direct");
    let upcoming = s.view_scheduled_flights(now);
    assert_eq!(upcoming.len(), 1);
    assert_eq!(upcoming[0].flight_id, 7);
    assert_eq!(upcoming[0].pilot_id, 101);
    assert_eq!(upcoming[0].aircraft_id, 202);
    assert_eq!(upcoming[0].flight_plan, "VFR direct");
    assert_eq!(upcoming[0].departure_time, 5_000);
}

#[test]
fn schedule_blank_plan_rejected() {
    for plan in ["", " ", "   ", "\t\n \r", "\u{3000}\u{00A0}"] {
        let mut s = FlightStore::new();
        let r = s.schedule_flight(flight(1, plan, 5_000), 1_000);
        assert_eq!(r.unwrap_err(), FlightError::Validation);
        assert!(s.view_scheduled_flights(0).is_empty());
        assert!(s.view_flight_history(i64::MAX).is_empty());
    }
}

#[test]
fn schedule_blank_plan_rejected_whatever_other_fields() {
    let mut s = FlightStore::new();
    let f = Flight {
        flight_id: 0,
        pilot_id: 999,
        aircraft_id: 999,
        flight_plan: String::new(),
        departure_time: i64::MAX,
    };
    assert_eq!(s.schedule_flight(f, i64::MIN).unwrap_err(), FlightError::Validation);
}

#[test]
fn schedule_past_departure_rejected() {
    let mut s = FlightStore::new();
    let r = s.schedule_flight(flight(1, "VFR direct", 999), 1_000);
    assert_eq!(r.unwrap_err(), FlightError::Validation);
    assert!(s.view_scheduled_flights(0).is_empty());
    assert!(s.view_flight_history(i64::MAX).is_empty());
}

#[test]
fn schedule_departure_at_now_accepted() {
    let mut s = FlightStore::new();
    assert!(s.schedule_flight(flight(1, "VFR direct", 1_000), 1_000).is_ok());
}

#[test]
fn duplicate_flight_id_conflict_retains_first() {
    let mut s = FlightStore::new();
    assert!(s.schedule_flight(flight(5, "first plan", 5_000), 1_000).is_ok());
    let r = s.schedule_flight(flight(5, "second plan", 9_000), 1_000);
    assert_eq!(r.unwrap_err(), FlightError::Conflict);
    let upcoming = s.view_scheduled_flights(1_000);
    assert_eq!(upcoming.len(), 1);
    assert_eq!(upcoming[0].flight_plan, "first plan");
    assert_eq!(upcoming[0].departure_time, 5_000);
}

#[test]
fn update_plan_blank_rejected_plan_unchanged() {
    let mut s = FlightStore::new();
    assert!(s.schedule_flight(flight(3, "VFR direct", 5_000), 1_000).is_ok());
    for plan in ["", "  \t"] {
        let r = s.update_flight_plan(3, plan.to_string());
        assert_eq!(r.unwrap_err(), FlightError::Validation);
        let upcoming = s.view_scheduled_flights(1_000);
        assert_eq!(upcoming[0].flight_plan, "VFR direct");
    }
}

#[test]
fn update_plan_unknown_id_not_found() {
    let mut s = FlightStore::new();
    assert!(s.schedule_flight(flight(3, "VFR direct", 5_000), 1_000).is_ok());
    let r = s.update_flight_plan(4, "valid plan".to_string());
    assert_eq!(r.unwrap_err(), FlightError::NotFound);
}

#[test]
fn update_plan_rewrites_only_the_plan() {
    let mut s = FlightStore::new();
    assert!(s.schedule_flight(flight(3, "VFR direct", 5_000), 1_000).is_ok());
    assert!(s.schedule_flight(flight(4, "other plan", 6_000), 1_000).is_ok());
    assert!(s.update_flight_plan(3, "IFR via VOR".to_string()).is_ok());
    let upcoming = s.view_scheduled_flights(1_000);
    assert_eq!(upcoming.len(), 2);
    assert_eq!(upcoming[0].flight_id, 3);
    assert_eq!(upcoming[0].flight_plan, "IFR via VOR");
    assert_eq!(upcoming[0].pilot_id, 101);
    assert_eq!(upcoming[0].aircraft_id, 202);
    assert_eq!(upcoming[0].departure_time, 5_000);
    assert_eq!(upcoming[1].flight_id, 4);
    assert_eq!(upcoming[1].flight_plan, "other plan");
}

#[test]
fn cancel_twice_second_not_found() {
    let mut s = FlightStore::new();
    assert!(s.schedule_flight(flight(9, "VFR direct", 5_000), 1_000).is_ok());
    assert!(s.cancel_flight(9).is_ok());
    assert_eq!(s.cancel_flight(9).unwrap_err(), FlightError::NotFound);
}

#[test]
fn cancel_unknown_id_not_found() {
    let mut s = FlightStore::new();
    assert_eq!(s.cancel_flight(42).unwrap_err(), FlightError::NotFound);
}

#[test]
fn upcoming_history_partition() {
    let mut s = FlightStore::new();
    assert!(s.schedule_flight(flight(1, "past one", 100), 0).is_ok());
    assert!(s.schedule_flight(flight(2, "at now", 1_000), 0).is_ok());
    assert!(s.schedule_flight(flight(3, "future one", 9_000), 0).is_ok());
    let now = 1_000;
    let upcoming = s.view_scheduled_flights(now);
    let history = s.view_flight_history(now);
    assert_eq!(upcoming.len() + history.len(), 3);
    for id in [1u32, 2, 3] {
        let in_upcoming = upcoming.iter().any(|f| f.flight_id == id);
        let in_history = history.iter().any(|f| f.flight_id == id);
        assert!(in_upcoming != in_history);
    }
    assert_eq!(history.len(), 1);
    assert_eq!(history[0].flight_id, 1);
    assert_eq!(upcoming.len(), 2);
    assert_eq!(upcoming[0].flight_id, 2);
    assert_eq!(upcoming[1].flight_id, 3);
}

#[test]
fn scenario_schedule_update_cancel() {
    let mut s = FlightStore::new();
    let now = 1_700_000_000;
    let f = Flight {
        flight_id: 1,
        pilot_id: 101,
        aircraft_id: 202,
        flight_plan: "VFR direct".to_string(),
        departure_time: now + 3_600,
    };
    let echoed = s.schedule_flight(f, now).unwrap();
    assert_eq!(echoed.flight_id, 1);
    let upcoming = s.view_scheduled_flights(now);
    assert!(upcoming.iter().any(|g| g.flight_id == 1));
    assert!(s.update_flight_plan(1, "IFR via VOR".to_string()).is_ok());
    assert!(s.cancel_flight(1).is_ok());
    assert_eq!(s.cancel_flight(1).unwrap_err(), FlightError::NotFound);
}

#[test]
fn fresh_store_lists_two_seeded_pilots() {
    let s = FlightStore::new();
    let pilots = s.list_pilots();
    assert_eq!(pilots.len(), 2);
    assert_eq!(pilots[0].pilot_id, 101);
    assert_eq!(pilots[0].name, "Alice Wong");
    assert_eq!(pilots[0].license_number, "LIC-ALW-001");
    assert_eq!(pilots[1].pilot_id, 102);
    assert_eq!(pilots[1].name, "Bob Tan");
    assert_eq!(pilots[1].license_number, "LIC-BTN-002");
}

#[test]
fn fresh_store_lists_two_seeded_aircraft() {
    let s = FlightStore::new();
    let aircraft = s.list_aircraft();
    assert_eq!(aircraft.len(), 2);
    assert_eq!(aircraft[0].aircraft_id, 202);
    assert_eq!(aircraft[0].model, "Cessna 172");
    assert_eq!(aircraft[0].capacity, 4);
    assert_eq!(aircraft[1].aircraft_id, 203);
    assert_eq!(aircraft[1].model, "Piper PA-28");
    assert_eq!(aircraft[1].capacity, 4);
}

#[test]
fn is_in_past_compares_departure_to_now() {
    let f = flight(1, "VFR direct", 1_000);
    assert!(f.is_in_past(1_001));
    assert!(!f.is_in_past(1_000));
    assert!(!f.is_in_past(999));
}

#[test]
fn fresh_store_views_are_empty() {
    let s = FlightStore::new();
    assert!(s.view_scheduled_flights(0).is_empty());
    assert!(s.view_flight_history(0).is_empty());
}

#[test]
fn clock_schedule_far_future_accepted() {
    let mut s = FlightStore::new();
    let r = s.schedule_flight_now(flight(1, "VFR direct", i64::MAX));
    assert_eq!(r.unwrap().flight_id, 1);
    let upcoming = s.view_scheduled_flights_now();
    assert_eq!(upcoming.len(), 1);
    assert_eq!(upcoming[0].flight_id, 1);
}

#[test]
fn clock_schedule_blank_plan_rejected() {
    let mut s = FlightStore::new();
    let r = s.schedule_flight_now(flight(1, " ", i64::MAX));
    assert_eq!(r.unwrap_err(), FlightError::Validation);
}

#[test]
fn clock_history_holds_long_departed_flight() {
    let mut s = FlightStore::new();
    assert!(s.schedule_flight(flight(1, "VFR direct", 1), 0).is_ok());
    let history = s.view_flight_history_now();
    assert_eq!(history.len(), 1);
    assert_eq!(history[0].flight_id, 1);
}
