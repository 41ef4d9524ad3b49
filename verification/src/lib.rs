//! A small flight-scheduling library: pilots and aircraft on record, and a
//! store of scheduled flights with the business rules enforced around every
//! mutation — a flight plan must hold visible text, a departure may not lie in
//! the past at scheduling time, flight identifiers are unique, and the
//! upcoming/history views partition the stored flights by departure time.

pub mod models;
pub mod store;
pub mod laws;
