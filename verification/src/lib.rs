//! Seat reservation rules of a library reading room: the seat catalogue,
//! seat bookings, and the checks that decide every request.
//!
//! The tables live in [`store::SeatLibrary`]; every request is a function
//! from the tables (and the current time) to new tables and a
//! [`reply::Reply`], with its outcome stated over the tables' view.

pub mod models;
pub mod reply;
pub mod text;
pub mod clock;
pub mod store;
pub mod seats;
pub mod reservations;
pub mod seed;
pub mod laws;
