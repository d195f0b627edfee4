//! Estimates how many primogems a player gathers over a span of days.
//!
//! Recurring events reset on fixed days of the calendar: one in the middle of
//! each month and two on the first day of each month. The library counts how
//! often each reset falls within the span and turns the counts, a flat daily
//! amount and the optional blessing into a total.
//!
//! * [`calendar`] is the mathematical model of the Gregorian calendar that the
//!   contracts are stated over.
//! * [`date`] holds the executable date type and the date arithmetic. The
//!   arithmetic itself is done by the `chrono` crate, behind a handful of
//!   trusted wrappers.
//! * [`rotation`] counts the resets of a schedule within a span of days.
//! * [`estimate`] turns the counts into an estimate.
//! * [`menu`] keeps the choices of the interactive menu that asks for an
//!   estimate.
//! * [`error`] names the ways in which an estimate can fail.

pub mod calendar;
mod chrono_dates;
pub mod date;
pub mod error;
pub mod estimate;
pub mod menu;
pub mod rotation;
