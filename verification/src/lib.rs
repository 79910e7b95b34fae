//! A four-week "5/3/1" barbell training cycle calculator.
//!
//! Given a one-rep maximum for each of four lifts, the library computes a
//! 4-week-by-3-set grid of plate-friendly target weights and renders the
//! whole cycle as a CSV table.  Weights are held in fixed-point integers:
//! a maximum is a whole number of hundredths of a weight unit, a raw
//! (unrounded) target is a whole number of ten-thousandths, and a rounded
//! target is a whole number of units.

pub mod csvenc;
pub mod decimal;
pub mod parse;
pub mod plan;
pub mod rounding;
