//! Integer and text handling for a small arithmetic service.
//!
//! * [`request`] decodes requests (an operator and up to two operands) from
//!   loosely structured text, one at a time or in batches;
//! * [`text`] and [`integer`] hold the searching, trimming, splitting and
//!   number reading that the decoding is built from;
//! * [`degree`] guards the number of coefficients of a sine approximant;
//! * [`benchmark`] counts the evaluations of a throughput run.
//!
//! Every function is verified against the specification functions that stand
//! beside it. Arithmetic on real numbers is left to the caller.

pub mod benchmark;
pub mod degree;
pub mod integer;
pub mod request;
pub mod text;
