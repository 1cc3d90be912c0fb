//! The time stamp that issues carry, and the text form it is written in.
use vstd::prelude::*;
use crate::clock::Tm;

verus! {

/// A time as issues store it; written as text in `TIME_FORMAT`.
#[derive(Clone, Copy, Debug)]
pub struct SerdeTime(pub Tm);

/// The format in which times are written: `"%F %Y at %T"`.
pub const TIME_FORMAT: &'static str = "%F %Y at %T";

} // verus!
