//! Sorting whose wall-clock cost grows linearly with the number of elements.
//!
//! Each sort delegates the reordering to the standard library, measures how
//! long that took, and reports the remaining time that the caller must still
//! spend so that the whole call lasts a fixed budget per element.
use vstd::prelude::*;

pub mod budget;
pub mod linear;
pub mod order;
pub mod span;

pub use budget::{
    linear_sort_sleep_duration, nap_for, set_linear_sort_sleep_duration, SleepDurationStore,
};
pub use linear::LinearSort;
pub use span::Span;

verus! {

} // verus!
