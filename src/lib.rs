//! Measurements bound to units of one quantity family: unit descriptors,
//! ordered unit registries with lookup and merge, the textual literal
//! grammar (`"12.5 m"`), and measures with unit-retaining arithmetic.
use vstd::prelude::*;

pub mod literal;
pub mod measure;
pub mod si;
pub mod unit;
pub mod unit_list;

pub use measure::Measure;
pub use si::{gen_si, SiEntry};
pub use unit::Unit;
pub use unit_list::UnitList;
