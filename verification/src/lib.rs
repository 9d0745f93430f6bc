//! Typed, fault-tolerant field access over a dynamically typed document tree.
//!
//! A path such as `offer.date|offer_date` names where a value lives: alternatives
//! separated by `|`, tried in order, each a run of segments separated by `.` or `/`.
//! A segment is a key where the walk stands on a hash and an index where it stands on
//! an array. A lookup gives the node found, coerced to the type asked for, or says
//! whether the value was missing or of another type.

pub mod chars;
pub mod date;
pub mod error;
pub mod index;
pub mod laws;
pub mod node;
pub mod path;
pub mod pathfinder;

pub use crate::date::Date;
pub use crate::error::{FieldError, FieldResult};
pub use crate::node::Node;
pub use crate::path::{YPath, YPaths};
pub use crate::pathfinder::PathFinder;
