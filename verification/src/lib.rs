//! Armour scrap advisor: finds the armour pieces of an inventory that another
//! piece of the same class and slot makes redundant.

pub mod display;
pub mod dominance;
pub mod error;
pub mod loader;
pub mod number;
pub mod partition;
pub mod record;
pub mod render;
pub mod report;
pub mod stats;
pub mod theory;
