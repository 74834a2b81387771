//! An in-memory table mapping IP ranges to the autonomous systems that
//! announce them, with point-containment lookup and atomic hot reload of
//! the whole table.

pub mod addr;
pub mod record;
pub mod store;
pub mod table;
