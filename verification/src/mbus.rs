//! The bus-registration side of the runtime: entities registered with
//! the bus and the manager that serves lanes for them.

pub mod entity;
