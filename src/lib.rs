//! Configuration model of a custom musical controller: tunings (scales of
//! notes), performance surfaces and the bindings that keep them consistent.
pub mod decimal;
pub mod qrud;
