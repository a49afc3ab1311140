//! Programming of the internal flash of an ATSAM4L microcontroller.
//!
//! The library turns erase and write requests into the page-granular,
//! doubleword-aligned command sequence that the flash controller (HFLASHC)
//! expects, drives that sequence one hardware action at a time with a
//! bounded wait on the controller's ready flag, and models the controller
//! so that the effect of a request on the flash contents is proved.
pub mod geometry;
pub mod error;
pub mod command;
pub mod model;
pub mod plan;
pub mod laws;
pub mod session;
