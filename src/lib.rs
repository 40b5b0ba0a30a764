//! Client-side control logic for network cameras speaking a SOAP device
//! management and pan-tilt-zoom protocol: service binding, profile selection
//! and motion planning, each with its contract proved.

pub mod address;
pub mod binding;
pub mod motion;
pub mod profile;
