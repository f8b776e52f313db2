//! Region selection and cropping over a multi-monitor desktop capture.
//!
//! The library tracks where each display sits in the global logical
//! coordinate space, turns a pointer drag into a normalised selection, and
//! decides which captured buffer a finished selection is cut from.
pub mod geometry;
pub mod layout;
pub mod selection;
pub mod image_ops;
pub mod capture;
pub mod session;
