//! Protocol driver for NTAG213 contactless memory tags.
//!
//! The driver is written as a set of verified decision functions and step
//! machines: the caller owns the reader device, performs each exchange that a
//! machine asks for, and hands the response back.
pub mod domain;
pub mod error;
pub mod uri;
pub mod paging;
pub mod ntag213;
pub mod repository;
