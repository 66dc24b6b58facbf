//! Core of a FITS (Flexible Image Transport System) file browser.
//!
//! The crate owns the catalog and frame-navigation logic of the browser:
//! it classifies each Header-Data-Unit (HDU) of a decoded FITS file for
//! display, builds the 1-based frame listings that feed a frame selector,
//! keeps the "currently selected frame" cursor with validated transitions,
//! and renders chained error causes into a single display string.
//!
//! Decoding the FITS byte stream is delegated to the `fits_rs` crate behind
//! a small trusted boundary in [`decode`]; everything built on top of it is
//! verified.

pub mod decode;
pub mod error;
pub mod hdu;
pub mod precheck;
pub mod session;
pub mod text;
