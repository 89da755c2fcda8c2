//! `scannedpdf` turns a sequence of raster images into a PDF document, one
//! image per page, with an optional bookmark per page.
//!
//! The document is produced in memory by a verified object writer whose
//! cross-reference table is proved to point at every object it declares.
pub mod config;
pub mod error;
pub mod codec;
pub mod layout;
pub mod pdf;
pub mod text;

pub use config::{Alignment, Margin, PageConfig, PageSize};
pub use error::Error;
pub use pdf::PDF;
