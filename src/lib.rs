//! Conversion of EasyEDA / LCSC components into KiCad libraries: the
//! command-line rules, component naming, shape-record reading that needs no
//! arithmetic on coordinates, the shared symbol library, and the scheduling
//! of batches and downloads.
pub mod batch;
pub mod cli;
pub mod error;
pub mod fetch;
pub mod library;
pub mod model3d;
pub mod naming;
pub mod records;
pub mod retry;
pub mod shapes;
pub mod text;

pub use cli::{Cli, KicadVersion};
pub use error::{AppError, EasyedaError, LibraryError};
