//! A virtual compilation environment: an immutable, in-memory snapshot of
//! named resources and font faces, exposed through the lookup operations a
//! markup-to-document compiler expects (main entry, file by identity, font by
//! index, today's date), without touching a real filesystem.

pub mod date;
pub mod entry;
pub mod fonts;
pub mod snapshot;
pub mod vpath;

pub use date::Date;
pub use entry::{BuildError, FileEntry, FileIdentity, LookupError};
pub use fonts::FontFace;
pub use snapshot::Snapshot;
pub use vpath::VirtualPath;
