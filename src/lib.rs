//! Binary-data resolution for a scene document's buffers and views.
//!
//! Each buffer's bytes are fetched at most once, by a byte resolver that the
//! caller runs, and shared by every view over that buffer. A view's data is a
//! window `[offset, offset + length)` into its buffer's bytes.

pub mod buffer;
pub mod cell;
pub mod data;
pub mod document;

pub use buffer::{Buffer, DataError, Resolutions, View, ViewAction};
pub use cell::{share_outcome, Action, ResolutionCell, ResolveError};
pub use data::{BufferData, ViewData};
pub use document::{BufferRecord, Document, DocumentError, Target, ViewRecord};
