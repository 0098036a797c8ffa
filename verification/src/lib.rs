//! Review annotations: `[TYPE] text` markers kept in a buffer as comment lines.

pub mod buffer;
pub mod comment;
pub mod decimal;
pub mod editor;
pub mod labels;
pub mod laws;
pub mod marker;
pub mod popup;
pub mod scope;
pub mod text;
