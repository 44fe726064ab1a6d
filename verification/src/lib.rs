//! Build-time core of a static-site content generator: locating the
//! frontmatter and body regions of a document buffer, turning free-form tag
//! strings into identifier fragments, deriving generated-module paths from
//! source content paths, and rendering the generated taxonomy module that
//! exposes each document as a typed import and each tag as a typed
//! collection.  Every transform here is pure; writing the rendered bytes to
//! disk is left to the caller.

pub mod bytesink;
pub mod casing;
pub mod chars;
pub mod emitter;
pub mod html;
pub mod paths;
pub mod scanner;
