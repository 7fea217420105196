//! Saves a single web page for offline viewing: the page's markup is fetched,
//! the stylesheets, scripts, images and videos it references are resolved
//! against the page's own URL and downloaded next to it, and every original
//! reference in the page text is replaced by the local relative path of its
//! saved copy.
//!
//! This crate holds the verified pipeline: discovering asset references in the
//! markup, deriving each asset's local path, the sequential literal text
//! substitution, and the step-by-step protocol a driver follows. The network
//! and file-system work itself is handed out as actions to the caller.

pub mod assets;
pub mod errors;
pub mod markup;
pub mod resolve;
pub mod rewrite;
pub mod run;
