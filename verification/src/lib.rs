//! Streaming render pipeline: the statements of a page in, an HTML page out,
//! row by row.
//!
//! - [`templates`] splits a component's template at its row block and keeps
//!   the registry of components.
//! - [`render`] renders a page while its records arrive: headers first, then
//!   the shell and, inside it, one component after the other.
//! - [`database`] decides in which order the statements of a page are run
//!   and turns what the driver answers into the items that are rendered.
//! - [`http`] resolves the response head, streams the body and builds the
//!   response for an error that came too early for the page.
//! - [`template_helpers`] holds the deferred content that templates set
//!   aside and flush.
//! - [`json`] and [`error`] are the values that flow through all of them.

pub mod app_config;
pub mod database;
pub mod error;
pub mod http;
pub mod json;
pub mod render;
pub mod template_helpers;
pub mod templates;
