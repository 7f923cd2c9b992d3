//! Personalized bulk mail: templates with `{key}` placeholders, rendered
//! for each recipient, built into MIME messages, and sent one after the
//! other with a pause between them.
//!
//! - [`template`], [`render`], [`placeholders`]: templates and what renders
//!   them.
//! - [`markup`], [`email`], [`mime`], [`platform`]: from a rendered template
//!   to a message.
//! - [`dispatch`]: the course of a bulk send.
//! - [`app`], [`preview`]: the state of the editor and its preview.

pub mod app;
pub mod config;
pub mod dispatch;
pub mod email;
pub mod markup;
pub mod mime;
pub mod placeholders;
pub mod platform;
pub mod preview;
pub mod render;
pub mod template;
pub mod text;
