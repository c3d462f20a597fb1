//! What the operations are for, told by how their results relate to their
//! inputs and to each other.
//!
//! - [`texts`], [`numbers`]: cutting, joining and reading text
//! - [`models`]: a model holds what its value holds
//! - [`titles`], [`lists`], [`menus`], [`icons`]: what the user sees
//! - [`requests`], [`replies`]: what goes over the socket
//! - [`picks`]: from what is shown to what is clicked
//! - [`places`]: paths, settings and messages

pub mod icons;
pub mod lists;
pub mod menus;
pub mod models;
pub mod numbers;
pub mod picks;
pub mod places;
pub mod replies;
pub mod requests;
pub mod texts;
pub mod titles;
