//! A slideshow of the pictures and videos of a drive, without the I/O.
//!
//! The library decides and its driver acts. [`auth`] keeps the access
//! credential alive through the device-code flow and the refresh token.
//! [`transport`] says when a failed request is tried again, and [`http`]
//! describes the requests and builds their addresses. [`cache`] keeps what
//! was downloaded in a directory and makes room when the volume runs short.
//! [`item_loader`] and [`image_loader`] find what there is to show, and
//! [`slideshow`] picks what is shown next and for how long. [`cred_store`] is
//! the place of the refresh token between runs.

pub mod auth;
pub mod cache;
pub mod cred_store;
pub mod http;
pub mod image_loader;
pub mod item_loader;
pub mod slideshow;
pub mod transport;
