//! The core of a small personal blog: request dispatch by path, and the
//! cache-aside rules that keep cached pages consistent with the store.

pub mod blog;
pub mod cache;
pub mod handlers;
pub mod path;
pub mod post;
pub mod router;
pub mod site;
pub mod time;
pub mod world;
