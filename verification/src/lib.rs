//! The verified core of Donna Desktop: sessions and their tokens, sign-in links,
//! the worker that runs agents on this Mac, and the messages it is sent.

pub mod courses;
pub mod flow;
pub mod identity;
pub mod json;
pub mod laws;
pub mod link;
pub mod login;
pub mod menu;
pub mod message;
pub mod paths;
pub mod refresh;
pub mod state;
pub mod text;
pub mod worker;
pub mod workspace;
