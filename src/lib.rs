//! Request encoding for a client of a hierarchical coordination service.
//!
//! Every request type states its wire form as a spec function over bytes, and
//! its `write` method is proved to append exactly that form to the output buffer.

pub mod buffer;
pub mod wire;
pub mod acl;
pub mod request;
pub mod packet;


