//! The expander: closed dispatch over the supported declarative forms, and
//! the interface-level expansion that turns a whole trait declaration into
//! descriptors and stage sequences.

pub mod fresh;
pub mod method;
