//! From words to the reflection model, pass by pass.

pub mod annotation;
pub mod block;
pub mod entry;
pub mod interface;
pub mod node;
pub mod parse;
pub mod resolve;
pub mod resource;
pub mod usage;
