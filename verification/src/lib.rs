//! Reflection over SPIR-V shader binaries.
//!
//! A module is loaded from its 32-bit words, decoded into an instruction
//! index, and resolved into entry points, interface variables, descriptor
//! bindings, push constant blocks and the type descriptions behind them.
//! Binding and set numbers can be patched in place in the retained words.

pub mod error;
pub mod parser;
pub mod patch;
pub mod sets;
pub mod shader_module;
pub mod spirv;
pub mod types;
pub mod views;
pub mod words;

pub use crate::error::{result_to_string, ReflectError, ReflectResult};
pub use crate::parser::usage::StaticUse;
pub use crate::shader_module::{create_shader_module, create_shader_module_with, ShaderModule};
pub use crate::types::descriptor::{DescriptorBindingRef, DescriptorSetRef, PushConstantBlockRef};
