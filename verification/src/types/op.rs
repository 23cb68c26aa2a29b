//! Opcodes and built-in tags, held by their SPIR-V numbers.

use crate::spirv::{built_in_defined, op_defined, spirv_built_in_defined, spirv_op_defined};
use vstd::prelude::*;

verus! {

/// The opcode of an instruction.
#[derive(Clone, Copy, Debug, PartialEq, Eq, Structural)]
pub struct ReflectOp {
    /// The opcode's number.
    pub code: u32,
}

impl ReflectOp {
    /// The opcode with the number `code`, where `spirv_headers::Op` defines
    /// it, else the opcode 0, which does nothing.
    pub fn from_code(code: u32) -> (op: ReflectOp)
        ensures
            op.code == if spirv_op_defined(code) {
                code
            } else {
                0
            },
    {
        if op_defined(code) {
            ReflectOp { code }
        } else {
            ReflectOp { code: 0 }
        }
    }

    /// The opcode's number.
    pub fn code(&self) -> (code: u32)
        ensures
            code == self.code,
    {
        self.code
    }
}

impl Default for ReflectOp {
    fn default() -> (op: Self)
        ensures
            op.code == 0,
    {
        ReflectOp { code: 0 }
    }
}

/// The built-in that an interface variable is decorated with.
#[derive(Clone, Copy, Debug, PartialEq, Eq, Structural)]
pub struct ReflectBuiltIn {
    /// The built-in's number.
    pub code: u32,
}

impl ReflectBuiltIn {
    /// The built-in with the number `code`, where `spirv_headers::BuiltIn`
    /// defines it, else the built-in 0, the position.
    pub fn from_code(code: u32) -> (built_in: ReflectBuiltIn)
        ensures
            built_in.code == if spirv_built_in_defined(code) {
                code
            } else {
                0
            },
    {
        if built_in_defined(code) {
            ReflectBuiltIn { code }
        } else {
            ReflectBuiltIn { code: 0 }
        }
    }

    /// The built-in's number.
    pub fn code(&self) -> (code: u32)
        ensures
            code == self.code,
    {
        self.code
    }
}

impl Default for ReflectBuiltIn {
    fn default() -> (built_in: Self)
        ensures
            built_in.code == 0,
    {
        ReflectBuiltIn { code: 0 }
    }
}

} // verus!
