//! The view of a resource that a binding gives to the shader.

use vstd::prelude::*;

verus! {

/// How a shader sees a bound resource.
#[derive(Clone, Copy, Debug, PartialEq, Eq, Structural)]
pub enum ReflectResourceType {
    Undefined,
    Sampler,
    CombinedImageSampler,
    ConstantBufferView,
    ShaderResourceView,
    UnorderedAccessView,
}

impl ReflectResourceType {
    /// Whether `bits` is one of the bits that stand for a kind of view, or
    /// 0.
    pub open spec fn spec_is_code(bits: u32) -> bool {
        bits == 0 || bits == 1 || bits == 2 || bits == 4 || bits == 8
    }

    /// The kind of view that the bit `bits` stands for: 1 for a sampler, 2
    /// for a constant buffer view, 4 for a shader resource view, 8 for an
    /// unordered access view.
    pub open spec fn spec_from_code(bits: u32) -> ReflectResourceType {
        if bits == 1 {
            ReflectResourceType::Sampler
        } else if bits == 2 {
            ReflectResourceType::ConstantBufferView
        } else if bits == 4 {
            ReflectResourceType::ShaderResourceView
        } else if bits == 8 {
            ReflectResourceType::UnorderedAccessView
        } else {
            ReflectResourceType::Undefined
        }
    }

    /// The kind of view that the bit `bits` stands for.
    pub fn from_code(bits: u32) -> (resource: ReflectResourceType)
        requires
            Self::spec_is_code(bits),
        ensures
            resource == Self::spec_from_code(bits),
    {
        match bits {
            1 => ReflectResourceType::Sampler,
            2 => ReflectResourceType::ConstantBufferView,
            4 => ReflectResourceType::ShaderResourceView,
            8 => ReflectResourceType::UnorderedAccessView,
            _ => ReflectResourceType::Undefined,
        }
    }
}

impl Default for ReflectResourceType {
    fn default() -> (resource: Self)
        ensures
            resource == ReflectResourceType::Undefined,
    {
        ReflectResourceType::Undefined
    }
}

} // verus!
