//! Bit sets: decoration flags, type flags and shader stage flags.

use vstd::prelude::*;

verus! {

/// The decorations that were found on an id or on a struct member.
#[derive(Clone, Copy, Debug, PartialEq, Eq, Structural)]
pub struct ReflectDecorationFlags {
    pub bits: u32,
}

impl ReflectDecorationFlags {
    pub const NONE: u32 = 0;
    pub const BLOCK: u32 = 1;
    pub const BUFFER_BLOCK: u32 = 2;
    pub const ROW_MAJOR: u32 = 4;
    pub const COLUMN_MAJOR: u32 = 8;
    pub const BUILT_IN: u32 = 16;
    pub const NO_PERSPECTIVE: u32 = 32;
    pub const FLAT: u32 = 64;
    pub const NON_WRITABLE: u32 = 128;
    pub const RELAXED_PRECISION: u32 = 256;
    pub const NON_READABLE: u32 = 512;
    pub const PATCH: u32 = 1024;
    pub const PER_VERTEX: u32 = 2048;
    pub const PER_TASK: u32 = 4096;
    pub const WEIGHT_TEXTURE: u32 = 8192;
    pub const BLOCK_MATCH_TEXTURE: u32 = 16384;
    /// Every bit that has a name.
    pub const ALL: u32 = 0x7FFF;

    /// The empty set.
    pub fn empty() -> (flags: Self)
        ensures
            flags.bits == 0,
    {
        ReflectDecorationFlags { bits: 0 }
    }

    /// The set with the given bits, if each of them has a name.
    pub fn from_bits(bits: u32) -> (flags: Option<Self>)
        ensures
            flags == if bits & !Self::ALL == 0 {
                Some(ReflectDecorationFlags { bits })
            } else {
                None
            },
    {
        if bits & !Self::ALL == 0 {
            Some(ReflectDecorationFlags { bits })
        } else {
            None
        }
    }

    /// The bits of the set.
    pub fn bits(&self) -> (bits: u32)
        ensures
            bits == self.bits,
    {
        self.bits
    }

    /// Whether every bit of `mask` is in the set.
    pub open spec fn spec_contains(self, mask: u32) -> bool {
        self.bits & mask == mask
    }

    /// Whether every bit of `mask` is in the set.
    pub fn contains(&self, mask: u32) -> (held: bool)
        ensures
            held == self.spec_contains(mask),
    {
        self.bits & mask == mask
    }

    /// The set with the bits of `mask` added.
    pub open spec fn spec_with(self, mask: u32) -> Self {
        ReflectDecorationFlags { bits: self.bits | mask }
    }

    /// The set with the bits of `mask` added.
    pub fn with(self, mask: u32) -> (flags: Self)
        ensures
            flags == self.spec_with(mask),
    {
        ReflectDecorationFlags { bits: self.bits | mask }
    }
}

impl Default for ReflectDecorationFlags {
    fn default() -> (flags: Self)
        ensures
            flags.bits == 0,
    {
        ReflectDecorationFlags { bits: 0 }
    }
}

/// What kind of type a type description stands for.
#[derive(Clone, Copy, Debug, PartialEq, Eq, Structural)]
pub struct ReflectTypeFlags {
    pub bits: u32,
}

impl ReflectTypeFlags {
    pub const UNDEFINED: u32 = 0;
    pub const VOID: u32 = 1;
    pub const BOOL: u32 = 2;
    pub const INT: u32 = 4;
    pub const FLOAT: u32 = 8;
    pub const VECTOR: u32 = 256;
    pub const MATRIX: u32 = 512;
    pub const EXTERNAL_IMAGE: u32 = 65536;
    pub const EXTERNAL_SAMPLER: u32 = 131_072;
    pub const EXTERNAL_SAMPLED_IMAGE: u32 = 262_144;
    pub const EXTERNAL_BLOCK: u32 = 524_288;
    pub const EXTERNAL_ACCELERATION_STRUCTURE_NV: u32 = 1_048_576;
    pub const EXTERNAL_MASK: u32 = 2_031_616;
    pub const STRUCT: u32 = 268_435_456;
    pub const ARRAY: u32 = 536_870_912;
    pub const REF: u32 = 1_073_741_824;
    /// Every bit that has a name.
    pub const ALL: u32 = 0x701F_030F;

    /// The empty set.
    pub fn empty() -> (flags: Self)
        ensures
            flags.bits == 0,
    {
        ReflectTypeFlags { bits: 0 }
    }

    /// The set with the given bits, if each of them has a name.
    pub fn from_bits(bits: u32) -> (flags: Option<Self>)
        ensures
            flags == if bits & !Self::ALL == 0 {
                Some(ReflectTypeFlags { bits })
            } else {
                None
            },
    {
        if bits & !Self::ALL == 0 {
            Some(ReflectTypeFlags { bits })
        } else {
            None
        }
    }

    /// The bits of the set.
    pub fn bits(&self) -> (bits: u32)
        ensures
            bits == self.bits,
    {
        self.bits
    }

    /// Whether every bit of `mask` is in the set.
    pub open spec fn spec_contains(self, mask: u32) -> bool {
        self.bits & mask == mask
    }

    /// Whether every bit of `mask` is in the set.
    pub fn contains(&self, mask: u32) -> (held: bool)
        ensures
            held == self.spec_contains(mask),
    {
        self.bits & mask == mask
    }

    /// The set with the bits of `mask` added.
    pub open spec fn spec_with(self, mask: u32) -> Self {
        ReflectTypeFlags { bits: self.bits | mask }
    }

    /// The set with the bits of `mask` added.
    pub fn with(self, mask: u32) -> (flags: Self)
        ensures
            flags == self.spec_with(mask),
    {
        ReflectTypeFlags { bits: self.bits | mask }
    }
}

impl Default for ReflectTypeFlags {
    fn default() -> (flags: Self)
        ensures
            flags.bits == 0,
    {
        ReflectTypeFlags { bits: 0 }
    }
}

/// The pipeline stages that a shader belongs to, one bit each.
#[derive(Clone, Copy, Debug, PartialEq, Eq, Structural)]
pub struct ReflectShaderStageFlags {
    pub bits: u32,
}

impl ReflectShaderStageFlags {
    pub const UNDEFINED: u32 = 0x0000_0000;
    pub const VERTEX: u32 = 0x0000_0001;
    pub const TESSELLATION_CONTROL: u32 = 0x0000_0002;
    pub const TESSELLATION_EVALUATION: u32 = 0x0000_0004;
    pub const GEOMETRY: u32 = 0x0000_0008;
    pub const FRAGMENT: u32 = 0x0000_0010;
    pub const COMPUTE: u32 = 0x0000_0020;
    pub const TASK_EXT: u32 = 0x0000_0040;
    pub const MESH_EXT: u32 = 0x0000_0080;
    pub const TASK_NV: u32 = 0x0000_0040;
    pub const MESH_NV: u32 = 0x0000_0080;
    pub const RAYGEN_BIT_NV: u32 = 256;
    pub const ANY_HIT_BIT_NV: u32 = 512;
    pub const CLOSEST_HIT_BIT_NV: u32 = 1024;
    pub const MISS_BIT_NV: u32 = 2048;
    pub const INTERSECTION_BIT_NV: u32 = 4096;
    pub const CALLABLE_BIT_NV: u32 = 8192;
    /// Every bit that has a name.
    pub const ALL: u32 = 0x3FFF;

    /// The set with the given bits, if each of them has a name.
    pub fn from_bits(bits: u32) -> (flags: Option<Self>)
        ensures
            flags == if bits & !Self::ALL == 0 {
                Some(ReflectShaderStageFlags { bits })
            } else {
                None
            },
    {
        if bits & !Self::ALL == 0 {
            Some(ReflectShaderStageFlags { bits })
        } else {
            None
        }
    }

    /// The bits of the set.
    pub fn bits(&self) -> (bits: u32)
        ensures
            bits == self.bits,
    {
        self.bits
    }

    /// Whether every bit of `mask` is in the set.
    pub open spec fn spec_contains(self, mask: u32) -> bool {
        self.bits & mask == mask
    }

    /// Whether every bit of `mask` is in the set.
    pub fn contains(&self, mask: u32) -> (held: bool)
        ensures
            held == self.spec_contains(mask),
    {
        self.bits & mask == mask
    }
}

impl Default for ReflectShaderStageFlags {
    fn default() -> (flags: Self)
        ensures
            flags.bits == 0,
    {
        ReflectShaderStageFlags { bits: 0 }
    }
}

} // verus!
