//! Image formats of storage images and value formats of interface variables.

use crate::spirv::image_format_defined;
use vstd::prelude::*;

verus! {

/// The texel format that an image type is declared with.
#[allow(non_camel_case_types)]
#[derive(Clone, Copy, Debug, PartialEq, Eq, Structural)]
pub enum ReflectImageFormat {
    Undefined,
    RGBA32_FLOAT,
    RGBA16_FLOAT,
    R32_FLOAT,
    RGBA8,
    RGBA8_SNORM,
    RG32_FLOAT,
    RG16_FLOAT,
    R11G11B10_FLOAT,
    R16_FLOAT,
    RGBA16,
    RGB10A2,
    RG16,
    RG8,
    R16,
    R8,
    RGBA16_SNORM,
    RG16_SNORM,
    RG8_SNORM,
    R16_SNORM,
    R8_SNORM,
    RGBA32_INT,
    RGBA16_INT,
    RGBA8_INT,
    R32_INT,
    RG32_INT,
    RG16_INT,
    RG8_INT,
    R16_INT,
    R8_INT,
    RGBA32_UINT,
    RGBA16_UINT,
    RGBA8_UINT,
    R32_UINT,
    RGB10A2_UINT,
    RG32_UINT,
    RG16_UINT,
    RG8_UINT,
    R16_UINT,
    R8_UINT,
}

impl ReflectImageFormat {
    /// The format with the SPIR-V number `code`; `Undefined` for 0 and for
    /// every number above 39.
    pub open spec fn spec_from_code(code: u32) -> ReflectImageFormat {
        if code == 1 {
            ReflectImageFormat::RGBA32_FLOAT
        } else if code == 2 {
            ReflectImageFormat::RGBA16_FLOAT
        } else if code == 3 {
            ReflectImageFormat::R32_FLOAT
        } else if code == 4 {
            ReflectImageFormat::RGBA8
        } else if code == 5 {
            ReflectImageFormat::RGBA8_SNORM
        } else if code == 6 {
            ReflectImageFormat::RG32_FLOAT
        } else if code == 7 {
            ReflectImageFormat::RG16_FLOAT
        } else if code == 8 {
            ReflectImageFormat::R11G11B10_FLOAT
        } else if code == 9 {
            ReflectImageFormat::R16_FLOAT
        } else if code == 10 {
            ReflectImageFormat::RGBA16
        } else if code == 11 {
            ReflectImageFormat::RGB10A2
        } else if code == 12 {
            ReflectImageFormat::RG16
        } else if code == 13 {
            ReflectImageFormat::RG8
        } else if code == 14 {
            ReflectImageFormat::R16
        } else if code == 15 {
            ReflectImageFormat::R8
        } else if code == 16 {
            ReflectImageFormat::RGBA16_SNORM
        } else if code == 17 {
            ReflectImageFormat::RG16_SNORM
        } else if code == 18 {
            ReflectImageFormat::RG8_SNORM
        } else if code == 19 {
            ReflectImageFormat::R16_SNORM
        } else if code == 20 {
            ReflectImageFormat::R8_SNORM
        } else if code == 21 {
            ReflectImageFormat::RGBA32_INT
        } else if code == 22 {
            ReflectImageFormat::RGBA16_INT
        } else if code == 23 {
            ReflectImageFormat::RGBA8_INT
        } else if code == 24 {
            ReflectImageFormat::R32_INT
        } else if code == 25 {
            ReflectImageFormat::RG32_INT
        } else if code == 26 {
            ReflectImageFormat::RG16_INT
        } else if code == 27 {
            ReflectImageFormat::RG8_INT
        } else if code == 28 {
            ReflectImageFormat::R16_INT
        } else if code == 29 {
            ReflectImageFormat::R8_INT
        } else if code == 30 {
            ReflectImageFormat::RGBA32_UINT
        } else if code == 31 {
            ReflectImageFormat::RGBA16_UINT
        } else if code == 32 {
            ReflectImageFormat::RGBA8_UINT
        } else if code == 33 {
            ReflectImageFormat::R32_UINT
        } else if code == 34 {
            ReflectImageFormat::RGB10A2_UINT
        } else if code == 35 {
            ReflectImageFormat::RG32_UINT
        } else if code == 36 {
            ReflectImageFormat::RG16_UINT
        } else if code == 37 {
            ReflectImageFormat::RG8_UINT
        } else if code == 38 {
            ReflectImageFormat::R16_UINT
        } else if code == 39 {
            ReflectImageFormat::R8_UINT
        } else {
            ReflectImageFormat::Undefined
        }
    }

    /// The format that the word `code` of an image type instruction names.
    /// A number that `spirv_headers::ImageFormat` does not define gives
    /// `Undefined`.
    pub fn from_code(code: u32) -> (format: ReflectImageFormat)
        ensures
            format == Self::spec_from_code(code),
    {
        if !image_format_defined(code) {
            return ReflectImageFormat::Undefined;
        }
        match code {
            1 => ReflectImageFormat::RGBA32_FLOAT,
            2 => ReflectImageFormat::RGBA16_FLOAT,
            3 => ReflectImageFormat::R32_FLOAT,
            4 => ReflectImageFormat::RGBA8,
            5 => ReflectImageFormat::RGBA8_SNORM,
            6 => ReflectImageFormat::RG32_FLOAT,
            7 => ReflectImageFormat::RG16_FLOAT,
            8 => ReflectImageFormat::R11G11B10_FLOAT,
            9 => ReflectImageFormat::R16_FLOAT,
            10 => ReflectImageFormat::RGBA16,
            11 => ReflectImageFormat::RGB10A2,
            12 => ReflectImageFormat::RG16,
            13 => ReflectImageFormat::RG8,
            14 => ReflectImageFormat::R16,
            15 => ReflectImageFormat::R8,
            16 => ReflectImageFormat::RGBA16_SNORM,
            17 => ReflectImageFormat::RG16_SNORM,
            18 => ReflectImageFormat::RG8_SNORM,
            19 => ReflectImageFormat::R16_SNORM,
            20 => ReflectImageFormat::R8_SNORM,
            21 => ReflectImageFormat::RGBA32_INT,
            22 => ReflectImageFormat::RGBA16_INT,
            23 => ReflectImageFormat::RGBA8_INT,
            24 => ReflectImageFormat::R32_INT,
            25 => ReflectImageFormat::RG32_INT,
            26 => ReflectImageFormat::RG16_INT,
            27 => ReflectImageFormat::RG8_INT,
            28 => ReflectImageFormat::R16_INT,
            29 => ReflectImageFormat::R8_INT,
            30 => ReflectImageFormat::RGBA32_UINT,
            31 => ReflectImageFormat::RGBA16_UINT,
            32 => ReflectImageFormat::RGBA8_UINT,
            33 => ReflectImageFormat::R32_UINT,
            34 => ReflectImageFormat::RGB10A2_UINT,
            35 => ReflectImageFormat::RG32_UINT,
            36 => ReflectImageFormat::RG16_UINT,
            37 => ReflectImageFormat::RG8_UINT,
            38 => ReflectImageFormat::R16_UINT,
            39 => ReflectImageFormat::R8_UINT,
            _ => ReflectImageFormat::Undefined,
        }
    }
}

impl Default for ReflectImageFormat {
    fn default() -> (format: Self)
        ensures
            format == ReflectImageFormat::Undefined,
    {
        ReflectImageFormat::Undefined
    }
}

/// The value format of an interface variable: one to four 32-bit
/// components, unsigned, signed or floating.
#[allow(non_camel_case_types)]
#[derive(Clone, Copy, Debug, PartialEq, Eq, Structural)]
pub enum ReflectFormat {
    Undefined,
    R32_UINT,
    R32_SINT,
    R32_SFLOAT,
    R32G32_UINT,
    R32G32_SINT,
    R32G32_SFLOAT,
    R32G32B32_UINT,
    R32G32B32_SINT,
    R32G32B32_SFLOAT,
    R32G32B32A32_UINT,
    R32G32B32A32_SINT,
    R32G32B32A32_SFLOAT,
}

impl ReflectFormat {
    /// Whether `code` is the Vulkan number of one of the formats, or 0.
    pub open spec fn spec_is_code(code: u32) -> bool {
        code == 0 || 98 <= code <= 109
    }

    /// The format with the Vulkan number `code`; `Undefined` for 0.
    pub open spec fn spec_from_code(code: u32) -> ReflectFormat {
        if code == 98 {
            ReflectFormat::R32_UINT
        } else if code == 99 {
            ReflectFormat::R32_SINT
        } else if code == 100 {
            ReflectFormat::R32_SFLOAT
        } else if code == 101 {
            ReflectFormat::R32G32_UINT
        } else if code == 102 {
            ReflectFormat::R32G32_SINT
        } else if code == 103 {
            ReflectFormat::R32G32_SFLOAT
        } else if code == 104 {
            ReflectFormat::R32G32B32_UINT
        } else if code == 105 {
            ReflectFormat::R32G32B32_SINT
        } else if code == 106 {
            ReflectFormat::R32G32B32_SFLOAT
        } else if code == 107 {
            ReflectFormat::R32G32B32A32_UINT
        } else if code == 108 {
            ReflectFormat::R32G32B32A32_SINT
        } else if code == 109 {
            ReflectFormat::R32G32B32A32_SFLOAT
        } else {
            ReflectFormat::Undefined
        }
    }

    /// The format with the Vulkan number `code`.
    pub fn from_code(code: u32) -> (format: ReflectFormat)
        requires
            Self::spec_is_code(code),
        ensures
            format == Self::spec_from_code(code),
    {
        match code {
            98 => ReflectFormat::R32_UINT,
            99 => ReflectFormat::R32_SINT,
            100 => ReflectFormat::R32_SFLOAT,
            101 => ReflectFormat::R32G32_UINT,
            102 => ReflectFormat::R32G32_SINT,
            103 => ReflectFormat::R32G32_SFLOAT,
            104 => ReflectFormat::R32G32B32_UINT,
            105 => ReflectFormat::R32G32B32_SINT,
            106 => ReflectFormat::R32G32B32_SFLOAT,
            107 => ReflectFormat::R32G32B32A32_UINT,
            108 => ReflectFormat::R32G32B32A32_SINT,
            109 => ReflectFormat::R32G32B32A32_SFLOAT,
            _ => ReflectFormat::Undefined,
        }
    }
}

impl Default for ReflectFormat {
    fn default() -> (format: Self)
        ensures
            format == ReflectFormat::Undefined,
    {
        ReflectFormat::Undefined
    }
}

} // verus!
