//! The tool that produced a module.

use vstd::prelude::*;

verus! {

/// The tools that the generator word of the header can name.
#[derive(Clone, Copy, Debug, PartialEq, Eq, Structural)]
pub enum ReflectGenerator {
    Unknown,
    KhronosLlvmSpirvTranslator,
    KhronosSpirvToolsAssembler,
    KhronosGlslangReferenceFrontEnd,
    GoogleShadercOverGlslang,
    GoogleSpiregg,
    GoogleRspirv,
    XLegendMesaMesairSpirvTranslator,
    KhronosSpirvToolsLinker,
    WineVkd3dShaderCompiler,
    ClayClayShaderCompiler,
}

impl ReflectGenerator {
    /// The tool registered under the number `id`.
    pub open spec fn spec_from_id(id: u32) -> ReflectGenerator {
        if id == 6 {
            ReflectGenerator::KhronosLlvmSpirvTranslator
        } else if id == 7 {
            ReflectGenerator::KhronosSpirvToolsAssembler
        } else if id == 8 {
            ReflectGenerator::KhronosGlslangReferenceFrontEnd
        } else if id == 13 {
            ReflectGenerator::GoogleShadercOverGlslang
        } else if id == 14 {
            ReflectGenerator::GoogleSpiregg
        } else if id == 15 {
            ReflectGenerator::GoogleRspirv
        } else if id == 16 {
            ReflectGenerator::XLegendMesaMesairSpirvTranslator
        } else if id == 17 {
            ReflectGenerator::KhronosSpirvToolsLinker
        } else if id == 18 {
            ReflectGenerator::WineVkd3dShaderCompiler
        } else if id == 19 {
            ReflectGenerator::ClayClayShaderCompiler
        } else {
            ReflectGenerator::Unknown
        }
    }

    /// The tool registered under the number `id`.
    pub fn from_id(id: u32) -> (generator: ReflectGenerator)
        ensures
            generator == Self::spec_from_id(id),
    {
        match id {
            6 => ReflectGenerator::KhronosLlvmSpirvTranslator,
            7 => ReflectGenerator::KhronosSpirvToolsAssembler,
            8 => ReflectGenerator::KhronosGlslangReferenceFrontEnd,
            13 => ReflectGenerator::GoogleShadercOverGlslang,
            14 => ReflectGenerator::GoogleSpiregg,
            15 => ReflectGenerator::GoogleRspirv,
            16 => ReflectGenerator::XLegendMesaMesairSpirvTranslator,
            17 => ReflectGenerator::KhronosSpirvToolsLinker,
            18 => ReflectGenerator::WineVkd3dShaderCompiler,
            19 => ReflectGenerator::ClayClayShaderCompiler,
            _ => ReflectGenerator::Unknown,
        }
    }

    /// The tool named in the upper half of the header's generator word.
    pub open spec fn spec_from_word(word: u32) -> ReflectGenerator {
        Self::spec_from_id(word / 0x1_0000)
    }

    /// The tool named in the upper half of the header's generator word.
    pub fn from_word(word: u32) -> (generator: ReflectGenerator)
        ensures
            generator == Self::spec_from_word(word),
    {
        Self::from_id(word / 0x1_0000)
    }
}

impl Default for ReflectGenerator {
    fn default() -> (generator: Self)
        ensures
            generator == ReflectGenerator::Unknown,
    {
        ReflectGenerator::Unknown
    }
}

} // verus!
