//! The reflection model.

pub mod descriptor;
pub mod flags;
pub mod generator;
pub mod image;
pub mod module;
pub mod op;
pub mod resource;
pub mod traits;
pub mod variable;

pub use self::descriptor::{
    DescriptorBindingRef, DescriptorSetRef, PushConstantBlockRef, ReflectDescriptorBinding,
    ReflectDescriptorBindingSet, ReflectDescriptorSet, ReflectDescriptorType,
    ReflectOrdinalBinding, ReflectOrdinalSet,
};
pub use self::flags::{ReflectDecorationFlags, ReflectShaderStageFlags, ReflectTypeFlags};
pub use self::generator::ReflectGenerator;
pub use self::image::{ReflectFormat, ReflectImageFormat};
pub use self::module::ReflectShaderModule;
pub use self::op::{ReflectBuiltIn, ReflectOp};
pub use self::resource::ReflectResourceType;
pub use self::traits::{
    ReflectArrayTraits, ReflectBindingArrayTraits, ReflectImageTraits, ReflectNumericTraits,
    ReflectNumericTraitsMatrix, ReflectNumericTraitsScalar, ReflectNumericTraitsVector,
    ReflectTypeDescriptionTraits, SpvReflectImageTraits,
};
pub use self::variable::{
    ReflectBlockVariable, ReflectDimension, ReflectEntryPoint, ReflectEntryPointLocalSize,
    ReflectInterfaceVariable, ReflectShaderStage, ReflectStorageClass, ReflectTypeDescription,
};
