use spirv_reflect::types::module::ReflectShaderModule;
use spirv_reflect::types::{
    ReflectArrayTraits, ReflectBindingArrayTraits, ReflectBlockVariable, ReflectBuiltIn,
    ReflectDecorationFlags, ReflectDescriptorType, ReflectDimension, ReflectFormat,
    ReflectGenerator, ReflectImageFormat, ReflectImageTraits, ReflectNumericTraits, ReflectOp,
    ReflectResourceType, ReflectShaderStage, ReflectShaderStageFlags, ReflectStorageClass,
    ReflectTypeDescription, ReflectTypeDescriptionTraits, ReflectTypeFlags,
};
use spirv_reflect::words::{byte_of, opcode_of, word_count_of, words_from_bytes};
use spirv_reflect::ShaderModule;

#[test]
fn generator_is_named_in_the_upper_half_of_its_word() {
    assert_eq!(ReflectGenerator::from_id(6), ReflectGenerator::KhronosLlvmSpirvTranslator);
    assert_eq!(ReflectGenerator::from_id(7), ReflectGenerator::KhronosSpirvToolsAssembler);
    assert_eq!(ReflectGenerator::from_id(8), ReflectGenerator::KhronosGlslangReferenceFrontEnd);
    assert_eq!(ReflectGenerator::from_id(13), ReflectGenerator::GoogleShadercOverGlslang);
    assert_eq!(ReflectGenerator::from_id(14), ReflectGenerator::GoogleSpiregg);
    assert_eq!(ReflectGenerator::from_id(15), ReflectGenerator::GoogleRspirv);
    assert_eq!(ReflectGenerator::from_id(16), ReflectGenerator::XLegendMesaMesairSpirvTranslator);
    assert_eq!(ReflectGenerator::from_id(17), ReflectGenerator::KhronosSpirvToolsLinker);
    assert_eq!(ReflectGenerator::from_id(18), ReflectGenerator::WineVkd3dShaderCompiler);
    assert_eq!(ReflectGenerator::from_id(19), ReflectGenerator::ClayClayShaderCompiler);
    assert_eq!(ReflectGenerator::from_id(0), ReflectGenerator::Unknown);
    assert_eq!(ReflectGenerator::from_id(9), ReflectGenerator::Unknown);
    assert_eq!(
        ReflectGenerator::from_word(0x0008_0007),
        ReflectGenerator::KhronosGlslangReferenceFrontEnd
    );
    assert_eq!(ReflectGenerator::from_word(0x0000_0008), ReflectGenerator::Unknown);
    assert_eq!(ReflectGenerator::default(), ReflectGenerator::Unknown);
}

#[test]
fn first_word_of_an_instruction_holds_count_and_opcode() {
    assert_eq!(word_count_of(0x0004_0015), 4);
    assert_eq!(opcode_of(0x0004_0015), 0x15);
    assert_eq!(word_count_of(0xFFFF_FFFF), 0xFFFF);
    assert_eq!(opcode_of(0xFFFF_FFFF), 0xFFFF);
    assert_eq!(word_count_of(0x0000_FFFF), 0);
    assert_eq!(byte_of(0x4433_2211, 0), 0x11);
    assert_eq!(byte_of(0x4433_2211, 1), 0x22);
    assert_eq!(byte_of(0x4433_2211, 2), 0x33);
    assert_eq!(byte_of(0x4433_2211, 3), 0x44);
}

#[test]
fn bytes_are_put_together_in_either_order() {
    let bytes = [0x03, 0x02, 0x23, 0x07, 0x11, 0x22, 0x33, 0x44];
    assert_eq!(words_from_bytes(&bytes, true), vec![0x0723_0203, 0x4433_2211]);
    assert_eq!(words_from_bytes(&bytes, false), vec![0x0302_2307, 0x1122_3344]);
    assert_eq!(words_from_bytes(&[], true), Vec::<u32>::new());
}

#[test]
fn host_order_is_the_order_of_the_words_in_memory() {
    let mut words: Vec<u32> = vec![0x0723_0203, 0x0001_0000, 0, 10, 0, 0x0002_0011, 1];
    let mut bytes = Vec::new();
    for word in &words {
        bytes.extend_from_slice(&word.to_ne_bytes());
    }
    let module = ShaderModule::load_u8_data(&bytes).unwrap();
    assert_eq!(module.get_code(), &words[..]);
    words[0] = 0x0302_2307;
    let mut swapped = Vec::new();
    for word in &words {
        swapped.extend_from_slice(&word.to_ne_bytes());
    }
    assert!(ShaderModule::load_u8_data(&swapped).is_err());
}

#[test]
fn opcodes_and_built_ins_that_are_not_defined_fall_back() {
    assert_eq!(ReflectOp::from_code(30).code(), 30);
    assert_eq!(ReflectOp::from_code(5633).code, 5633);
    assert_eq!(ReflectOp::from_code(9).code, 0);
    assert_eq!(ReflectOp::from_code(60000).code, 0);
    assert_eq!(ReflectOp::default().code, 0);
    assert_eq!(ReflectBuiltIn::from_code(1).code(), 1);
    assert_eq!(ReflectBuiltIn::from_code(43).code, 43);
    assert_eq!(ReflectBuiltIn::from_code(2).code, 0);
    assert_eq!(ReflectBuiltIn::from_code(99_999).code, 0);
    assert_eq!(ReflectBuiltIn::default().code, 0);
}

#[test]
fn numbers_of_dimensions_formats_and_classes() {
    assert_eq!(ReflectDimension::from_code(0), ReflectDimension::Type1d);
    assert_eq!(ReflectDimension::from_code(1), ReflectDimension::Type2d);
    assert_eq!(ReflectDimension::from_code(2), ReflectDimension::Type3d);
    assert_eq!(ReflectDimension::from_code(3), ReflectDimension::Cube);
    assert_eq!(ReflectDimension::from_code(4), ReflectDimension::Rect);
    assert_eq!(ReflectDimension::from_code(5), ReflectDimension::Buffer);
    assert_eq!(ReflectDimension::from_code(6), ReflectDimension::SubPassData);
    assert_eq!(ReflectDimension::from_code(7), ReflectDimension::Undefined);
    assert_eq!(ReflectDimension::default(), ReflectDimension::Undefined);

    assert_eq!(ReflectImageFormat::from_code(0), ReflectImageFormat::Undefined);
    assert_eq!(ReflectImageFormat::from_code(1), ReflectImageFormat::RGBA32_FLOAT);
    assert_eq!(ReflectImageFormat::from_code(4), ReflectImageFormat::RGBA8);
    assert_eq!(ReflectImageFormat::from_code(11), ReflectImageFormat::RGB10A2);
    assert_eq!(ReflectImageFormat::from_code(20), ReflectImageFormat::R8_SNORM);
    assert_eq!(ReflectImageFormat::from_code(29), ReflectImageFormat::R8_INT);
    assert_eq!(ReflectImageFormat::from_code(34), ReflectImageFormat::RGB10A2_UINT);
    assert_eq!(ReflectImageFormat::from_code(39), ReflectImageFormat::R8_UINT);
    assert_eq!(ReflectImageFormat::from_code(40), ReflectImageFormat::Undefined);
    assert_eq!(ReflectImageFormat::default(), ReflectImageFormat::Undefined);

    assert_eq!(ReflectStorageClass::from_code(0), ReflectStorageClass::UniformConstant);
    assert_eq!(ReflectStorageClass::from_code(1), ReflectStorageClass::Input);
    assert_eq!(ReflectStorageClass::from_code(2), ReflectStorageClass::Uniform);
    assert_eq!(ReflectStorageClass::from_code(3), ReflectStorageClass::Output);
    assert_eq!(ReflectStorageClass::from_code(4), ReflectStorageClass::WorkGroup);
    assert_eq!(ReflectStorageClass::from_code(5), ReflectStorageClass::CrossWorkGroup);
    assert_eq!(ReflectStorageClass::from_code(6), ReflectStorageClass::Private);
    assert_eq!(ReflectStorageClass::from_code(7), ReflectStorageClass::Function);
    assert_eq!(ReflectStorageClass::from_code(8), ReflectStorageClass::Generic);
    assert_eq!(ReflectStorageClass::from_code(9), ReflectStorageClass::PushConstant);
    assert_eq!(ReflectStorageClass::from_code(10), ReflectStorageClass::AtomicCounter);
    assert_eq!(ReflectStorageClass::from_code(11), ReflectStorageClass::Image);
    assert_eq!(ReflectStorageClass::from_code(12), ReflectStorageClass::StorageBuffer);
    assert_eq!(ReflectStorageClass::from_code(13), ReflectStorageClass::Undefined);
    assert_eq!(ReflectStorageClass::from_code(5328), ReflectStorageClass::Undefined);
    assert_eq!(ReflectStorageClass::default(), ReflectStorageClass::Undefined);

    assert_eq!(ReflectDescriptorType::from_code(0), ReflectDescriptorType::Sampler);
    assert_eq!(ReflectDescriptorType::from_code(1), ReflectDescriptorType::CombinedImageSampler);
    assert_eq!(ReflectDescriptorType::from_code(2), ReflectDescriptorType::SampledImage);
    assert_eq!(ReflectDescriptorType::from_code(3), ReflectDescriptorType::StorageImage);
    assert_eq!(ReflectDescriptorType::from_code(4), ReflectDescriptorType::UniformTexelBuffer);
    assert_eq!(ReflectDescriptorType::from_code(5), ReflectDescriptorType::StorageTexelBuffer);
    assert_eq!(ReflectDescriptorType::from_code(6), ReflectDescriptorType::UniformBuffer);
    assert_eq!(ReflectDescriptorType::from_code(7), ReflectDescriptorType::StorageBuffer);
    assert_eq!(ReflectDescriptorType::from_code(8), ReflectDescriptorType::UniformBufferDynamic);
    assert_eq!(ReflectDescriptorType::from_code(9), ReflectDescriptorType::StorageBufferDynamic);
    assert_eq!(ReflectDescriptorType::from_code(10), ReflectDescriptorType::InputAttachment);
    assert_eq!(ReflectDescriptorType::default(), ReflectDescriptorType::Undefined);

    assert_eq!(ReflectResourceType::from_code(0), ReflectResourceType::Undefined);
    assert_eq!(ReflectResourceType::from_code(1), ReflectResourceType::Sampler);
    assert_eq!(ReflectResourceType::from_code(2), ReflectResourceType::ConstantBufferView);
    assert_eq!(ReflectResourceType::from_code(4), ReflectResourceType::ShaderResourceView);
    assert_eq!(ReflectResourceType::from_code(8), ReflectResourceType::UnorderedAccessView);
    assert_eq!(ReflectResourceType::default(), ReflectResourceType::Undefined);

    assert_eq!(ReflectFormat::from_code(0), ReflectFormat::Undefined);
    assert_eq!(ReflectFormat::from_code(98), ReflectFormat::R32_UINT);
    assert_eq!(ReflectFormat::from_code(99), ReflectFormat::R32_SINT);
    assert_eq!(ReflectFormat::from_code(100), ReflectFormat::R32_SFLOAT);
    assert_eq!(ReflectFormat::from_code(101), ReflectFormat::R32G32_UINT);
    assert_eq!(ReflectFormat::from_code(102), ReflectFormat::R32G32_SINT);
    assert_eq!(ReflectFormat::from_code(103), ReflectFormat::R32G32_SFLOAT);
    assert_eq!(ReflectFormat::from_code(104), ReflectFormat::R32G32B32_UINT);
    assert_eq!(ReflectFormat::from_code(105), ReflectFormat::R32G32B32_SINT);
    assert_eq!(ReflectFormat::from_code(106), ReflectFormat::R32G32B32_SFLOAT);
    assert_eq!(ReflectFormat::from_code(107), ReflectFormat::R32G32B32A32_UINT);
    assert_eq!(ReflectFormat::from_code(108), ReflectFormat::R32G32B32A32_SINT);
    assert_eq!(ReflectFormat::from_code(109), ReflectFormat::R32G32B32A32_SFLOAT);
    assert_eq!(ReflectFormat::default(), ReflectFormat::Undefined);
}

#[test]
fn stages_of_execution_models() {
    assert_eq!(ReflectShaderStage::from_execution_model(0), ReflectShaderStage::Vertex);
    assert_eq!(
        ReflectShaderStage::from_execution_model(1),
        ReflectShaderStage::TessellationControl
    );
    assert_eq!(
        ReflectShaderStage::from_execution_model(2),
        ReflectShaderStage::TessellationEvaluation
    );
    assert_eq!(ReflectShaderStage::from_execution_model(3), ReflectShaderStage::Geometry);
    assert_eq!(ReflectShaderStage::from_execution_model(4), ReflectShaderStage::Fragment);
    assert_eq!(ReflectShaderStage::from_execution_model(5), ReflectShaderStage::Compute);
    assert_eq!(ReflectShaderStage::from_execution_model(6), ReflectShaderStage::Kernel);
    assert_eq!(ReflectShaderStage::from_execution_model(5267), ReflectShaderStage::TaskNV);
    assert_eq!(ReflectShaderStage::from_execution_model(5268), ReflectShaderStage::MeshNV);
    assert_eq!(ReflectShaderStage::from_execution_model(5313), ReflectShaderStage::RayGenerationNV);
    assert_eq!(ReflectShaderStage::from_execution_model(5314), ReflectShaderStage::IntersectionNV);
    assert_eq!(ReflectShaderStage::from_execution_model(5315), ReflectShaderStage::AnyHitNV);
    assert_eq!(ReflectShaderStage::from_execution_model(5316), ReflectShaderStage::ClosestHitNV);
    assert_eq!(ReflectShaderStage::from_execution_model(5317), ReflectShaderStage::MissNV);
    assert_eq!(ReflectShaderStage::from_execution_model(5318), ReflectShaderStage::CallableNV);
    assert_eq!(ReflectShaderStage::from_execution_model(7), ReflectShaderStage::Undefined);
    assert_eq!(ReflectShaderStage::default(), ReflectShaderStage::Undefined);
    assert_eq!(ReflectShaderStage::Vertex.flag_bits(), ReflectShaderStageFlags::VERTEX);
    assert_eq!(ReflectShaderStage::Fragment.flag_bits(), ReflectShaderStageFlags::FRAGMENT);
    assert_eq!(ReflectShaderStage::Compute.flag_bits(), ReflectShaderStageFlags::COMPUTE);
    assert_eq!(ReflectShaderStage::MeshNV.flag_bits(), ReflectShaderStageFlags::MESH_NV);
    assert_eq!(ReflectShaderStage::AnyHitNV.flag_bits(), ReflectShaderStageFlags::ANY_HIT_BIT_NV);
    assert_eq!(
        ReflectShaderStage::IntersectionNV.flag_bits(),
        ReflectShaderStageFlags::INTERSECTION_BIT_NV
    );
    assert_eq!(ReflectShaderStage::Kernel.flag_bits(), 0);
}

#[test]
fn bit_sets() {
    let none = ReflectDecorationFlags::empty();
    assert_eq!(none.bits(), 0);
    assert!(!none.contains(ReflectDecorationFlags::BLOCK));
    let some = none.with(ReflectDecorationFlags::BLOCK).with(ReflectDecorationFlags::FLAT);
    assert_eq!(some.bits(), 65);
    assert!(some.contains(ReflectDecorationFlags::BLOCK));
    assert!(some.contains(ReflectDecorationFlags::FLAT));
    assert!(some.contains(ReflectDecorationFlags::BLOCK | ReflectDecorationFlags::FLAT));
    assert!(!some.contains(ReflectDecorationFlags::BLOCK | ReflectDecorationFlags::ROW_MAJOR));
    assert_eq!(ReflectDecorationFlags::from_bits(65), Some(some));
    assert_eq!(ReflectDecorationFlags::from_bits(0x7FFF).unwrap().bits(), 0x7FFF);
    assert_eq!(ReflectDecorationFlags::from_bits(0x8000), None);
    assert_eq!(ReflectDecorationFlags::default(), none);

    let vector = ReflectTypeFlags::empty().with(ReflectTypeFlags::VECTOR | ReflectTypeFlags::FLOAT);
    assert_eq!(vector.bits(), 264);
    assert!(vector.contains(ReflectTypeFlags::FLOAT));
    assert!(!vector.contains(ReflectTypeFlags::INT));
    assert_eq!(ReflectTypeFlags::from_bits(264), Some(vector));
    assert_eq!(ReflectTypeFlags::from_bits(16), None);
    assert_eq!(
        ReflectTypeFlags::from_bits(ReflectTypeFlags::EXTERNAL_MASK).unwrap().bits(),
        2_031_616
    );
    assert_eq!(
        ReflectTypeFlags::EXTERNAL_MASK,
        ReflectTypeFlags::EXTERNAL_IMAGE
            | ReflectTypeFlags::EXTERNAL_SAMPLER
            | ReflectTypeFlags::EXTERNAL_SAMPLED_IMAGE
            | ReflectTypeFlags::EXTERNAL_BLOCK
            | ReflectTypeFlags::EXTERNAL_ACCELERATION_STRUCTURE_NV
    );
    assert_eq!(ReflectTypeFlags::default().bits(), 0);

    let stages = ReflectShaderStageFlags::from_bits(0x11).unwrap();
    assert!(stages.contains(ReflectShaderStageFlags::VERTEX));
    assert!(stages.contains(ReflectShaderStageFlags::FRAGMENT));
    assert!(!stages.contains(ReflectShaderStageFlags::COMPUTE));
    assert_eq!(stages.bits(), 0x11);
    assert_eq!(ReflectShaderStageFlags::from_bits(0x4000), None);
    assert_eq!(ReflectShaderStageFlags::default().bits(), 0);
}

#[test]
fn fresh_values() {
    let description = ReflectTypeDescription::default();
    assert_eq!(description.id, u32::MAX);
    assert_eq!(description.op.code, 0);
    assert_eq!(description.name, "");
    assert_eq!(description.members.len(), 0);
    assert_eq!(description.type_flags.bits(), 0);
    let copy = description.clone();
    assert_eq!(copy.id, u32::MAX);

    let traits = ReflectTypeDescriptionTraits::default();
    assert_eq!(traits.numeric, ReflectNumericTraits::default());
    assert_eq!(traits.numeric.scalar.width, 0);
    assert_eq!(traits.image, ReflectImageTraits::default());
    assert_eq!(traits.image.dim, ReflectDimension::Undefined);
    assert_eq!(traits.array.dims.len(), 0);
    assert_eq!(ReflectArrayTraits::default().stride, 0);
    assert_eq!(ReflectBindingArrayTraits::default().dims.len(), 0);

    let block = ReflectBlockVariable::default();
    assert_eq!(block.size, 0);
    assert_eq!(block.name, "");
    assert!(block.type_description.is_none());

    let module = ReflectShaderModule::default();
    assert_eq!(module.generator, ReflectGenerator::Unknown);
    assert_eq!(module.spirv_code.len(), 0);
    assert_eq!(module.find_type(1), None);
    let empty = ShaderModule::default();
    assert_eq!(empty.get_code().len(), 0);
    assert_eq!(empty.get_entry_point_name(), "");
    assert_eq!(empty.enumerate_descriptor_sets(None).unwrap().len(), 0);
    assert!(empty.enumerate_descriptor_sets(Some("main")).is_err());
}
