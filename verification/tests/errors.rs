use spirv_reflect::error::{result_to_string, ReflectError, ReflectResult};
use spirv_reflect::types::module::ReflectShaderModule;
use spirv_reflect::types::{
    ReflectBindingArrayTraits, ReflectBlockVariable, ReflectDescriptorBinding,
    ReflectDescriptorType, ReflectImageTraits, ReflectResourceType,
};
use spirv_reflect::words::literal_words;
use spirv_reflect::{create_shader_module, ShaderModule};

const MAGIC: u32 = 0x0723_0203;

fn header() -> Vec<u32> {
    vec![MAGIC, 0x0001_0000, 0, 100, 0]
}

fn inst(code: &mut Vec<u32>, op: u32, operands: &[u32]) {
    code.push((((operands.len() + 1) as u32) << 16) | op);
    code.extend_from_slice(operands);
}

fn error_of(words: &[u32]) -> String {
    match create_shader_module(words) {
        Ok(_) => String::from("no error"),
        Err(message) => message,
    }
}

// 65 sampler variables, variable `i` in set `i` with binding 0, of which
// the first `count` are declared.
fn samplers(count: u32) -> Vec<u32> {
    let mut code = header();
    inst(&mut code, 17, &[1]);
    for i in 0..count {
        inst(&mut code, 71, &[10 + i, 34, i]);
        inst(&mut code, 71, &[10 + i, 33, 0]);
    }
    inst(&mut code, 26, &[1]);
    inst(&mut code, 32, &[2, 0, 1]);
    for i in 0..count {
        inst(&mut code, 59, &[2, 10 + i, 0]);
    }
    code
}

#[test]
fn empty_input_is_refused() {
    assert_eq!(error_of(&[]), "No SPIR-V specified for shader module");
    assert_eq!(ReflectError::NoInput.message(), "No SPIR-V specified for shader module");
}

#[test]
fn byte_length_must_be_a_multiple_of_four() {
    let mut bytes = Vec::new();
    for word in header() {
        bytes.extend_from_slice(&word.to_ne_bytes());
    }
    bytes.extend_from_slice(&[0x11, 0x00, 0x02]);
    match ShaderModule::load_u8_data(&bytes) {
        Ok(_) => panic!("loaded"),
        Err(message) => assert_eq!(
            message,
            "Invalid SPIR-V data - length must be evenly divisible by WORD size (4)"
        ),
    }
    match ShaderModule::load_u8_data(&bytes[..1]) {
        Ok(_) => panic!("loaded"),
        Err(message) => assert_eq!(message, ReflectError::InvalidCodeSize.as_str()),
    }
}

#[test]
fn magic_number_is_checked() {
    let mut code = header();
    code[0] = 0x0302_2307;
    inst(&mut code, 17, &[1]);
    assert_eq!(error_of(&code), "Invalid SPIR-V - does not start with valid magic number.");
}

#[test]
fn truncated_input_is_refused() {
    assert_eq!(error_of(&[MAGIC, 0x0001_0000, 0]), "Invalid SPIR-V - unexpected end of data");
    let mut code = header();
    code.push((4 << 16) | 17);
    code.push(1);
    assert_eq!(error_of(&code), "Invalid SPIR-V - unexpected end of data");
}

#[test]
fn header_without_instructions_is_refused() {
    assert_eq!(error_of(&header()), "No nodes found in SPIR-V binary, invalid!");
}

#[test]
fn invalid_instructions_are_refused() {
    let mut zero_count = header();
    zero_count.push(17);
    assert_eq!(error_of(&zero_count), "Invalid SPIR-V op!");

    let mut undefined = header();
    inst(&mut undefined, 9, &[]);
    assert_eq!(error_of(&undefined), "Invalid SPIR-V op!");
    let mut undefined_high = header();
    inst(&mut undefined_high, 0xFFFF, &[1]);
    assert_eq!(error_of(&undefined_high), "Invalid SPIR-V op!");

    let mut short = header();
    inst(&mut short, 21, &[1, 32]);
    assert_eq!(error_of(&short), "Invalid SPIR-V op!");

    let mut short_decoration = header();
    inst(&mut short_decoration, 71, &[1, 33]);
    assert_eq!(error_of(&short_decoration), "Invalid SPIR-V op!");

    let mut whole = header();
    inst(&mut whole, 21, &[1, 32, 0]);
    inst(&mut whole, 71, &[1, 2]);
    assert!(create_shader_module(&whole).is_ok());
}

#[test]
fn storage_class_must_be_defined() {
    let mut code = header();
    inst(&mut code, 22, &[1, 32]);
    inst(&mut code, 32, &[2, 13, 1]);
    assert_eq!(error_of(&code), "Invalid SPIR-V storage class!");

    let mut variable = header();
    inst(&mut variable, 22, &[1, 32]);
    inst(&mut variable, 32, &[2, 6, 1]);
    inst(&mut variable, 59, &[2, 3, 4000]);
    assert_eq!(error_of(&variable), "Invalid SPIR-V storage class!");

    let mut private = header();
    inst(&mut private, 22, &[1, 32]);
    inst(&mut private, 32, &[2, 6, 1]);
    inst(&mut private, 59, &[2, 3, 6]);
    assert!(create_shader_module(&private).is_ok());
}

#[test]
fn extension_storage_class_is_defined_and_has_no_description() {
    let mut code = header();
    inst(&mut code, 22, &[1, 32]);
    inst(&mut code, 32, &[2, 5328, 1]);
    assert_eq!(error_of(&code), "Invalid SPIR-V ID reference");
}

#[test]
fn missing_ids_are_refused() {
    let mut vector = header();
    inst(&mut vector, 23, &[2, 1, 4]);
    assert_eq!(error_of(&vector), "Invalid SPIR-V ID reference");

    let mut array = header();
    inst(&mut array, 22, &[1, 32]);
    inst(&mut array, 28, &[2, 1, 7]);
    assert_eq!(error_of(&array), "Invalid SPIR-V ID reference");

    let mut member = header();
    inst(&mut member, 30, &[2, 1]);
    assert_eq!(error_of(&member), "Invalid SPIR-V ID reference");

    let mut variable = header();
    inst(&mut variable, 71, &[3, 34, 0]);
    inst(&mut variable, 71, &[3, 33, 0]);
    inst(&mut variable, 59, &[2, 3, 0]);
    assert_eq!(error_of(&variable), "Invalid SPIR-V ID reference");

    let mut interface = header();
    interface.push((5 << 16) | 15);
    interface.extend_from_slice(&[4, 1, 0x0000_0061, 77]);
    assert_eq!(error_of(&interface), "Invalid SPIR-V ID reference");
}

#[test]
fn array_length_must_be_a_constant_with_a_value() {
    let mut code = header();
    inst(&mut code, 22, &[1, 32]);
    inst(&mut code, 46, &[1, 7]);
    inst(&mut code, 28, &[2, 1, 7]);
    assert_eq!(error_of(&code), "Invalid SPIR-V op!");
}

#[test]
fn strings_must_end_and_be_utf8() {
    let mut endless = header();
    inst(&mut endless, 5, &[1, 0x6161_6161]);
    assert_eq!(error_of(&endless), "Invalid SPIR-V - string is not valid");

    let mut not_utf8 = header();
    inst(&mut not_utf8, 5, &[1, 0x0000_FFFF]);
    assert_eq!(error_of(&not_utf8), "Invalid SPIR-V - string is not valid");

    let mut entry = header();
    inst(&mut entry, 15, &[4, 1, 0x6E69_616D]);
    assert_eq!(error_of(&entry), "Invalid SPIR-V - string is not valid");

    let mut fine = header();
    inst(&mut fine, 5, &[1, 0x0000_A9C3]);
    assert!(create_shader_module(&fine).is_ok());
}

#[test]
fn type_that_refers_to_itself_is_refused() {
    let mut code = header();
    inst(&mut code, 32, &[1, 2, 1]);
    assert_eq!(error_of(&code), "Invalid SPIR-V - recursive type");

    let mut long = header();
    inst(&mut long, 28, &[1, 2, 3]);
    inst(&mut long, 28, &[2, 1, 3]);
    inst(&mut long, 43, &[4, 3, 2]);
    assert_eq!(error_of(&long), "Invalid SPIR-V - recursive type");
}

#[test]
fn more_than_64_sets_are_refused() {
    let module = create_shader_module(&samplers(64)).unwrap();
    assert_eq!(module.enumerate_descriptor_sets(None).unwrap().len(), 64);
    assert_eq!(
        error_of(&samplers(65)),
        "Error building descriptor sets - no more slots available"
    );
}

#[test]
fn change_that_needs_a_65th_set_changes_nothing() {
    let mut code = samplers(64);
    inst(&mut code, 71, &[200, 34, 5]);
    inst(&mut code, 71, &[200, 33, 1]);
    inst(&mut code, 59, &[2, 200, 0]);
    let mut module = create_shader_module(&code).unwrap();
    assert_eq!(module.enumerate_descriptor_bindings(None).unwrap().len(), 65);
    let changed = module.change_descriptor_binding_numbers(64, Some(9), Some(1000));
    assert_eq!(
        changed.unwrap_err(),
        "Error building descriptor sets - no more slots available"
    );
    assert_eq!(module.get_code(), &code[..]);
    let bindings = module.enumerate_descriptor_bindings(None).unwrap();
    assert_eq!(bindings[64].value.set, 5);
    assert_eq!(bindings[64].value.binding, 1);
    assert_eq!(module.enumerate_descriptor_sets(None).unwrap().len(), 64);
    module.change_descriptor_binding_numbers(64, Some(9), Some(63)).unwrap();
    let sets = module.enumerate_descriptor_sets(None).unwrap();
    assert_eq!(sets[63].value.binding_refs.len(), 2);
    assert_eq!(sets[5].value.binding_refs.len(), 1);
}

#[test]
fn binding_with_the_set_number_of_a_free_slot_is_in_no_set() {
    let mut code = header();
    inst(&mut code, 71, &[3, 34, 0xFFFF_FFFF]);
    inst(&mut code, 71, &[3, 33, 0]);
    inst(&mut code, 26, &[1]);
    inst(&mut code, 32, &[2, 0, 1]);
    inst(&mut code, 59, &[2, 3, 0]);
    let module = create_shader_module(&code).unwrap();
    assert_eq!(module.enumerate_descriptor_bindings(None).unwrap().len(), 1);
    assert_eq!(module.enumerate_descriptor_sets(None).unwrap().len(), 0);
}

#[test]
fn binding_index_must_be_in_range() {
    let mut module = create_shader_module(&samplers(2)).unwrap();
    assert_eq!(
        module.change_descriptor_binding_numbers(2, Some(1), None).unwrap_err(),
        "Error attempting to change descriptor binding numbers - index is out of range"
    );
    assert!(module.change_descriptor_binding_numbers(1, Some(1), None).is_ok());
}

fn loose_binding(binding_offset: u32, set_offset: u32) -> ReflectDescriptorBinding {
    ReflectDescriptorBinding {
        spirv_id: 1,
        name: String::from("b"),
        binding: 0,
        input_attachment_index: 0,
        set: 0,
        descriptor_type: ReflectDescriptorType::Sampler,
        resource_type: ReflectResourceType::Sampler,
        image: ReflectImageTraits::default(),
        block: ReflectBlockVariable::default(),
        array: ReflectBindingArrayTraits::default(),
        count: 1,
        uav_counter_id: 0,
        uav_counter_index: None,
        type_index: None,
        word_offset: (binding_offset, set_offset),
    }
}

#[test]
fn recorded_offsets_must_lie_inside_the_words() {
    let mut module = ReflectShaderModule::default();
    module.spirv_code = vec![0; 8];
    module.descriptor_bindings.push(loose_binding(8, 6));
    assert_eq!(
        module.renumber_binding(0, Some(1), Some(1)),
        Err(ReflectError::BindingOffsetExceeded)
    );
    module.descriptor_bindings[0] = loose_binding(7, 9);
    assert_eq!(
        module.renumber_binding(0, Some(1), Some(1)),
        Err(ReflectError::SetOffsetExceeded)
    );
    assert_eq!(module.renumber_set(0, 4), Err(ReflectError::SetOffsetExceeded));
    assert_eq!(module.spirv_code, vec![0; 8]);
    module.descriptor_bindings[0] = loose_binding(7, 6);
    assert_eq!(module.renumber_binding(0, Some(3), Some(2)), Ok(()));
    assert_eq!(module.spirv_code, vec![0, 0, 0, 0, 0, 0, 2, 3]);
    assert_eq!(module.descriptor_sets.len(), 1);
    assert_eq!(module.descriptor_sets[0].set, 2);
}

#[test]
fn every_failure_has_its_text_and_its_outcome() {
    assert_eq!(
        ReflectError::BindingOffsetExceeded.message(),
        "Error attempting to change descriptor binding numbers - binding word offset range exceeded"
    );
    assert_eq!(
        ReflectError::SetOffsetExceeded.as_str(),
        "Error attempting to change descriptor binding numbers - set word offset range exceeded"
    );
    assert_eq!(ReflectError::NoInput.result(), ReflectResult::ErrorSpirvInvalidCodeSize);
    assert_eq!(
        ReflectError::InvalidMagicNumber.result(),
        ReflectResult::ErrorSpirvInvalidMagicNumber
    );
    assert_eq!(ReflectError::UnexpectedEof.result(), ReflectResult::ErrorSpirvUnexpectedEof);
    assert_eq!(ReflectError::InvalidInstruction.result(), ReflectResult::ErrorParseFailed);
    assert_eq!(ReflectError::Recursion.result(), ReflectResult::ErrorSpirvRecursion);
    assert_eq!(
        ReflectError::SetNumberOverflow.result(),
        ReflectResult::ErrorSpirvSetNumberOverflow
    );
    assert_eq!(ReflectError::SetNotFound.result(), ReflectResult::ErrorElementNotFound);
    assert_eq!(ReflectError::BindingIndexOutOfRange.result(), ReflectResult::ErrorRangeExceeded);
    assert_eq!(result_to_string(ReflectResult::Success), "Success");
    assert_eq!(result_to_string(ReflectResult::NotReady), "Result Not Ready");
    assert_eq!(result_to_string(ReflectResult::ErrorParseFailed), "Parse Failed");
    assert_eq!(result_to_string(ReflectResult::ErrorAllocFailed), "Allocation Failed");
    assert_eq!(result_to_string(ReflectResult::ErrorRangeExceeded), "Range Exceeded");
    assert_eq!(result_to_string(ReflectResult::ErrorNullPointer), "Null Pointer");
    assert_eq!(result_to_string(ReflectResult::ErrorInternalError), "Internal Error");
    assert_eq!(result_to_string(ReflectResult::ErrorCountMismatch), "Count Mismatch");
    assert_eq!(result_to_string(ReflectResult::ErrorElementNotFound), "Element Not Found");
    assert_eq!(result_to_string(ReflectResult::ErrorSpirvInvalidCodeSize), "Invalid Code Size");
    assert_eq!(
        result_to_string(ReflectResult::ErrorSpirvInvalidMagicNumber),
        "Invalid Magic Number"
    );
    assert_eq!(result_to_string(ReflectResult::ErrorSpirvUnexpectedEof), "Unexpected EoF");
    assert_eq!(
        result_to_string(ReflectResult::ErrorSpirvInvalidIdReference),
        "Invalid ID Reference"
    );
    assert_eq!(
        result_to_string(ReflectResult::ErrorSpirvSetNumberOverflow),
        "Set Number Overflow"
    );
    assert_eq!(
        result_to_string(ReflectResult::ErrorSpirvInvalidStorageClass),
        "Invalid Storage Class"
    );
    assert_eq!(result_to_string(ReflectResult::ErrorSpirvRecursion), "Spirv Recursion");
}

#[test]
fn literal_string_fills_whole_words() {
    assert_eq!(literal_words(0), 1);
    assert_eq!(literal_words(3), 1);
    assert_eq!(literal_words(4), 2);
    assert_eq!(literal_words(7), 2);
    assert_eq!(literal_words(8), 3);
}

#[test]
fn sets_built_twice_are_the_same() {
    let mut module = ReflectShaderModule::default();
    module.spirv_code = vec![0; 8];
    let mut first = loose_binding(6, 7);
    first.set = 4;
    let mut second = loose_binding(6, 7);
    second.spirv_id = 2;
    second.set = 1;
    let mut third = loose_binding(6, 7);
    third.spirv_id = 3;
    third.set = 4;
    module.descriptor_bindings.push(first);
    module.descriptor_bindings.push(second);
    module.descriptor_bindings.push(third);
    assert_eq!(module.build_descriptor_sets(), Ok(()));
    let once: Vec<(u32, Vec<Option<usize>>)> = module
        .descriptor_sets
        .iter()
        .map(|set| (set.set, set.binding_refs.iter().map(|r| r.ref_id).collect()))
        .collect();
    assert_eq!(once, vec![(1, vec![Some(1)]), (4, vec![Some(0), Some(2)])]);
    assert_eq!(module.build_descriptor_sets(), Ok(()));
    let twice: Vec<(u32, Vec<Option<usize>>)> = module
        .descriptor_sets
        .iter()
        .map(|set| (set.set, set.binding_refs.iter().map(|r| r.ref_id).collect()))
        .collect();
    assert_eq!(once, twice);
    assert_eq!(module.descriptor_sets[1].binding_refs[1].value.spirv_id, 3);
}

#[test]
fn copy_of_a_module_is_its_own() {
    let mut module = create_shader_module(&samplers(3)).unwrap();
    let copy = module.clone();
    module.change_descriptor_binding_numbers(0, Some(7), Some(9)).unwrap();
    assert_eq!(copy.get_code(), &samplers(3)[..]);
    assert_eq!(copy.enumerate_descriptor_bindings(None).unwrap()[0].value.binding, 0);
    assert_eq!(module.enumerate_descriptor_bindings(None).unwrap()[0].value.binding, 7);
    assert_eq!(copy.enumerate_descriptor_sets(None).unwrap().len(), 3);
    assert_eq!(module.enumerate_descriptor_sets(None).unwrap()[2].value.set, 9);
}

#[test]
fn two_definitions_of_one_id_are_refused() {
    let mut code = header();
    inst(&mut code, 19, &[1]);
    inst(&mut code, 20, &[1]);
    assert_eq!(error_of(&code), "Invalid SPIR-V - duplicate result id");
    assert_eq!(ReflectError::DuplicateId.message(), "Invalid SPIR-V - duplicate result id");
    assert_eq!(ReflectError::DuplicateId.result(), ReflectResult::ErrorSpirvInvalidIdReference);

    let mut far = header();
    inst(&mut far, 22, &[1, 32]);
    inst(&mut far, 32, &[2, 1, 1]);
    inst(&mut far, 59, &[2, 3, 1]);
    inst(&mut far, 17, &[1]);
    inst(&mut far, 43, &[1, 3, 7]);
    assert_eq!(error_of(&far), "Invalid SPIR-V - duplicate result id");

    let mut variable_and_type = header();
    inst(&mut variable_and_type, 22, &[1, 32]);
    inst(&mut variable_and_type, 32, &[2, 6, 1]);
    inst(&mut variable_and_type, 59, &[2, 1, 6]);
    assert_eq!(error_of(&variable_and_type), "Invalid SPIR-V - duplicate result id");

    let mut distinct = header();
    inst(&mut distinct, 19, &[1]);
    inst(&mut distinct, 20, &[2]);
    inst(&mut distinct, 17, &[1]);
    inst(&mut distinct, 17, &[1]);
    assert!(create_shader_module(&distinct).is_ok());
}

#[test]
fn forward_pointer_defines_no_id() {
    let mut code = header();
    inst(&mut code, 71, &[9, 34, 0]);
    inst(&mut code, 71, &[9, 33, 0]);
    inst(&mut code, 39, &[2, 0]);
    inst(&mut code, 26, &[1]);
    inst(&mut code, 32, &[2, 0, 1]);
    inst(&mut code, 59, &[2, 9, 0]);
    let module = create_shader_module(&code).unwrap();
    let bindings = module.enumerate_descriptor_bindings(None).unwrap();
    assert_eq!(bindings.len(), 1);
    assert_eq!(bindings[0].value.descriptor_type, ReflectDescriptorType::Sampler);
    assert_eq!(bindings[0].value.type_index, Some(0));

    let mut undefined_class = header();
    inst(&mut undefined_class, 39, &[2, 13]);
    assert_eq!(error_of(&undefined_class), "Invalid SPIR-V storage class!");
}
