use spirv_reflect::types::{
    ReflectDecorationFlags, ReflectDescriptorType, ReflectFormat, ReflectResourceType,
    ReflectShaderStage, ReflectStorageClass, ReflectTypeFlags,
};
use spirv_reflect::ShaderModule;

const MAGIC: u32 = 0x0723_0203;

const OP_NAME: u32 = 5;
const OP_MEMBER_NAME: u32 = 6;
const OP_MEMORY_MODEL: u32 = 14;
const OP_ENTRY_POINT: u32 = 15;
const OP_EXECUTION_MODE: u32 = 16;
const OP_CAPABILITY: u32 = 17;
const OP_TYPE_VOID: u32 = 19;
const OP_TYPE_INT: u32 = 21;
const OP_TYPE_FLOAT: u32 = 22;
const OP_TYPE_VECTOR: u32 = 23;
const OP_TYPE_MATRIX: u32 = 24;
const OP_TYPE_ARRAY: u32 = 28;
const OP_TYPE_RUNTIME_ARRAY: u32 = 29;
const OP_TYPE_STRUCT: u32 = 30;
const OP_TYPE_POINTER: u32 = 32;
const OP_TYPE_FUNCTION: u32 = 33;
const OP_CONSTANT: u32 = 43;
const OP_FUNCTION: u32 = 54;
const OP_FUNCTION_END: u32 = 56;
const OP_VARIABLE: u32 = 59;
const OP_LOAD: u32 = 61;
const OP_DECORATE: u32 = 71;
const OP_MEMBER_DECORATE: u32 = 72;
const OP_LABEL: u32 = 248;
const OP_RETURN: u32 = 253;

const BLOCK: u32 = 2;
const BUFFER_BLOCK: u32 = 3;
const COL_MAJOR: u32 = 5;
const ARRAY_STRIDE: u32 = 6;
const MATRIX_STRIDE: u32 = 7;
const BUILT_IN: u32 = 11;
const NON_WRITABLE: u32 = 24;
const LOCATION: u32 = 30;
const BINDING: u32 = 33;
const DESCRIPTOR_SET: u32 = 34;
const OFFSET: u32 = 35;

const INPUT: u32 = 1;
const UNIFORM: u32 = 2;
const OUTPUT: u32 = 3;
const PUSH_CONSTANT: u32 = 9;

fn text(s: &str) -> Vec<u32> {
    let mut bytes: Vec<u8> = s.as_bytes().to_vec();
    bytes.push(0);
    while bytes.len() % 4 != 0 {
        bytes.push(0);
    }
    let mut words = Vec::new();
    let mut i = 0;
    while i < bytes.len() {
        words.push(
            (bytes[i] as u32)
                | ((bytes[i + 1] as u32) << 8)
                | ((bytes[i + 2] as u32) << 16)
                | ((bytes[i + 3] as u32) << 24),
        );
        i += 4;
    }
    words
}

fn inst(code: &mut Vec<u32>, op: u32, operands: &[u32]) {
    code.push((((operands.len() + 1) as u32) << 16) | op);
    code.extend_from_slice(operands);
}

fn inst_text(code: &mut Vec<u32>, op: u32, before: &[u32], s: &str, after: &[u32]) {
    let mut operands: Vec<u32> = before.to_vec();
    operands.extend(text(s));
    operands.extend_from_slice(after);
    inst(code, op, &operands);
}

// A vertex shader with a uniform block, a read-only storage block, a push
// constant block, one input and the per-vertex outputs. With `compute` a
// second entry point is added whose function loads the storage block.
fn vertex_shader(compute: bool) -> Vec<u32> {
    let mut code = vec![MAGIC, 0x0001_0000, 13 << 16, 40, 0];
    inst(&mut code, OP_CAPABILITY, &[1]);
    inst(&mut code, OP_MEMORY_MODEL, &[0, 1]);
    inst_text(&mut code, OP_ENTRY_POINT, &[0, 1], "main", &[21, 24]);
    if compute {
        inst_text(&mut code, OP_ENTRY_POINT, &[5, 30], "other", &[]);
        inst(&mut code, OP_EXECUTION_MODE, &[30, 17, 8, 4, 2]);
    }
    inst_text(&mut code, OP_NAME, &[14], "UBO", &[]);
    inst_text(&mut code, OP_MEMBER_NAME, &[14, 0], "mvp", &[]);
    inst_text(&mut code, OP_MEMBER_NAME, &[14, 1], "color", &[]);
    inst_text(&mut code, OP_MEMBER_NAME, &[14, 2], "scale", &[]);
    inst_text(&mut code, OP_MEMBER_NAME, &[14, 3], "inner", &[]);
    inst_text(&mut code, OP_NAME, &[13], "Inner", &[]);
    inst_text(&mut code, OP_MEMBER_NAME, &[13, 0], "a", &[]);
    inst_text(&mut code, OP_MEMBER_NAME, &[13, 1], "b", &[]);
    inst_text(&mut code, OP_NAME, &[16], "ubo", &[]);
    inst_text(&mut code, OP_NAME, &[17], "PC", &[]);
    inst_text(&mut code, OP_MEMBER_NAME, &[17, 0], "tint", &[]);
    inst_text(&mut code, OP_NAME, &[19], "pc", &[]);
    inst_text(&mut code, OP_NAME, &[21], "position", &[]);
    inst_text(&mut code, OP_NAME, &[22], "gl_PerVertex", &[]);
    inst_text(&mut code, OP_MEMBER_NAME, &[22, 0], "gl_Position", &[]);
    inst_text(&mut code, OP_MEMBER_NAME, &[22, 1], "gl_PointSize", &[]);
    inst_text(&mut code, OP_NAME, &[26], "SSBO", &[]);
    inst_text(&mut code, OP_MEMBER_NAME, &[26, 0], "data", &[]);
    inst_text(&mut code, OP_NAME, &[29], "ssbo", &[]);
    inst(&mut code, OP_DECORATE, &[14, BLOCK]);
    inst(&mut code, OP_MEMBER_DECORATE, &[14, 0, COL_MAJOR]);
    inst(&mut code, OP_MEMBER_DECORATE, &[14, 0, OFFSET, 0]);
    inst(&mut code, OP_MEMBER_DECORATE, &[14, 0, MATRIX_STRIDE, 16]);
    inst(&mut code, OP_MEMBER_DECORATE, &[14, 1, OFFSET, 64]);
    inst(&mut code, OP_MEMBER_DECORATE, &[14, 2, OFFSET, 80]);
    inst(&mut code, OP_MEMBER_DECORATE, &[14, 3, OFFSET, 128]);
    inst(&mut code, OP_DECORATE, &[12, ARRAY_STRIDE, 16]);
    inst(&mut code, OP_MEMBER_DECORATE, &[13, 0, OFFSET, 0]);
    inst(&mut code, OP_MEMBER_DECORATE, &[13, 1, OFFSET, 8]);
    inst(&mut code, OP_DECORATE, &[16, DESCRIPTOR_SET, 1]);
    inst(&mut code, OP_DECORATE, &[16, BINDING, 2]);
    inst(&mut code, OP_DECORATE, &[17, BLOCK]);
    inst(&mut code, OP_MEMBER_DECORATE, &[17, 0, OFFSET, 0]);
    inst(&mut code, OP_DECORATE, &[21, LOCATION, 0]);
    inst(&mut code, OP_DECORATE, &[22, BLOCK]);
    inst(&mut code, OP_MEMBER_DECORATE, &[22, 0, BUILT_IN, 0]);
    inst(&mut code, OP_MEMBER_DECORATE, &[22, 1, BUILT_IN, 1]);
    inst(&mut code, OP_DECORATE, &[26, BUFFER_BLOCK]);
    inst(&mut code, OP_MEMBER_DECORATE, &[26, 0, OFFSET, 0]);
    inst(&mut code, OP_MEMBER_DECORATE, &[26, 0, NON_WRITABLE]);
    inst(&mut code, OP_DECORATE, &[27, ARRAY_STRIDE, 4]);
    inst(&mut code, OP_DECORATE, &[29, DESCRIPTOR_SET, 0]);
    inst(&mut code, OP_DECORATE, &[29, BINDING, 0]);
    inst(&mut code, OP_TYPE_VOID, &[2]);
    inst(&mut code, OP_TYPE_FUNCTION, &[3, 2]);
    inst(&mut code, OP_TYPE_FLOAT, &[4, 32]);
    inst(&mut code, OP_TYPE_VECTOR, &[5, 4, 4]);
    inst(&mut code, OP_TYPE_VECTOR, &[6, 4, 3]);
    inst(&mut code, OP_TYPE_VECTOR, &[7, 4, 2]);
    inst(&mut code, OP_TYPE_INT, &[8, 32, 1]);
    inst(&mut code, OP_TYPE_INT, &[9, 32, 0]);
    inst(&mut code, OP_TYPE_MATRIX, &[10, 5, 4]);
    inst(&mut code, OP_CONSTANT, &[9, 11, 3]);
    inst(&mut code, OP_TYPE_ARRAY, &[12, 4, 11]);
    inst(&mut code, OP_TYPE_STRUCT, &[13, 7, 8]);
    inst(&mut code, OP_TYPE_STRUCT, &[14, 10, 5, 12, 13]);
    inst(&mut code, OP_TYPE_POINTER, &[15, UNIFORM, 14]);
    inst(&mut code, OP_VARIABLE, &[15, 16, UNIFORM]);
    inst(&mut code, OP_TYPE_STRUCT, &[17, 5]);
    inst(&mut code, OP_TYPE_POINTER, &[18, PUSH_CONSTANT, 17]);
    inst(&mut code, OP_VARIABLE, &[18, 19, PUSH_CONSTANT]);
    inst(&mut code, OP_TYPE_POINTER, &[20, INPUT, 6]);
    inst(&mut code, OP_VARIABLE, &[20, 21, INPUT]);
    inst(&mut code, OP_TYPE_STRUCT, &[22, 5, 4]);
    inst(&mut code, OP_TYPE_POINTER, &[23, OUTPUT, 22]);
    inst(&mut code, OP_VARIABLE, &[23, 24, OUTPUT]);
    inst(&mut code, OP_TYPE_RUNTIME_ARRAY, &[27, 9]);
    inst(&mut code, OP_TYPE_STRUCT, &[26, 27]);
    inst(&mut code, OP_TYPE_POINTER, &[28, UNIFORM, 26]);
    inst(&mut code, OP_VARIABLE, &[28, 29, UNIFORM]);
    inst(&mut code, OP_FUNCTION, &[2, 1, 0, 3]);
    inst(&mut code, OP_LABEL, &[25]);
    inst(&mut code, OP_RETURN, &[]);
    inst(&mut code, OP_FUNCTION_END, &[]);
    if compute {
        inst(&mut code, OP_FUNCTION, &[2, 30, 0, 3]);
        inst(&mut code, OP_LABEL, &[31]);
        inst(&mut code, OP_LOAD, &[26, 32, 29]);
        inst(&mut code, OP_RETURN, &[]);
        inst(&mut code, OP_FUNCTION_END, &[]);
    }
    code
}

#[test]
fn uniform_block_layout() {
    let module = ShaderModule::load_u32_data(&vertex_shader(false)).unwrap();
    let bindings = module.enumerate_descriptor_bindings(None).unwrap();
    assert_eq!(bindings.len(), 2);
    let ubo = &bindings[0].value;
    assert_eq!(bindings[0].ref_id, Some(0));
    assert_eq!(ubo.name, "ubo");
    assert_eq!(ubo.spirv_id, 16);
    assert_eq!(ubo.set, 1);
    assert_eq!(ubo.binding, 2);
    assert_eq!(ubo.descriptor_type, ReflectDescriptorType::UniformBuffer);
    assert_eq!(ubo.resource_type, ReflectResourceType::ConstantBufferView);
    assert_eq!(ubo.count, 1);
    let block = &ubo.block;
    assert_eq!(block.name, "UBO");
    assert_eq!(block.spirv_id, 16);
    assert_eq!(block.offset, 0);
    assert_eq!(block.absolute_offset, 0);
    assert_eq!(block.size, 140);
    assert_eq!(block.padded_size, 144);
    assert!(block.decoration_flags.contains(ReflectDecorationFlags::BLOCK));
    assert_eq!(block.members.len(), 4);

    let mvp = &block.members[0];
    assert_eq!(mvp.name, "mvp");
    assert_eq!(mvp.offset, 0);
    assert_eq!(mvp.absolute_offset, 0);
    assert_eq!(mvp.size, 64);
    assert_eq!(mvp.padded_size, 64);
    assert_eq!(mvp.numeric.matrix.column_count, 4);
    assert_eq!(mvp.numeric.matrix.row_count, 4);
    assert_eq!(mvp.numeric.matrix.stride, 16);
    assert!(mvp.decoration_flags.contains(ReflectDecorationFlags::COLUMN_MAJOR));

    let color = &block.members[1];
    assert_eq!(color.name, "color");
    assert_eq!(color.offset, 64);
    assert_eq!(color.size, 16);
    assert_eq!(color.padded_size, 16);

    let scale = &block.members[2];
    assert_eq!(scale.name, "scale");
    assert_eq!(scale.offset, 80);
    assert_eq!(scale.size, 48);
    assert_eq!(scale.padded_size, 48);
    assert_eq!(scale.array.dims, vec![3]);
    assert_eq!(scale.array.stride, 16);

    let inner = &block.members[3];
    assert_eq!(inner.name, "inner");
    assert_eq!(inner.offset, 128);
    assert_eq!(inner.absolute_offset, 128);
    assert_eq!(inner.size, 12);
    assert_eq!(inner.padded_size, 16);
    assert_eq!(inner.members.len(), 2);
    assert_eq!(inner.members[0].name, "a");
    assert_eq!(inner.members[0].offset, 0);
    assert_eq!(inner.members[0].absolute_offset, 128);
    assert_eq!(inner.members[0].size, 8);
    assert_eq!(inner.members[0].padded_size, 8);
    assert_eq!(inner.members[1].name, "b");
    assert_eq!(inner.members[1].offset, 8);
    assert_eq!(inner.members[1].absolute_offset, 136);
    assert_eq!(inner.members[1].size, 4);
    assert_eq!(inner.members[1].padded_size, 8);
    assert_eq!(inner.type_description.as_ref().unwrap().name, "Inner");
}

#[test]
fn storage_block_that_is_not_written_is_a_shader_resource_view() {
    let module = ShaderModule::load_u32_data(&vertex_shader(false)).unwrap();
    let bindings = module.enumerate_descriptor_bindings(None).unwrap();
    let ssbo = &bindings[1].value;
    assert_eq!(ssbo.name, "ssbo");
    assert_eq!(ssbo.descriptor_type, ReflectDescriptorType::StorageBuffer);
    assert_eq!(ssbo.resource_type, ReflectResourceType::ShaderResourceView);
    assert!(ssbo.block.decoration_flags.contains(ReflectDecorationFlags::BUFFER_BLOCK));
    assert!(ssbo.block.decoration_flags.contains(ReflectDecorationFlags::NON_WRITABLE));
    assert_eq!(ssbo.block.members.len(), 1);
    assert_eq!(ssbo.block.members[0].name, "data");
    assert_eq!(ssbo.block.members[0].array.stride, 4);
    assert_eq!(ssbo.block.members[0].array.dims, Vec::<u32>::new());
    assert_eq!(ssbo.block.members[0].size, 4);
}

#[test]
fn sets_come_in_ascending_order_of_their_numbers() {
    let module = ShaderModule::load_u32_data(&vertex_shader(false)).unwrap();
    let sets = module.enumerate_descriptor_sets(None).unwrap();
    assert_eq!(sets.len(), 2);
    assert_eq!(sets[0].value.set, 0);
    assert_eq!(sets[0].value.binding_refs.len(), 1);
    assert_eq!(sets[0].value.binding_refs[0].ref_id, Some(1));
    assert_eq!(sets[0].value.binding_refs[0].value.name, "ssbo");
    assert_eq!(sets[1].value.set, 1);
    assert_eq!(sets[1].value.binding_refs.len(), 1);
    assert_eq!(sets[1].value.binding_refs[0].ref_id, Some(0));
    assert_eq!(sets[1].value.binding_refs[0].value.name, "ubo");
}

#[test]
fn every_binding_is_in_one_set() {
    let module = ShaderModule::load_u32_data(&vertex_shader(false)).unwrap();
    let bindings = module.enumerate_descriptor_bindings(None).unwrap();
    let sets = module.enumerate_descriptor_sets(None).unwrap();
    for (index, binding) in bindings.iter().enumerate() {
        let with_number = sets.iter().filter(|s| s.value.set == binding.value.set).count();
        assert_eq!(with_number, 1);
        let mut referred = 0;
        for set in &sets {
            for binding_ref in &set.value.binding_refs {
                if binding_ref.ref_id == Some(index) {
                    assert_eq!(set.value.set, binding.value.set);
                    referred += 1;
                }
            }
        }
        assert_eq!(referred, 1);
    }
}

#[test]
fn push_constant_block() {
    let module = ShaderModule::load_u32_data(&vertex_shader(false)).unwrap();
    let blocks = module.enumerate_push_constant_blocks(None).unwrap();
    assert_eq!(blocks.len(), 1);
    assert_eq!(blocks[0].ref_id, Some(0));
    assert_eq!(blocks[0].entry_point_id, None);
    let block = &blocks[0].value;
    assert_eq!(block.spirv_id, 19);
    assert_eq!(block.name, "PC");
    assert_eq!(block.size, 16);
    assert_eq!(block.padded_size, 16);
    assert_eq!(block.members.len(), 1);
    assert_eq!(block.members[0].name, "tint");
    assert_eq!(block.members[0].size, 16);
    let used = module.enumerate_push_constant_blocks(Some("main")).unwrap();
    assert_eq!(used.len(), 1);
    assert_eq!(used[0].entry_point_id, Some(0));
}

#[test]
fn struct_description_has_its_member_count() {
    let module = ShaderModule::load_u32_data(&vertex_shader(false)).unwrap();
    let bindings = module.enumerate_descriptor_bindings(None).unwrap();
    let description = bindings[0].value.block.type_description.as_ref().unwrap();
    assert_eq!(description.id, 14);
    assert_eq!(description.op.code, OP_TYPE_STRUCT);
    assert_eq!(description.name, "UBO");
    assert!(description.type_flags.contains(ReflectTypeFlags::STRUCT));
    assert!(description.type_flags.contains(ReflectTypeFlags::EXTERNAL_BLOCK));
    assert!(description.decoration_flags.contains(ReflectDecorationFlags::BLOCK));
    assert_eq!(description.members.len(), 4);
    let mvp = &description.members[0];
    assert_eq!(mvp.id, 10);
    assert_eq!(mvp.op.code, OP_TYPE_MATRIX);
    assert_eq!(mvp.struct_member_name, "mvp");
    assert_eq!(
        mvp.type_flags.bits(),
        ReflectTypeFlags::MATRIX | ReflectTypeFlags::VECTOR | ReflectTypeFlags::FLOAT
    );
    assert_eq!(mvp.traits.numeric.scalar.width, 32);
    assert_eq!(mvp.traits.numeric.vector.component_count, 4);
    assert_eq!(mvp.traits.numeric.matrix.column_count, 4);
    assert_eq!(mvp.traits.numeric.matrix.row_count, 4);
    assert_eq!(mvp.traits.numeric.matrix.stride, 16);
    let color = &description.members[1];
    assert_eq!(color.traits.numeric.vector.component_count, 4);
    let scale = &description.members[2];
    assert_eq!(scale.id, 12);
    assert_eq!(scale.op.code, OP_TYPE_ARRAY);
    assert!(scale.type_flags.contains(ReflectTypeFlags::ARRAY));
    assert_eq!(scale.traits.array.dims, vec![3]);
    assert_eq!(scale.traits.array.stride, 16);
    let inner = &description.members[3];
    assert_eq!(inner.name, "Inner");
    assert_eq!(inner.members.len(), 2);
    assert_eq!(inner.members[0].struct_member_name, "a");
    assert_eq!(inner.members[1].struct_member_name, "b");
    assert_eq!(inner.members[1].traits.numeric.scalar.signedness, 1);
}

#[test]
fn interface_variables_of_a_vertex_shader() {
    let module = ShaderModule::load_u32_data(&vertex_shader(false)).unwrap();
    assert_eq!(module.get_shader_stage(), ReflectShaderStage::Vertex);
    assert_eq!(module.get_source_language(), None);
    let inputs = module.enumerate_input_variables(None).unwrap();
    assert_eq!(inputs.len(), 1);
    assert_eq!(inputs[0].name, "position");
    assert_eq!(inputs[0].spirv_id, 21);
    assert_eq!(inputs[0].location, 0);
    assert_eq!(inputs[0].format, ReflectFormat::R32G32B32_SFLOAT);
    assert_eq!(inputs[0].storage_class, ReflectStorageClass::Input);
    assert!(inputs[0].word_offset > 5);
    assert_eq!(module.get_code()[inputs[0].word_offset as usize], 0);
    let outputs = module.enumerate_output_variables(None).unwrap();
    assert_eq!(outputs.len(), 1);
    assert_eq!(outputs[0].spirv_id, 24);
    assert_eq!(outputs[0].format, ReflectFormat::Undefined);
    assert!(outputs[0].decoration_flags.contains(ReflectDecorationFlags::BUILT_IN));
    assert_eq!(outputs[0].members.len(), 2);
    assert_eq!(outputs[0].members[0].name, "gl_Position");
    assert_eq!(outputs[0].members[0].built_in.code, 0);
    assert!(outputs[0].members[0].decoration_flags.contains(ReflectDecorationFlags::BUILT_IN));
    assert_eq!(outputs[0].members[0].format, ReflectFormat::R32G32B32A32_SFLOAT);
    assert_eq!(outputs[0].members[1].name, "gl_PointSize");
    assert_eq!(outputs[0].members[1].built_in.code, 1);
    assert_eq!(outputs[0].members[1].format, ReflectFormat::R32_SFLOAT);
}

#[test]
fn second_entry_point_uses_what_it_loads() {
    let module = ShaderModule::load_u32_data(&vertex_shader(true)).unwrap();
    let entry_points = module.enumerate_entry_points().unwrap();
    assert_eq!(entry_points.len(), 2);
    assert_eq!(entry_points[0].name, "main");
    assert_eq!(entry_points[0].shader_stage, ReflectShaderStage::Vertex);
    assert_eq!(entry_points[0].used_uniforms, Vec::<u32>::new());
    assert_eq!(entry_points[0].descriptor_sets.len(), 0);
    assert_eq!(entry_points[0].local_size.x, 0);
    assert_eq!(entry_points[1].name, "other");
    assert_eq!(entry_points[1].id, 30);
    assert_eq!(entry_points[1].shader_stage, ReflectShaderStage::Compute);
    assert_eq!(entry_points[1].spirv_execution_model, Some(5));
    assert_eq!(entry_points[1].used_uniforms, vec![29]);
    assert_eq!(entry_points[1].local_size.x, 8);
    assert_eq!(entry_points[1].local_size.y, 4);
    assert_eq!(entry_points[1].local_size.z, 2);
    assert_eq!(entry_points[1].input_variables.len(), 0);

    let sets = module.enumerate_descriptor_sets(Some("other")).unwrap();
    assert_eq!(sets.len(), 1);
    assert_eq!(sets[0].entry_point_id, Some(1));
    assert_eq!(sets[0].value.set, 0);
    assert_eq!(sets[0].value.binding_refs.len(), 1);
    assert_eq!(sets[0].value.binding_refs[0].ref_id, Some(1));
    assert_eq!(sets[0].value.binding_refs[0].entry_point_id, Some(1));
    let bindings = module.enumerate_descriptor_bindings(Some("other")).unwrap();
    assert_eq!(bindings.len(), 1);
    assert_eq!(bindings[0].value.name, "ssbo");
    assert_eq!(module.enumerate_descriptor_bindings(Some("main")).unwrap().len(), 0);
    assert_eq!(module.enumerate_descriptor_bindings(None).unwrap().len(), 2);
}

#[test]
fn unknown_entry_point_is_an_error() {
    let module = ShaderModule::load_u32_data(&vertex_shader(false)).unwrap();
    assert_eq!(
        module.enumerate_descriptor_bindings(Some("nothing")).unwrap_err(),
        "Error enumerating descriptor bindings - entry point not found"
    );
    assert_eq!(
        module.enumerate_descriptor_sets(Some("nothing")).unwrap_err(),
        "Error enumerating descriptor sets - entry point not found"
    );
    assert_eq!(
        module.enumerate_input_variables(Some("nothing")).unwrap_err(),
        "Error enumerating input variables - entry point not found"
    );
    assert_eq!(
        module.enumerate_output_variables(Some("nothing")).unwrap_err(),
        "Error enumerating output variables - entry point not found"
    );
    assert_eq!(
        module.enumerate_push_constant_blocks(Some("nothing")).unwrap_err(),
        "Error enumerating push constant blocks - entry point not found"
    );
    assert!(module.enumerate_descriptor_bindings(Some("main")).is_ok());
}

#[test]
fn set_number_is_changed_for_every_binding_of_the_set() {
    let mut module = ShaderModule::load_u32_data(&vertex_shader(false)).unwrap();
    let sets = module.enumerate_descriptor_sets(None).unwrap();
    let offset = sets[1].value.binding_refs[0].value.word_offset.1 as usize;
    assert_eq!(module.get_code()[offset], 1);
    module.change_descriptor_set_number(&sets[1].value, 7).unwrap();
    assert_eq!(module.get_code()[offset], 7);
    let after = module.enumerate_descriptor_sets(None).unwrap();
    assert_eq!(after.len(), 2);
    assert_eq!(after[1].value.set, 7);
    assert_eq!(after[1].value.binding_refs[0].value.set, 7);
    assert_eq!(after[1].value.binding_refs[0].value.name, "ubo");
    let again = module.change_descriptor_set_number(&sets[1].value, 9);
    assert_eq!(
        again.unwrap_err(),
        "Error attempting to change descriptor set number - set not found"
    );
    module.change_descriptor_set_number(&after[1].value, 0).unwrap();
    let merged = module.enumerate_descriptor_sets(None).unwrap();
    assert_eq!(merged.len(), 1);
    assert_eq!(merged[0].value.binding_refs.len(), 2);
    assert_eq!(merged[0].value.binding_refs[0].value.name, "ubo");
    assert_eq!(merged[0].value.binding_refs[1].value.name, "ssbo");
}

#[test]
fn location_is_changed_in_model_and_words() {
    let mut module = ShaderModule::load_u32_data(&vertex_shader(false)).unwrap();
    let inputs = module.enumerate_input_variables(None).unwrap();
    let offset = inputs[0].word_offset as usize;
    module.change_input_variable_location(&inputs[0], 8).unwrap();
    assert_eq!(module.get_code()[offset], 8);
    assert_eq!(module.enumerate_input_variables(None).unwrap()[0].location, 8);
    assert_eq!(module.enumerate_input_variables(Some("main")).unwrap()[0].location, 8);
    assert_eq!(module.enumerate_entry_points().unwrap()[0].input_variables[0].location, 8);

    let outputs = module.enumerate_output_variables(None).unwrap();
    let before = module.get_code().to_vec();
    assert_eq!(
        module.change_output_variable_location(&outputs[0], 3).unwrap_err(),
        "Error attempting to change variable location - word offset range exceeded"
    );
    assert_eq!(
        module.change_output_variable_location(&inputs[0], 3).unwrap_err(),
        "Error attempting to change variable location - variable not found"
    );
    assert_eq!(module.get_code(), &before[..]);
}

#[test]
fn interface_names_inputs_and_outputs_only() {
    let mut code = vec![MAGIC, 0x0001_0400, 0, 40, 0];
    inst_text(&mut code, OP_ENTRY_POINT, &[5, 1], "main", &[21, 29]);
    inst(&mut code, OP_DECORATE, &[29, DESCRIPTOR_SET, 0]);
    inst(&mut code, OP_DECORATE, &[29, BINDING, 0]);
    inst(&mut code, OP_TYPE_FLOAT, &[4, 32]);
    inst(&mut code, OP_TYPE_POINTER, &[20, INPUT, 4]);
    inst(&mut code, OP_VARIABLE, &[20, 21, INPUT]);
    inst(&mut code, OP_TYPE_POINTER, &[28, UNIFORM, 4]);
    inst(&mut code, OP_VARIABLE, &[28, 29, UNIFORM]);
    match ShaderModule::load_u32_data(&code) {
        Ok(_) => panic!("loaded"),
        Err(message) => assert_eq!(message, "Invalid SPIR-V storage class!"),
    }

    let mut untyped = vec![MAGIC, 0x0001_0400, 0, 40, 0];
    inst_text(&mut untyped, OP_ENTRY_POINT, &[5, 1], "main", &[29]);
    inst(&mut untyped, OP_TYPE_FLOAT, &[4, 32]);
    inst(&mut untyped, OP_VARIABLE, &[28, 29, UNIFORM]);
    match ShaderModule::load_u32_data(&untyped) {
        Ok(_) => panic!("loaded"),
        Err(message) => assert_eq!(message, "Invalid SPIR-V ID reference"),
    }

    let mut missing = vec![MAGIC, 0x0001_0400, 0, 40, 0];
    inst_text(&mut missing, OP_ENTRY_POINT, &[5, 1], "main", &[29, 77]);
    inst(&mut missing, OP_TYPE_FLOAT, &[4, 32]);
    inst(&mut missing, OP_TYPE_POINTER, &[28, UNIFORM, 4]);
    inst(&mut missing, OP_VARIABLE, &[28, 29, UNIFORM]);
    match ShaderModule::load_u32_data(&missing) {
        Ok(_) => panic!("loaded"),
        Err(message) => assert_eq!(message, "Invalid SPIR-V ID reference"),
    }
}
