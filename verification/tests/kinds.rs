use spirv_reflect::types::{
    ReflectDecorationFlags, ReflectDescriptorType, ReflectDimension, ReflectFormat,
    ReflectImageFormat, ReflectResourceType, ReflectStorageClass, ReflectTypeFlags,
};
use spirv_reflect::create_shader_module;

const MAGIC: u32 = 0x0723_0203;

fn text(s: &str) -> Vec<u32> {
    let mut bytes: Vec<u8> = s.as_bytes().to_vec();
    bytes.push(0);
    while bytes.len() % 4 != 0 {
        bytes.push(0);
    }
    let mut words = Vec::new();
    let mut i = 0;
    while i < bytes.len() {
        words.push(
            (bytes[i] as u32)
                | ((bytes[i + 1] as u32) << 8)
                | ((bytes[i + 2] as u32) << 16)
                | ((bytes[i + 3] as u32) << 24),
        );
        i += 4;
    }
    words
}

fn inst(code: &mut Vec<u32>, op: u32, operands: &[u32]) {
    code.push((((operands.len() + 1) as u32) << 16) | op);
    code.extend_from_slice(operands);
}

fn inst_text(code: &mut Vec<u32>, op: u32, before: &[u32], s: &str, after: &[u32]) {
    let mut operands: Vec<u32> = before.to_vec();
    operands.extend(text(s));
    operands.extend_from_slice(after);
    inst(code, op, &operands);
}

fn start() -> Vec<u32> {
    let mut code = vec![MAGIC, 0x0001_0300, 0, 200, 0];
    inst(&mut code, 17, &[1]);
    code
}

// Declares the variable `id` in the uniform constant class with the type
// `type_id`, through the pointer type `pointer_id`, in set 0 with the
// binding `binding`.
fn resource(code: &mut Vec<u32>, pointer_id: u32, type_id: u32, id: u32, binding: u32) {
    inst(code, 71, &[id, 34, 0]);
    inst(code, 71, &[id, 33, binding]);
    inst(code, 32, &[pointer_id, 0, type_id]);
    inst(code, 59, &[pointer_id, id, 0]);
}

#[test]
fn image_kinds_give_their_descriptor_types() {
    let mut code = start();
    inst(&mut code, 22, &[1, 32]);
    inst(&mut code, 25, &[10, 1, 1, 0, 0, 0, 1, 0]);
    inst(&mut code, 25, &[11, 1, 1, 0, 0, 0, 2, 4]);
    inst(&mut code, 25, &[12, 1, 5, 0, 0, 0, 1, 0]);
    inst(&mut code, 25, &[13, 1, 5, 0, 0, 0, 2, 33]);
    inst(&mut code, 25, &[14, 1, 6, 0, 0, 0, 2, 0]);
    inst(&mut code, 27, &[15, 10]);
    inst(&mut code, 27, &[16, 12]);
    inst(&mut code, 26, &[17]);
    inst(&mut code, 25, &[18, 1, 3, 1, 1, 1, 0, 0]);
    resource(&mut code, 30, 10, 50, 0);
    resource(&mut code, 31, 11, 51, 1);
    resource(&mut code, 32, 12, 52, 2);
    resource(&mut code, 33, 13, 53, 3);
    resource(&mut code, 34, 14, 54, 4);
    resource(&mut code, 35, 15, 55, 5);
    resource(&mut code, 36, 16, 56, 6);
    resource(&mut code, 37, 17, 57, 7);
    resource(&mut code, 38, 18, 58, 8);
    inst(&mut code, 71, &[54, 43, 2]);
    let module = create_shader_module(&code).unwrap();
    let bindings = module.enumerate_descriptor_bindings(None).unwrap();
    assert_eq!(bindings.len(), 9);
    let kinds: Vec<ReflectDescriptorType> =
        bindings.iter().map(|b| b.value.descriptor_type).collect();
    assert_eq!(
        kinds,
        vec![
            ReflectDescriptorType::SampledImage,
            ReflectDescriptorType::StorageImage,
            ReflectDescriptorType::UniformTexelBuffer,
            ReflectDescriptorType::StorageTexelBuffer,
            ReflectDescriptorType::InputAttachment,
            ReflectDescriptorType::CombinedImageSampler,
            ReflectDescriptorType::UniformTexelBuffer,
            ReflectDescriptorType::Sampler,
            ReflectDescriptorType::Undefined,
        ]
    );
    let views: Vec<ReflectResourceType> = bindings.iter().map(|b| b.value.resource_type).collect();
    assert_eq!(
        views,
        vec![
            ReflectResourceType::ShaderResourceView,
            ReflectResourceType::UnorderedAccessView,
            ReflectResourceType::ShaderResourceView,
            ReflectResourceType::UnorderedAccessView,
            ReflectResourceType::Undefined,
            ReflectResourceType::CombinedImageSampler,
            ReflectResourceType::ShaderResourceView,
            ReflectResourceType::Sampler,
            ReflectResourceType::Undefined,
        ]
    );
    assert_eq!(bindings[1].value.image.image_format, ReflectImageFormat::RGBA8);
    assert_eq!(bindings[3].value.image.image_format, ReflectImageFormat::R32_UINT);
    assert_eq!(bindings[4].value.image.dim, ReflectDimension::SubPassData);
    assert_eq!(bindings[4].value.input_attachment_index, 2);
    assert_eq!(bindings[0].value.input_attachment_index, 0);
    assert_eq!(bindings[5].value.image.dim, ReflectDimension::Type2d);
    assert_eq!(bindings[5].value.image.sampled, 1);
    assert_eq!(bindings[7].value.image.dim, ReflectDimension::Undefined);
    assert_eq!(bindings[8].value.image.dim, ReflectDimension::Cube);
    assert_eq!(bindings[8].value.image.depth, 1);
    assert_eq!(bindings[8].value.image.arrayed, 1);
    assert_eq!(bindings[8].value.image.ms, 1);
    let combined = module.get_code();
    assert_eq!(combined.len(), code.len());
    assert_eq!(bindings[5].value.type_index, Some(6));
    assert_eq!(bindings[0].value.type_index, Some(1));
}

#[test]
fn arrays_of_resources_count_their_elements() {
    let mut code = start();
    inst(&mut code, 21, &[2, 32, 0]);
    inst(&mut code, 43, &[2, 3, 4]);
    inst(&mut code, 43, &[2, 4, 3]);
    inst(&mut code, 26, &[10]);
    inst(&mut code, 28, &[11, 10, 3]);
    inst(&mut code, 28, &[12, 11, 4]);
    resource(&mut code, 30, 11, 50, 0);
    resource(&mut code, 31, 12, 51, 1);
    resource(&mut code, 32, 10, 52, 2);
    let module = create_shader_module(&code).unwrap();
    let bindings = module.enumerate_descriptor_bindings(None).unwrap();
    assert_eq!(bindings[0].value.descriptor_type, ReflectDescriptorType::Sampler);
    assert_eq!(bindings[0].value.array.dims, vec![4]);
    assert_eq!(bindings[0].value.count, 4);
    assert_eq!(bindings[1].value.array.dims, vec![3, 4]);
    assert_eq!(bindings[1].value.count, 12);
    assert_eq!(bindings[2].value.array.dims, Vec::<u32>::new());
    assert_eq!(bindings[2].value.count, 1);
}

#[test]
fn element_count_that_does_not_fit_is_the_greatest_number() {
    let mut code = start();
    inst(&mut code, 21, &[2, 32, 0]);
    inst(&mut code, 43, &[2, 3, 0x0001_0000]);
    inst(&mut code, 43, &[2, 4, 0x0002_0000]);
    inst(&mut code, 26, &[10]);
    inst(&mut code, 28, &[11, 10, 3]);
    inst(&mut code, 28, &[12, 11, 4]);
    resource(&mut code, 31, 12, 51, 1);
    let module = create_shader_module(&code).unwrap();
    let bindings = module.enumerate_descriptor_bindings(None).unwrap();
    assert_eq!(bindings[0].value.array.dims, vec![0x0002_0000, 0x0001_0000]);
    assert_eq!(bindings[0].value.count, u32::MAX);
}

#[test]
fn sizes_of_matrices_and_arrays_in_a_block() {
    let mut code = start();
    inst_text(&mut code, 5, &[20], "Params", &[]);
    inst_text(&mut code, 6, &[20, 0], "loose", &[]);
    inst_text(&mut code, 6, &[20, 1], "rows", &[]);
    inst_text(&mut code, 6, &[20, 2], "items", &[]);
    inst_text(&mut code, 6, &[20, 3], "packed", &[]);
    inst_text(&mut code, 6, &[20, 4], "flag", &[]);
    inst_text(&mut code, 6, &[21, 0], "x", &[]);
    inst(&mut code, 71, &[20, 2]);
    inst(&mut code, 72, &[20, 0, 35, 0]);
    inst(&mut code, 72, &[20, 1, 35, 48]);
    inst(&mut code, 72, &[20, 1, 4]);
    inst(&mut code, 72, &[20, 1, 7, 16]);
    inst(&mut code, 72, &[20, 2, 35, 80]);
    inst(&mut code, 72, &[20, 3, 35, 176]);
    inst(&mut code, 72, &[20, 4, 35, 200]);
    inst(&mut code, 72, &[21, 0, 35, 0]);
    inst(&mut code, 71, &[22, 6, 32]);
    inst(&mut code, 22, &[1, 32]);
    inst(&mut code, 22, &[8, 64]);
    inst(&mut code, 20, &[9]);
    inst(&mut code, 21, &[2, 32, 0]);
    inst(&mut code, 43, &[2, 3, 3]);
    inst(&mut code, 43, &[2, 4, 2]);
    inst(&mut code, 23, &[5, 1, 3]);
    inst(&mut code, 23, &[6, 1, 2]);
    inst(&mut code, 24, &[7, 5, 4]);
    inst(&mut code, 24, &[10, 6, 3]);
    inst(&mut code, 30, &[21, 8]);
    inst(&mut code, 28, &[22, 21, 3]);
    inst(&mut code, 28, &[23, 1, 4]);
    inst(&mut code, 30, &[20, 7, 10, 22, 23, 9]);
    inst(&mut code, 71, &[50, 34, 3]);
    inst(&mut code, 71, &[50, 33, 1]);
    inst(&mut code, 32, &[30, 2, 20]);
    inst(&mut code, 59, &[30, 50, 2]);
    let module = create_shader_module(&code).unwrap();
    let bindings = module.enumerate_descriptor_bindings(None).unwrap();
    let block = &bindings[0].value.block;
    assert_eq!(block.members.len(), 5);

    let loose = &block.members[0];
    assert_eq!(loose.name, "loose");
    assert_eq!(loose.numeric.matrix.column_count, 4);
    assert_eq!(loose.numeric.matrix.row_count, 3);
    assert_eq!(loose.numeric.matrix.stride, 0);
    assert_eq!(loose.size, 48);
    assert_eq!(loose.padded_size, 48);

    let rows = &block.members[1];
    assert_eq!(rows.name, "rows");
    assert!(rows.decoration_flags.contains(ReflectDecorationFlags::ROW_MAJOR));
    assert_eq!(rows.numeric.matrix.column_count, 3);
    assert_eq!(rows.numeric.matrix.row_count, 2);
    assert_eq!(rows.numeric.matrix.stride, 16);
    assert_eq!(rows.size, 32);
    assert_eq!(rows.padded_size, 32);

    let items = &block.members[2];
    assert_eq!(items.name, "items");
    assert_eq!(items.array.dims, vec![3]);
    assert_eq!(items.array.stride, 32);
    assert_eq!(items.size, 96);
    assert_eq!(items.padded_size, 96);
    assert_eq!(items.members.len(), 1);
    assert_eq!(items.members[0].name, "x");
    assert_eq!(items.members[0].size, 8);
    assert_eq!(items.members[0].absolute_offset, 80);
    assert_eq!(items.members[0].padded_size, 16);

    let packed = &block.members[3];
    assert_eq!(packed.array.dims, vec![2]);
    assert_eq!(packed.array.stride, 0);
    assert_eq!(packed.size, 8);
    assert_eq!(packed.padded_size, 24);

    let flag = &block.members[4];
    assert_eq!(flag.size, 0);
    assert_eq!(flag.offset, 200);
    assert_eq!(flag.padded_size, 8);
    assert_eq!(block.size, 48 + 32 + 96 + 8);
    assert_eq!(block.padded_size, 192);

    let description = block.type_description.as_ref().unwrap();
    assert_eq!(description.members[4].type_flags.bits(), ReflectTypeFlags::BOOL);
    assert_eq!(
        description.members[2].type_flags.bits(),
        ReflectTypeFlags::ARRAY | ReflectTypeFlags::STRUCT | ReflectTypeFlags::EXTERNAL_BLOCK
    );
    assert_eq!(description.members[2].id, 22);
    assert_eq!(description.members[2].members.len(), 1);
    assert_eq!(description.members[2].members[0].traits.numeric.scalar.width, 64);
}

#[test]
fn member_that_is_named_beyond_the_listed_ones_is_counted() {
    let mut code = start();
    inst_text(&mut code, 6, &[20, 0], "first", &[]);
    inst_text(&mut code, 6, &[20, 2], "third", &[]);
    inst(&mut code, 72, &[20, 3, 35, 64]);
    inst(&mut code, 22, &[1, 32]);
    inst(&mut code, 30, &[20, 1]);
    inst(&mut code, 71, &[50, 34, 0]);
    inst(&mut code, 71, &[50, 33, 0]);
    inst(&mut code, 32, &[30, 2, 20]);
    inst(&mut code, 59, &[30, 50, 2]);
    let module = create_shader_module(&code).unwrap();
    let bindings = module.enumerate_descriptor_bindings(None).unwrap();
    let description = bindings[0].value.block.type_description.as_ref().unwrap();
    assert_eq!(description.members.len(), 4);
    assert_eq!(description.members[0].id, 1);
    assert_eq!(description.members[0].struct_member_name, "first");
    assert_eq!(description.members[1].id, u32::MAX);
    assert_eq!(description.members[3].id, u32::MAX);
    assert_eq!(bindings[0].value.block.members.len(), 4);
    assert_eq!(bindings[0].value.block.members[0].size, 4);
    assert_eq!(bindings[0].value.block.members[3].offset, 64);
    assert_eq!(bindings[0].value.block.members[3].size, 0);
}

#[test]
fn later_annotations_replace_earlier_ones() {
    let mut code = start();
    inst_text(&mut code, 5, &[50], "old", &[]);
    inst(&mut code, 71, &[50, 34, 1]);
    inst(&mut code, 71, &[50, 33, 1]);
    inst(&mut code, 26, &[10]);
    inst(&mut code, 32, &[30, 0, 10]);
    inst(&mut code, 59, &[30, 50, 0]);
    inst_text(&mut code, 5, &[50], "new", &[]);
    inst(&mut code, 71, &[50, 33, 9]);
    let module = create_shader_module(&code).unwrap();
    let bindings = module.enumerate_descriptor_bindings(None).unwrap();
    assert_eq!(bindings[0].value.name, "new");
    assert_eq!(bindings[0].value.binding, 9);
    assert_eq!(bindings[0].value.set, 1);
    assert_eq!(code[bindings[0].value.word_offset.0 as usize], 9);
    assert_eq!(code[bindings[0].value.word_offset.0 as usize - 1], 33);
    assert_eq!(code[bindings[0].value.word_offset.1 as usize], 1);
    assert_eq!(code[bindings[0].value.word_offset.1 as usize - 1], 34);
}

#[test]
fn variable_without_set_or_binding_is_no_binding() {
    let mut code = start();
    inst(&mut code, 71, &[50, 34, 0]);
    inst(&mut code, 71, &[51, 33, 0]);
    inst(&mut code, 26, &[10]);
    inst(&mut code, 32, &[30, 0, 10]);
    inst(&mut code, 59, &[30, 50, 0]);
    inst(&mut code, 59, &[30, 51, 0]);
    inst(&mut code, 59, &[30, 52, 0]);
    inst(&mut code, 32, &[31, 6, 10]);
    inst(&mut code, 71, &[53, 34, 0]);
    inst(&mut code, 71, &[53, 33, 0]);
    inst(&mut code, 59, &[31, 53, 6]);
    let module = create_shader_module(&code).unwrap();
    assert_eq!(module.enumerate_descriptor_bindings(None).unwrap().len(), 0);
    assert_eq!(module.enumerate_descriptor_sets(None).unwrap().len(), 0);
    assert_eq!(module.enumerate_push_constant_blocks(None).unwrap().len(), 0);
}

#[test]
fn storage_buffers_and_their_counters() {
    let mut code = start();
    inst_text(&mut code, 5, &[50], "values", &[]);
    inst_text(&mut code, 5, &[51], "counter", &[]);
    inst(&mut code, 71, &[20, 2]);
    inst(&mut code, 72, &[20, 0, 35, 0]);
    inst(&mut code, 71, &[21, 6, 4]);
    inst(&mut code, 71, &[50, 34, 0]);
    inst(&mut code, 71, &[50, 33, 0]);
    inst(&mut code, 332, &[50, 5634, 51]);
    inst(&mut code, 71, &[51, 34, 0]);
    inst(&mut code, 71, &[51, 33, 1]);
    inst(&mut code, 21, &[2, 32, 1]);
    inst(&mut code, 29, &[21, 2]);
    inst(&mut code, 30, &[20, 21]);
    inst(&mut code, 32, &[30, 12, 20]);
    inst(&mut code, 59, &[30, 50, 12]);
    inst(&mut code, 59, &[30, 51, 12]);
    let module = create_shader_module(&code).unwrap();
    let bindings = module.enumerate_descriptor_bindings(None).unwrap();
    assert_eq!(bindings.len(), 2);
    assert_eq!(bindings[0].value.descriptor_type, ReflectDescriptorType::StorageBuffer);
    assert_eq!(bindings[0].value.resource_type, ReflectResourceType::UnorderedAccessView);
    assert_eq!(bindings[0].value.uav_counter_id, 51);
    assert_eq!(bindings[0].value.uav_counter_index, Some(1));
    assert_eq!(bindings[1].value.uav_counter_id, 0);
    assert_eq!(bindings[1].value.uav_counter_index, None);
    assert_eq!(bindings[0].value.block.members[0].array.stride, 4);
    assert_eq!(
        bindings[0].value.block.members[0].type_description.as_ref().unwrap().type_flags.bits(),
        ReflectTypeFlags::INT
    );
}

#[test]
fn interface_decorations_and_semantics() {
    let mut code = start();
    inst_text(&mut code, 15, &[4, 1], "main", &[50, 51, 52, 53]);
    inst_text(&mut code, 5, &[50], "colour", &[]);
    inst(&mut code, 71, &[50, 30, 3]);
    inst(&mut code, 71, &[50, 14]);
    inst_text(&mut code, 5632, &[50, 5635], "COLOR0", &[]);
    inst(&mut code, 71, &[51, 30, 1]);
    inst(&mut code, 71, &[51, 13]);
    inst(&mut code, 71, &[52, 11, 15]);
    inst(&mut code, 71, &[53, 30, 0]);
    inst(&mut code, 22, &[1, 32]);
    inst(&mut code, 21, &[2, 32, 1]);
    inst(&mut code, 21, &[3, 32, 0]);
    inst(&mut code, 21, &[4, 16, 0]);
    inst(&mut code, 23, &[5, 2, 3]);
    inst(&mut code, 23, &[6, 3, 2]);
    inst(&mut code, 23, &[7, 1, 4]);
    inst(&mut code, 23, &[8, 4, 4]);
    inst(&mut code, 32, &[30, 1, 5]);
    inst(&mut code, 59, &[30, 50, 1]);
    inst(&mut code, 32, &[31, 1, 6]);
    inst(&mut code, 59, &[31, 51, 1]);
    inst(&mut code, 32, &[32, 1, 7]);
    inst(&mut code, 59, &[32, 52, 1]);
    inst(&mut code, 32, &[33, 3, 8]);
    inst(&mut code, 59, &[33, 53, 3]);
    let module = create_shader_module(&code).unwrap();
    let inputs = module.enumerate_input_variables(None).unwrap();
    assert_eq!(inputs.len(), 3);
    assert_eq!(inputs[0].name, "colour");
    assert_eq!(inputs[0].semantic, "COLOR0");
    assert_eq!(inputs[0].location, 3);
    assert_eq!(code[inputs[0].word_offset as usize], 3);
    assert_eq!(inputs[0].format, ReflectFormat::R32G32B32_SINT);
    assert_eq!(inputs[0].decoration_flags.bits(), ReflectDecorationFlags::FLAT);
    assert_eq!(inputs[0].type_description.as_ref().unwrap().id, 5);
    assert_eq!(
        inputs[0].type_description.as_ref().unwrap().storage_class,
        ReflectStorageClass::Undefined
    );
    assert_eq!(inputs[1].semantic, "");
    assert_eq!(inputs[1].format, ReflectFormat::R32G32_UINT);
    assert_eq!(inputs[1].decoration_flags.bits(), ReflectDecorationFlags::NO_PERSPECTIVE);
    assert_eq!(inputs[2].format, ReflectFormat::R32G32B32A32_SFLOAT);
    assert_eq!(inputs[2].decoration_flags.bits(), ReflectDecorationFlags::BUILT_IN);
    assert_eq!(inputs[2].built_in.code, 15);
    assert_eq!(inputs[2].word_offset, 0);
    let outputs = module.enumerate_output_variables(None).unwrap();
    assert_eq!(outputs.len(), 1);
    assert_eq!(outputs[0].format, ReflectFormat::Undefined);
    assert_eq!(outputs[0].numeric.scalar.width, 16);
}

#[test]
fn vector_description_has_its_component_count() {
    let mut code = start();
    inst(&mut code, 22, &[1, 32]);
    inst(&mut code, 23, &[5, 1, 3]);
    inst(&mut code, 32, &[30, 1, 5]);
    inst_text(&mut code, 15, &[0, 1], "main", &[50]);
    inst(&mut code, 59, &[30, 50, 1]);
    let module = create_shader_module(&code).unwrap();
    let inputs = module.enumerate_input_variables(None).unwrap();
    let description = inputs[0].type_description.as_ref().unwrap();
    assert_eq!(description.op.code, 23);
    assert_eq!(description.traits.numeric.vector.component_count, 3);
    assert_eq!(description.type_flags.bits(), ReflectTypeFlags::VECTOR | ReflectTypeFlags::FLOAT);
    assert_eq!(description.members.len(), 0);
}
