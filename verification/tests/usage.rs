use spirv_reflect::types::{
    ReflectDecorationFlags, ReflectDimension, ReflectGenerator, ReflectImageFormat,
    ReflectShaderStage,
};
use spirv_reflect::{create_shader_module, create_shader_module_with, ShaderModule, StaticUse};

const MAGIC: u32 = 0x0723_0203;

fn text(s: &str) -> Vec<u32> {
    let mut bytes: Vec<u8> = s.as_bytes().to_vec();
    bytes.push(0);
    while bytes.len() % 4 != 0 {
        bytes.push(0);
    }
    let mut words = Vec::new();
    let mut i = 0;
    while i < bytes.len() {
        words.push(
            (bytes[i] as u32)
                | ((bytes[i + 1] as u32) << 8)
                | ((bytes[i + 2] as u32) << 16)
                | ((bytes[i + 3] as u32) << 24),
        );
        i += 4;
    }
    words
}

fn inst(code: &mut Vec<u32>, op: u32, operands: &[u32]) {
    code.push((((operands.len() + 1) as u32) << 16) | op);
    code.extend_from_slice(operands);
}

fn inst_text(code: &mut Vec<u32>, op: u32, before: &[u32], s: &str, after: &[u32]) {
    let mut operands: Vec<u32> = before.to_vec();
    operands.extend(text(s));
    operands.extend_from_slice(after);
    inst(code, op, &operands);
}

// Three resources: a sampled image 9 and a sampler 12 in set 0, a uniform
// block 16 in set 1, and a sampler 33 in set 2 that nothing refers to.
fn resources(code: &mut Vec<u32>) {
    inst_text(code, 5, &[9], "tex", &[]);
    inst_text(code, 5, &[12], "smp", &[]);
    inst_text(code, 5, &[16], "buf", &[]);
    inst_text(code, 5, &[33], "unused", &[]);
    inst(code, 71, &[9, 34, 0]);
    inst(code, 71, &[9, 33, 0]);
    inst(code, 71, &[12, 34, 0]);
    inst(code, 71, &[12, 33, 1]);
    inst(code, 71, &[14, 2]);
    inst(code, 72, &[14, 0, 35, 0]);
    inst(code, 71, &[16, 34, 1]);
    inst(code, 71, &[16, 33, 0]);
    inst(code, 71, &[33, 34, 2]);
    inst(code, 71, &[33, 33, 0]);
    inst(code, 19, &[2]);
    inst(code, 33, &[3, 2]);
    inst(code, 22, &[4, 32]);
    inst(code, 23, &[5, 4, 4]);
    inst(code, 21, &[6, 32, 1]);
    inst(code, 43, &[6, 50, 0]);
    inst(code, 25, &[7, 4, 1, 0, 0, 0, 1, 0]);
    inst(code, 32, &[8, 0, 7]);
    inst(code, 59, &[8, 9, 0]);
    inst(code, 26, &[10]);
    inst(code, 32, &[11, 0, 10]);
    inst(code, 59, &[11, 12, 0]);
    inst(code, 30, &[14, 5]);
    inst(code, 32, &[15, 2, 14]);
    inst(code, 59, &[15, 16, 2]);
    inst(code, 32, &[17, 2, 5]);
    inst(code, 59, &[11, 33, 0]);
}

// Entry point "a" (function 1) loads the image and calls function 40,
// which loads the sampler; entry point "b" (function 30) reads the block
// through an access chain. The interface lists name no resource.
fn two_entry_points() -> Vec<u32> {
    let mut code = vec![MAGIC, 0x0001_0000, 8 << 16, 60, 0];
    inst(&mut code, 17, &[1]);
    inst(&mut code, 14, &[0, 1]);
    inst_text(&mut code, 15, &[4, 1], "a", &[]);
    inst_text(&mut code, 15, &[4, 30], "b", &[]);
    resources(&mut code);
    inst(&mut code, 54, &[2, 1, 0, 3]);
    inst(&mut code, 248, &[20]);
    inst(&mut code, 61, &[7, 21, 9]);
    inst(&mut code, 57, &[2, 22, 40]);
    inst(&mut code, 253, &[]);
    inst(&mut code, 56, &[]);
    inst(&mut code, 54, &[2, 30, 0, 3]);
    inst(&mut code, 248, &[31]);
    inst(&mut code, 65, &[17, 32, 16, 50]);
    inst(&mut code, 61, &[5, 34, 32]);
    inst(&mut code, 253, &[]);
    inst(&mut code, 56, &[]);
    inst(&mut code, 54, &[2, 40, 0, 3]);
    inst(&mut code, 248, &[41]);
    inst(&mut code, 61, &[10, 42, 12]);
    inst(&mut code, 253, &[]);
    inst(&mut code, 56, &[]);
    code
}

// One entry point that loads the image and nothing else.
fn one_entry_point() -> Vec<u32> {
    let mut code = vec![MAGIC, 0x0001_0000, 8 << 16, 60, 0];
    inst(&mut code, 17, &[1]);
    inst(&mut code, 14, &[0, 1]);
    inst_text(&mut code, 15, &[4, 1], "main", &[]);
    resources(&mut code);
    inst(&mut code, 54, &[2, 1, 0, 3]);
    inst(&mut code, 248, &[20]);
    inst(&mut code, 61, &[7, 21, 9]);
    inst(&mut code, 253, &[]);
    inst(&mut code, 56, &[]);
    code
}

#[test]
fn entry_point_uses_what_its_functions_refer_to() {
    let module = create_shader_module(&two_entry_points()).unwrap();
    let entry_points = module.enumerate_entry_points().unwrap();
    assert_eq!(entry_points.len(), 2);
    assert_eq!(entry_points[0].name, "a");
    assert_eq!(entry_points[0].used_uniforms, vec![9, 12]);
    assert_eq!(entry_points[1].name, "b");
    assert_eq!(entry_points[1].used_uniforms, vec![16]);

    let sets_a = module.enumerate_descriptor_sets(Some("a")).unwrap();
    assert_eq!(sets_a.len(), 1);
    assert_eq!(sets_a[0].value.set, 0);
    assert_eq!(sets_a[0].ref_id, Some(0));
    assert_eq!(sets_a[0].value.binding_refs.len(), 2);
    assert_eq!(sets_a[0].value.binding_refs[0].value.name, "tex");
    assert_eq!(sets_a[0].value.binding_refs[1].value.name, "smp");
    let sets_b = module.enumerate_descriptor_sets(Some("b")).unwrap();
    assert_eq!(sets_b.len(), 1);
    assert_eq!(sets_b[0].value.set, 1);
    assert_eq!(sets_b[0].value.binding_refs[0].value.name, "buf");
    assert_eq!(sets_b[0].value.binding_refs[0].ref_id, Some(2));
    assert_eq!(module.enumerate_descriptor_sets(None).unwrap().len(), 3);

    let bindings_b = module.enumerate_descriptor_bindings(Some("b")).unwrap();
    assert_eq!(bindings_b.len(), 1);
    assert_eq!(bindings_b[0].ref_id, Some(2));
    assert_eq!(bindings_b[0].entry_point_id, Some(1));
}

#[test]
fn single_entry_point_uses_all_unless_asked_otherwise() {
    let words = one_entry_point();
    let conservative = create_shader_module(&words).unwrap();
    let all = conservative.enumerate_entry_points().unwrap();
    assert_eq!(all[0].used_uniforms, vec![9, 12, 16, 33]);
    assert_eq!(conservative.enumerate_descriptor_sets(Some("main")).unwrap().len(), 3);

    let same = create_shader_module_with(&words, StaticUse::Conservative).unwrap();
    assert_eq!(same.enumerate_entry_points().unwrap()[0].used_uniforms, vec![9, 12, 16, 33]);

    let referenced = create_shader_module_with(&words, StaticUse::Referenced).unwrap();
    let used = referenced.enumerate_entry_points().unwrap();
    assert_eq!(used[0].used_uniforms, vec![9]);
    let sets = referenced.enumerate_descriptor_sets(Some("main")).unwrap();
    assert_eq!(sets.len(), 1);
    assert_eq!(sets[0].value.binding_refs.len(), 1);
    assert_eq!(sets[0].value.binding_refs[0].value.name, "tex");
    assert_eq!(referenced.enumerate_descriptor_sets(None).unwrap().len(), 3);
}

#[test]
fn synthesis_twice_gives_the_same_sets() {
    let mut module = create_shader_module(&two_entry_points()).unwrap();
    let first = module.enumerate_descriptor_sets(None).unwrap();
    module.change_descriptor_binding_numbers(0, None, None).unwrap();
    let second = module.enumerate_descriptor_sets(None).unwrap();
    module.change_descriptor_binding_numbers(0, None, None).unwrap();
    let third = module.enumerate_descriptor_sets(None).unwrap();
    assert_eq!(first.len(), second.len());
    assert_eq!(second.len(), third.len());
    for i in 0..first.len() {
        assert_eq!(first[i].value.set, second[i].value.set);
        assert_eq!(second[i].value.set, third[i].value.set);
        assert_eq!(first[i].value.binding_refs.len(), second[i].value.binding_refs.len());
        for k in 0..first[i].value.binding_refs.len() {
            assert_eq!(
                first[i].value.binding_refs[k].ref_id,
                second[i].value.binding_refs[k].ref_id
            );
            assert_eq!(
                second[i].value.binding_refs[k].ref_id,
                third[i].value.binding_refs[k].ref_id
            );
        }
    }
    assert_eq!(module.get_code(), &two_entry_points()[..]);
}

#[test]
fn patched_numbers_stand_in_the_words() {
    let words = two_entry_points();
    let mut module = create_shader_module(&words).unwrap();
    let bindings = module.enumerate_descriptor_bindings(None).unwrap();
    let (tex_binding_at, tex_set_at) = bindings[0].value.word_offset;
    let (smp_binding_at, smp_set_at) = bindings[1].value.word_offset;
    assert_eq!(words[tex_binding_at as usize], 0);
    assert_eq!(words[tex_set_at as usize], 0);
    module.change_descriptor_binding_numbers(0, Some(30), Some(1)).unwrap();
    module.change_descriptor_binding_numbers(1, Some(4), None).unwrap();
    let code = module.get_code();
    assert_eq!(code[tex_binding_at as usize], 30);
    assert_eq!(code[tex_set_at as usize], 1);
    assert_eq!(code[smp_binding_at as usize], 4);
    assert_eq!(code[smp_set_at as usize], 0);
    let mut expected = words.clone();
    expected[tex_binding_at as usize] = 30;
    expected[tex_set_at as usize] = 1;
    expected[smp_binding_at as usize] = 4;
    assert_eq!(code, &expected[..]);

    let sets = module.enumerate_descriptor_sets(None).unwrap();
    assert_eq!(sets.len(), 3);
    assert_eq!(sets[0].value.set, 0);
    assert_eq!(sets[0].value.binding_refs.len(), 1);
    assert_eq!(sets[0].value.binding_refs[0].value.name, "smp");
    assert_eq!(sets[0].value.binding_refs[0].value.binding, 4);
    assert_eq!(sets[1].value.set, 1);
    assert_eq!(sets[1].value.binding_refs.len(), 2);
    assert_eq!(sets[1].value.binding_refs[0].value.name, "tex");
    assert_eq!(sets[1].value.binding_refs[0].value.binding, 30);
    assert_eq!(sets[1].value.binding_refs[1].value.name, "buf");
    let seen = module.enumerate_descriptor_sets(Some("a")).unwrap();
    assert_eq!(seen.len(), 2);
    assert_eq!(seen[0].value.set, 0);
    assert_eq!(seen[1].value.set, 1);
    assert_eq!(seen[1].value.binding_refs.len(), 1);

    let reloaded = ShaderModule::load_u32_data(code).unwrap();
    let again = reloaded.enumerate_descriptor_bindings(None).unwrap();
    assert_eq!(again[0].value.binding, 30);
    assert_eq!(again[0].value.set, 1);
    assert_eq!(again[1].value.binding, 4);
}

#[test]
fn entry_point_name_length_decides_where_the_interface_starts() {
    for name in ["abc", "main", "mainxyz", "mainxyzw", ""] {
        let mut code = vec![MAGIC, 0x0001_0000, 0, 60, 0];
        inst_text(&mut code, 15, &[0, 1], name, &[21, 23]);
        inst(&mut code, 71, &[21, 30, 2]);
        inst(&mut code, 71, &[23, 30, 5]);
        inst(&mut code, 22, &[4, 32]);
        inst(&mut code, 32, &[20, 1, 4]);
        inst(&mut code, 59, &[20, 21, 1]);
        inst(&mut code, 32, &[22, 3, 4]);
        inst(&mut code, 59, &[22, 23, 3]);
        let module = create_shader_module(&code).unwrap();
        assert_eq!(module.get_entry_point_name(), name);
        let inputs = module.enumerate_input_variables(Some(name)).unwrap();
        assert_eq!(inputs.len(), 1);
        assert_eq!(inputs[0].spirv_id, 21);
        assert_eq!(inputs[0].location, 2);
        let outputs = module.enumerate_output_variables(Some(name)).unwrap();
        assert_eq!(outputs.len(), 1);
        assert_eq!(outputs[0].spirv_id, 23);
        assert_eq!(outputs[0].location, 5);
    }
}

#[test]
fn numbers_that_the_enumerations_do_not_define() {
    let mut code = vec![MAGIC, 0x0001_0000, 15 << 16, 60, 0];
    inst_text(&mut code, 15, &[77, 1], "main", &[21, 23]);
    inst(&mut code, 3, &[9, 100]);
    inst(&mut code, 71, &[21, 11, 9999]);
    inst(&mut code, 71, &[23, 11, 15]);
    inst(&mut code, 71, &[9, 34, 0]);
    inst(&mut code, 71, &[9, 33, 0]);
    inst(&mut code, 71, &[12, 34, 0]);
    inst(&mut code, 71, &[12, 33, 1]);
    inst(&mut code, 22, &[4, 32]);
    inst(&mut code, 32, &[20, 1, 4]);
    inst(&mut code, 59, &[20, 21, 1]);
    inst(&mut code, 59, &[20, 23, 1]);
    inst(&mut code, 25, &[7, 4, 7, 0, 0, 0, 2, 40]);
    inst(&mut code, 32, &[8, 0, 7]);
    inst(&mut code, 59, &[8, 9, 0]);
    inst(&mut code, 25, &[10, 4, 5, 0, 0, 0, 2, 1]);
    inst(&mut code, 32, &[11, 0, 10]);
    inst(&mut code, 59, &[11, 12, 0]);
    let module = create_shader_module(&code).unwrap();
    assert_eq!(module.get_generator(), ReflectGenerator::GoogleRspirv);
    assert_eq!(module.get_spirv_execution_model(), None);
    assert_eq!(module.get_shader_stage(), ReflectShaderStage::Undefined);
    assert_eq!(module.get_source_language(), None);
    assert_eq!(module.get_source_language_version(), 100);
    let inputs = module.enumerate_input_variables(None).unwrap();
    assert_eq!(inputs.len(), 2);
    assert!(!inputs[0].decoration_flags.contains(ReflectDecorationFlags::BUILT_IN));
    assert_eq!(inputs[0].built_in.code, 0);
    assert!(inputs[1].decoration_flags.contains(ReflectDecorationFlags::BUILT_IN));
    assert_eq!(inputs[1].built_in.code, 15);
    let bindings = module.enumerate_descriptor_bindings(None).unwrap();
    assert_eq!(bindings[0].value.image.dim, ReflectDimension::Undefined);
    assert_eq!(bindings[0].value.image.image_format, ReflectImageFormat::Undefined);
    assert_eq!(bindings[1].value.image.dim, ReflectDimension::Buffer);
    assert_eq!(bindings[1].value.image.image_format, ReflectImageFormat::RGBA32_FLOAT);
}

#[test]
fn source_file_and_text_are_read() {
    let mut code = vec![MAGIC, 0x0001_0000, 0, 60, 0];
    inst_text(&mut code, 7, &[5], "shader.hlsl", &[]);
    inst_text(&mut code, 3, &[5, 600, 5], "float4 main() {}", &[]);
    let module = create_shader_module(&code).unwrap();
    assert_eq!(module.get_source_language(), Some(5));
    assert_eq!(module.get_source_language_version(), 600);
    assert_eq!(module.get_source_file(), "shader.hlsl");
    assert_eq!(module.get_source_text(), "float4 main() {}");
    assert_eq!(module.get_entry_point_name(), "");
    assert_eq!(module.enumerate_entry_points().unwrap().len(), 0);
}

#[test]
fn names_in_other_scripts_are_decoded() {
    let mut code = vec![MAGIC, 0x0001_0000, 0, 60, 0];
    inst_text(&mut code, 5, &[3], "纹理", &[]);
    inst(&mut code, 71, &[3, 34, 0]);
    inst(&mut code, 71, &[3, 33, 0]);
    inst(&mut code, 26, &[1]);
    inst(&mut code, 32, &[2, 0, 1]);
    inst(&mut code, 59, &[2, 3, 0]);
    let module = create_shader_module(&code).unwrap();
    let bindings = module.enumerate_descriptor_bindings(None).unwrap();
    assert_eq!(bindings[0].value.name, "纹理");
    assert_eq!(bindings[0].value.name.chars().count(), 2);
}
