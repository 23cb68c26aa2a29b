use spirv_headers::{
    BuiltIn, Decoration, Dim, ExecutionMode, ExecutionModel, ImageFormat, Op, SourceLanguage,
    StorageClass,
};
use spirv_reflect::spirv::{
    DECORATION_ARRAY_STRIDE, DECORATION_BINDING, DECORATION_BLOCK, DECORATION_BUFFER_BLOCK,
    DECORATION_BUILT_IN, DECORATION_COL_MAJOR, DECORATION_COUNTER_BUFFER,
    DECORATION_DESCRIPTOR_SET, DECORATION_FLAT, DECORATION_INPUT_ATTACHMENT_INDEX,
    DECORATION_LOCATION, DECORATION_MATRIX_STRIDE, DECORATION_NON_WRITABLE,
    DECORATION_NO_PERSPECTIVE, DECORATION_OFFSET, DECORATION_ROW_MAJOR, DECORATION_USER_SEMANTIC,
    EXECUTION_MODE_LOCAL_SIZE, OP_ACCESS_CHAIN, OP_ARRAY_LENGTH, OP_CONSTANT,
    OP_CONSTANT_COMPOSITE, OP_CONSTANT_FALSE, OP_CONSTANT_NULL, OP_CONSTANT_SAMPLER,
    OP_CONSTANT_TRUE, OP_COPY_MEMORY, OP_COPY_MEMORY_SIZED, OP_COPY_OBJECT, OP_DECORATE,
    OP_DECORATE_ID, OP_DECORATE_STRING, OP_ENTRY_POINT, OP_EXECUTION_MODE, OP_FUNCTION,
    OP_FUNCTION_CALL, OP_FUNCTION_END, OP_IMAGE_TEXEL_POINTER, OP_IN_BOUNDS_ACCESS_CHAIN,
    OP_IN_BOUNDS_PTR_ACCESS_CHAIN, OP_LOAD, OP_MEMBER_DECORATE, OP_MEMBER_DECORATE_STRING,
    OP_MEMBER_NAME, OP_NAME, OP_PTR_ACCESS_CHAIN, OP_SOURCE, OP_STORE, OP_STRING,
    OP_TYPE_ACCELERATION_STRUCTURE_NV, OP_TYPE_ARRAY, OP_TYPE_BOOL, OP_TYPE_DEVICE_EVENT,
    OP_TYPE_EVENT, OP_TYPE_FLOAT, OP_TYPE_FORWARD_POINTER, OP_TYPE_FUNCTION, OP_TYPE_IMAGE,
    OP_TYPE_INT, OP_TYPE_MATRIX, OP_TYPE_OPAQUE, OP_TYPE_PIPE, OP_TYPE_POINTER, OP_TYPE_QUEUE,
    OP_TYPE_RESERVE_ID, OP_TYPE_RUNTIME_ARRAY, OP_TYPE_SAMPLED_IMAGE, OP_TYPE_SAMPLER,
    OP_TYPE_STRUCT, OP_TYPE_VECTOR, OP_TYPE_VOID, OP_VARIABLE,
};
use spirv_reflect::types::{
    ReflectBuiltIn, ReflectDimension, ReflectImageFormat, ReflectOp, ReflectShaderStage,
    ReflectStorageClass,
};
use spirv_reflect::words::MAGIC_NUMBER;

#[test]
fn opcodes_are_those_of_the_headers() {
    assert_eq!(MAGIC_NUMBER, spirv_headers::MAGIC_NUMBER);
    assert_eq!(OP_SOURCE, Op::Source as u32);
    assert_eq!(OP_NAME, Op::Name as u32);
    assert_eq!(OP_MEMBER_NAME, Op::MemberName as u32);
    assert_eq!(OP_STRING, Op::String as u32);
    assert_eq!(OP_ENTRY_POINT, Op::EntryPoint as u32);
    assert_eq!(OP_EXECUTION_MODE, Op::ExecutionMode as u32);
    assert_eq!(OP_TYPE_VOID, Op::TypeVoid as u32);
    assert_eq!(OP_TYPE_BOOL, Op::TypeBool as u32);
    assert_eq!(OP_TYPE_INT, Op::TypeInt as u32);
    assert_eq!(OP_TYPE_FLOAT, Op::TypeFloat as u32);
    assert_eq!(OP_TYPE_VECTOR, Op::TypeVector as u32);
    assert_eq!(OP_TYPE_MATRIX, Op::TypeMatrix as u32);
    assert_eq!(OP_TYPE_IMAGE, Op::TypeImage as u32);
    assert_eq!(OP_TYPE_SAMPLER, Op::TypeSampler as u32);
    assert_eq!(OP_TYPE_SAMPLED_IMAGE, Op::TypeSampledImage as u32);
    assert_eq!(OP_TYPE_ARRAY, Op::TypeArray as u32);
    assert_eq!(OP_TYPE_RUNTIME_ARRAY, Op::TypeRuntimeArray as u32);
    assert_eq!(OP_TYPE_STRUCT, Op::TypeStruct as u32);
    assert_eq!(OP_TYPE_OPAQUE, Op::TypeOpaque as u32);
    assert_eq!(OP_TYPE_POINTER, Op::TypePointer as u32);
    assert_eq!(OP_TYPE_FUNCTION, Op::TypeFunction as u32);
    assert_eq!(OP_TYPE_EVENT, Op::TypeEvent as u32);
    assert_eq!(OP_TYPE_DEVICE_EVENT, Op::TypeDeviceEvent as u32);
    assert_eq!(OP_TYPE_RESERVE_ID, Op::TypeReserveId as u32);
    assert_eq!(OP_TYPE_QUEUE, Op::TypeQueue as u32);
    assert_eq!(OP_TYPE_PIPE, Op::TypePipe as u32);
    assert_eq!(OP_TYPE_FORWARD_POINTER, Op::TypeForwardPointer as u32);
    assert_eq!(OP_CONSTANT_TRUE, Op::ConstantTrue as u32);
    assert_eq!(OP_CONSTANT_FALSE, Op::ConstantFalse as u32);
    assert_eq!(OP_CONSTANT, Op::Constant as u32);
    assert_eq!(OP_CONSTANT_COMPOSITE, Op::ConstantComposite as u32);
    assert_eq!(OP_CONSTANT_SAMPLER, Op::ConstantSampler as u32);
    assert_eq!(OP_CONSTANT_NULL, Op::ConstantNull as u32);
    assert_eq!(OP_FUNCTION, Op::Function as u32);
    assert_eq!(OP_FUNCTION_END, Op::FunctionEnd as u32);
    assert_eq!(OP_FUNCTION_CALL, Op::FunctionCall as u32);
    assert_eq!(OP_VARIABLE, Op::Variable as u32);
    assert_eq!(OP_IMAGE_TEXEL_POINTER, Op::ImageTexelPointer as u32);
    assert_eq!(OP_LOAD, Op::Load as u32);
    assert_eq!(OP_STORE, Op::Store as u32);
    assert_eq!(OP_COPY_MEMORY, Op::CopyMemory as u32);
    assert_eq!(OP_COPY_MEMORY_SIZED, Op::CopyMemorySized as u32);
    assert_eq!(OP_ACCESS_CHAIN, Op::AccessChain as u32);
    assert_eq!(OP_IN_BOUNDS_ACCESS_CHAIN, Op::InBoundsAccessChain as u32);
    assert_eq!(OP_PTR_ACCESS_CHAIN, Op::PtrAccessChain as u32);
    assert_eq!(OP_ARRAY_LENGTH, Op::ArrayLength as u32);
    assert_eq!(OP_IN_BOUNDS_PTR_ACCESS_CHAIN, Op::InBoundsPtrAccessChain as u32);
    assert_eq!(OP_DECORATE, Op::Decorate as u32);
    assert_eq!(OP_MEMBER_DECORATE, Op::MemberDecorate as u32);
    assert_eq!(OP_COPY_OBJECT, Op::CopyObject as u32);
    assert_eq!(OP_DECORATE_ID, Op::DecorateId as u32);
    assert_eq!(OP_TYPE_ACCELERATION_STRUCTURE_NV, Op::TypeAccelerationStructureNV as u32);
    assert_eq!(OP_DECORATE_STRING, Op::DecorateString as u32);
    assert_eq!(OP_MEMBER_DECORATE_STRING, Op::MemberDecorateString as u32);
}

#[test]
fn decorations_are_those_of_the_headers() {
    assert_eq!(DECORATION_BLOCK, Decoration::Block as u32);
    assert_eq!(DECORATION_BUFFER_BLOCK, Decoration::BufferBlock as u32);
    assert_eq!(DECORATION_ROW_MAJOR, Decoration::RowMajor as u32);
    assert_eq!(DECORATION_COL_MAJOR, Decoration::ColMajor as u32);
    assert_eq!(DECORATION_ARRAY_STRIDE, Decoration::ArrayStride as u32);
    assert_eq!(DECORATION_MATRIX_STRIDE, Decoration::MatrixStride as u32);
    assert_eq!(DECORATION_BUILT_IN, Decoration::BuiltIn as u32);
    assert_eq!(DECORATION_NO_PERSPECTIVE, Decoration::NoPerspective as u32);
    assert_eq!(DECORATION_FLAT, Decoration::Flat as u32);
    assert_eq!(DECORATION_NON_WRITABLE, Decoration::NonWritable as u32);
    assert_eq!(DECORATION_LOCATION, Decoration::Location as u32);
    assert_eq!(DECORATION_BINDING, Decoration::Binding as u32);
    assert_eq!(DECORATION_DESCRIPTOR_SET, Decoration::DescriptorSet as u32);
    assert_eq!(DECORATION_OFFSET, Decoration::Offset as u32);
    assert_eq!(DECORATION_INPUT_ATTACHMENT_INDEX, Decoration::InputAttachmentIndex as u32);
    assert_eq!(DECORATION_COUNTER_BUFFER, Decoration::CounterBuffer as u32);
    assert_eq!(DECORATION_USER_SEMANTIC, Decoration::UserSemantic as u32);
    assert_eq!(EXECUTION_MODE_LOCAL_SIZE, ExecutionMode::LocalSize as u32);
}

#[test]
fn numbers_of_the_model_are_those_of_the_headers() {
    assert_eq!(
        ReflectStorageClass::from_code(StorageClass::UniformConstant as u32),
        ReflectStorageClass::UniformConstant
    );
    assert_eq!(
        ReflectStorageClass::from_code(StorageClass::Input as u32),
        ReflectStorageClass::Input
    );
    assert_eq!(
        ReflectStorageClass::from_code(StorageClass::Uniform as u32),
        ReflectStorageClass::Uniform
    );
    assert_eq!(
        ReflectStorageClass::from_code(StorageClass::Output as u32),
        ReflectStorageClass::Output
    );
    assert_eq!(
        ReflectStorageClass::from_code(StorageClass::Workgroup as u32),
        ReflectStorageClass::WorkGroup
    );
    assert_eq!(
        ReflectStorageClass::from_code(StorageClass::CrossWorkgroup as u32),
        ReflectStorageClass::CrossWorkGroup
    );
    assert_eq!(
        ReflectStorageClass::from_code(StorageClass::Private as u32),
        ReflectStorageClass::Private
    );
    assert_eq!(
        ReflectStorageClass::from_code(StorageClass::Function as u32),
        ReflectStorageClass::Function
    );
    assert_eq!(
        ReflectStorageClass::from_code(StorageClass::Generic as u32),
        ReflectStorageClass::Generic
    );
    assert_eq!(
        ReflectStorageClass::from_code(StorageClass::PushConstant as u32),
        ReflectStorageClass::PushConstant
    );
    assert_eq!(
        ReflectStorageClass::from_code(StorageClass::AtomicCounter as u32),
        ReflectStorageClass::AtomicCounter
    );
    assert_eq!(
        ReflectStorageClass::from_code(StorageClass::Image as u32),
        ReflectStorageClass::Image
    );
    assert_eq!(
        ReflectStorageClass::from_code(StorageClass::StorageBuffer as u32),
        ReflectStorageClass::StorageBuffer
    );

    assert_eq!(ReflectDimension::from_code(Dim::Dim1D as u32), ReflectDimension::Type1d);
    assert_eq!(ReflectDimension::from_code(Dim::Dim2D as u32), ReflectDimension::Type2d);
    assert_eq!(ReflectDimension::from_code(Dim::Dim3D as u32), ReflectDimension::Type3d);
    assert_eq!(ReflectDimension::from_code(Dim::DimCube as u32), ReflectDimension::Cube);
    assert_eq!(ReflectDimension::from_code(Dim::DimRect as u32), ReflectDimension::Rect);
    assert_eq!(ReflectDimension::from_code(Dim::DimBuffer as u32), ReflectDimension::Buffer);
    assert_eq!(
        ReflectDimension::from_code(Dim::DimSubpassData as u32),
        ReflectDimension::SubPassData
    );

    assert_eq!(
        ReflectImageFormat::from_code(ImageFormat::Unknown as u32),
        ReflectImageFormat::Undefined
    );
    assert_eq!(
        ReflectImageFormat::from_code(ImageFormat::Rgba32f as u32),
        ReflectImageFormat::RGBA32_FLOAT
    );
    assert_eq!(ReflectImageFormat::from_code(ImageFormat::Rgba8 as u32), ReflectImageFormat::RGBA8);
    assert_eq!(
        ReflectImageFormat::from_code(ImageFormat::R11fG11fB10f as u32),
        ReflectImageFormat::R11G11B10_FLOAT
    );
    assert_eq!(
        ReflectImageFormat::from_code(ImageFormat::R8Snorm as u32),
        ReflectImageFormat::R8_SNORM
    );
    assert_eq!(
        ReflectImageFormat::from_code(ImageFormat::Rgba32i as u32),
        ReflectImageFormat::RGBA32_INT
    );
    assert_eq!(ReflectImageFormat::from_code(ImageFormat::R8i as u32), ReflectImageFormat::R8_INT);
    assert_eq!(
        ReflectImageFormat::from_code(ImageFormat::Rgba32ui as u32),
        ReflectImageFormat::RGBA32_UINT
    );
    assert_eq!(
        ReflectImageFormat::from_code(ImageFormat::Rgb10a2ui as u32),
        ReflectImageFormat::RGB10A2_UINT
    );
    assert_eq!(
        ReflectImageFormat::from_code(ImageFormat::R8ui as u32),
        ReflectImageFormat::R8_UINT
    );

    assert_eq!(
        ReflectShaderStage::from_execution_model(ExecutionModel::Vertex as u32),
        ReflectShaderStage::Vertex
    );
    assert_eq!(
        ReflectShaderStage::from_execution_model(ExecutionModel::Fragment as u32),
        ReflectShaderStage::Fragment
    );
    assert_eq!(
        ReflectShaderStage::from_execution_model(ExecutionModel::GLCompute as u32),
        ReflectShaderStage::Compute
    );
    assert_eq!(
        ReflectShaderStage::from_execution_model(ExecutionModel::Kernel as u32),
        ReflectShaderStage::Kernel
    );
    assert_eq!(
        ReflectShaderStage::from_execution_model(ExecutionModel::TaskNV as u32),
        ReflectShaderStage::TaskNV
    );
    assert_eq!(
        ReflectShaderStage::from_execution_model(ExecutionModel::CallableNV as u32),
        ReflectShaderStage::CallableNV
    );

    assert_eq!(ReflectOp::from_code(Op::TypeStruct as u32).code, Op::TypeStruct as u32);
    assert_eq!(
        ReflectBuiltIn::from_code(BuiltIn::FragCoord as u32).code,
        BuiltIn::FragCoord as u32
    );
    assert_eq!(SourceLanguage::HLSL as u32, 5);
}
