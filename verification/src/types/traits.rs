//! Numeric, array and image traits of types, variables and bindings.

use crate::types::image::ReflectImageFormat;
use crate::types::variable::ReflectDimension;
use vstd::prelude::*;

verus! {

/// The dimensions of a binding that is an array of resources.
#[derive(Debug)]
pub struct ReflectBindingArrayTraits {
    pub dims: Vec<u32>,
}

/// What a `ReflectBindingArrayTraits` stands for.
pub struct BindingArrayTraitsView {
    pub dims: Seq<u32>,
}

impl View for ReflectBindingArrayTraits {
    type V = BindingArrayTraitsView;

    open spec fn view(&self) -> BindingArrayTraitsView {
        BindingArrayTraitsView { dims: self.dims@ }
    }
}

impl Clone for ReflectBindingArrayTraits {
    fn clone(&self) -> (copy: Self)
        ensures
            copy@ == self@,
    {
        ReflectBindingArrayTraits { dims: self.dims.clone() }
    }
}

impl Default for ReflectBindingArrayTraits {
    fn default() -> (traits: Self)
        ensures
            traits@.dims == Seq::<u32>::empty(),
    {
        ReflectBindingArrayTraits { dims: Vec::new() }
    }
}

/// Width and signedness of a scalar.
#[derive(Clone, Copy, Debug, PartialEq, Eq, Structural)]
pub struct ReflectNumericTraitsScalar {
    pub width: u32,
    pub signedness: u32,
}

/// Component count of a vector.
#[derive(Clone, Copy, Debug, PartialEq, Eq, Structural)]
pub struct ReflectNumericTraitsVector {
    pub component_count: u32,
}

/// Shape and stride of a matrix.
#[derive(Clone, Copy, Debug, PartialEq, Eq, Structural)]
pub struct ReflectNumericTraitsMatrix {
    pub column_count: u32,
    pub row_count: u32,
    pub stride: u32,
}

/// The numeric traits of a type.
#[derive(Clone, Copy, Debug, PartialEq, Eq, Structural)]
pub struct ReflectNumericTraits {
    pub scalar: ReflectNumericTraitsScalar,
    pub vector: ReflectNumericTraitsVector,
    pub matrix: ReflectNumericTraitsMatrix,
}

impl ReflectNumericTraits {
    /// The traits of a type that is not numeric: every number is zero.
    pub open spec fn spec_zero() -> ReflectNumericTraits {
        ReflectNumericTraits {
            scalar: ReflectNumericTraitsScalar { width: 0, signedness: 0 },
            vector: ReflectNumericTraitsVector { component_count: 0 },
            matrix: ReflectNumericTraitsMatrix { column_count: 0, row_count: 0, stride: 0 },
        }
    }
}

impl Default for ReflectNumericTraits {
    fn default() -> (traits: Self)
        ensures
            traits == Self::spec_zero(),
    {
        ReflectNumericTraits {
            scalar: ReflectNumericTraitsScalar { width: 0, signedness: 0 },
            vector: ReflectNumericTraitsVector { component_count: 0 },
            matrix: ReflectNumericTraitsMatrix { column_count: 0, row_count: 0, stride: 0 },
        }
    }
}

/// The lengths of an array type, outermost first, and its stride.
#[derive(Debug)]
pub struct ReflectArrayTraits {
    pub dims: Vec<u32>,
    pub stride: u32,
}

/// What a `ReflectArrayTraits` stands for.
pub struct ArrayTraitsView {
    pub dims: Seq<u32>,
    pub stride: u32,
}

impl ArrayTraitsView {
    /// The traits of a type that is no array.
    pub open spec fn none() -> ArrayTraitsView {
        ArrayTraitsView { dims: Seq::empty(), stride: 0 }
    }
}

impl View for ReflectArrayTraits {
    type V = ArrayTraitsView;

    open spec fn view(&self) -> ArrayTraitsView {
        ArrayTraitsView { dims: self.dims@, stride: self.stride }
    }
}

impl Clone for ReflectArrayTraits {
    fn clone(&self) -> (copy: Self)
        ensures
            copy@ == self@,
    {
        ReflectArrayTraits { dims: self.dims.clone(), stride: self.stride }
    }
}

impl Default for ReflectArrayTraits {
    fn default() -> (traits: Self)
        ensures
            traits@ == ArrayTraitsView::none(),
    {
        ReflectArrayTraits { dims: Vec::new(), stride: 0 }
    }
}

/// The operands of an image type.
#[derive(Clone, Copy, Debug, PartialEq, Eq, Structural)]
pub struct ReflectImageTraits {
    pub dim: ReflectDimension,
    pub depth: u32,
    pub arrayed: u32,
    pub ms: u32,
    pub sampled: u32,
    pub image_format: ReflectImageFormat,
}

/// The operands of an image type, under the name of earlier releases.
pub type SpvReflectImageTraits = ReflectImageTraits;

impl ReflectImageTraits {
    /// The traits of a type that is no image.
    pub open spec fn spec_none() -> ReflectImageTraits {
        ReflectImageTraits {
            dim: ReflectDimension::Undefined,
            depth: 0,
            arrayed: 0,
            ms: 0,
            sampled: 0,
            image_format: ReflectImageFormat::Undefined,
        }
    }
}

impl Default for ReflectImageTraits {
    fn default() -> (traits: Self)
        ensures
            traits == Self::spec_none(),
    {
        ReflectImageTraits {
            dim: ReflectDimension::Undefined,
            depth: 0,
            arrayed: 0,
            ms: 0,
            sampled: 0,
            image_format: ReflectImageFormat::Undefined,
        }
    }
}

/// The traits of a type description.
#[derive(Debug)]
pub struct ReflectTypeDescriptionTraits {
    pub numeric: ReflectNumericTraits,
    pub image: ReflectImageTraits,
    pub array: ReflectArrayTraits,
}

/// What a `ReflectTypeDescriptionTraits` stands for.
pub struct TypeDescriptionTraitsView {
    pub numeric: ReflectNumericTraits,
    pub image: ReflectImageTraits,
    pub array: ArrayTraitsView,
}

impl TypeDescriptionTraitsView {
    /// The traits of a description before anything is resolved into it.
    pub open spec fn none() -> TypeDescriptionTraitsView {
        TypeDescriptionTraitsView {
            numeric: ReflectNumericTraits::spec_zero(),
            image: ReflectImageTraits::spec_none(),
            array: ArrayTraitsView::none(),
        }
    }
}

impl View for ReflectTypeDescriptionTraits {
    type V = TypeDescriptionTraitsView;

    open spec fn view(&self) -> TypeDescriptionTraitsView {
        TypeDescriptionTraitsView { numeric: self.numeric, image: self.image, array: self.array@ }
    }
}

impl Clone for ReflectTypeDescriptionTraits {
    fn clone(&self) -> (copy: Self)
        ensures
            copy@ == self@,
    {
        ReflectTypeDescriptionTraits {
            numeric: self.numeric,
            image: self.image,
            array: self.array.clone(),
        }
    }
}

impl Default for ReflectTypeDescriptionTraits {
    fn default() -> (traits: Self)
        ensures
            traits@ == TypeDescriptionTraitsView::none(),
    {
        ReflectTypeDescriptionTraits {
            numeric: ReflectNumericTraits::default(),
            image: ReflectImageTraits::default(),
            array: ReflectArrayTraits::default(),
        }
    }
}

} // verus!
