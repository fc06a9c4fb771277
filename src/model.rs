//! The struct model: one uniform description of every struct to emit, and of
//! every conversion impl that links them.

use vstd::prelude::*;

verus! {

/// Visibility of a generated item.
#[derive(Debug, Clone, Copy, PartialEq, Eq, Structural)]
pub enum ItemVis {
    Public,
    Private,
}

/// The text of a list of strings.
pub open spec fn texts(v: Seq<String>) -> Seq<Seq<char>> {
    v.map_values(|s: String| s@)
}

/// The text of an optional string.
pub open spec fn opt_text(o: Option<String>) -> Option<Seq<char>> {
    match o {
        Some(s) => Some(s@),
        None => None,
    }
}

/// What a field descriptor says.
pub struct FieldView {
    pub vis: ItemVis,
    pub name: Seq<char>,
    pub ty: Seq<char>,
    pub optional: bool,
    pub attrs: Seq<Seq<char>>,
    pub doc: Option<Seq<char>>,
}

/// One field of a generated struct.
#[derive(Debug, Clone)]
pub struct StructField {
    pub vis: ItemVis,
    pub name: String,
    /// The type without its `Option` wrapping.
    pub ty: String,
    /// Whether the field's type is wrapped in `Option`.
    pub optional: bool,
    /// Attributes, as written inside `#[...]`.
    pub attrs: Vec<String>,
    pub doc: Option<String>,
}

impl View for StructField {
    type V = FieldView;

    open spec fn view(&self) -> FieldView {
        FieldView {
            vis: self.vis,
            name: self.name@,
            ty: self.ty@,
            optional: self.optional,
            attrs: texts(self.attrs@),
            doc: opt_text(self.doc),
        }
    }
}

/// The full type of a field: `Option<ty>` when optional.
pub open spec fn full_type(ty: Seq<char>, optional: bool) -> Seq<char> {
    if optional {
        "Option<"@ + ty + ">"@
    } else {
        ty
    }
}

/// Copies a list of strings.
pub fn copy_strings(v: &Vec<String>) -> (r: Vec<String>)
    ensures
        r@ == v@,
{
    let mut r: Vec<String> = Vec::new();
    let mut k: usize = 0;
    while k < v.len()
        invariant
            k <= v@.len(),
            r@ == v@.subrange(0, k as int),
        decreases v@.len() - k,
    {
        r.push(v[k].clone());
        k = k + 1;
        assert(r@ =~= v@.subrange(0, k as int));
    }
    assert(v@.subrange(0, v@.len() as int) =~= v@);
    r
}

/// Copies an optional string.
pub fn copy_opt(o: &Option<String>) -> (r: Option<String>)
    ensures
        r == *o,
{
    match o {
        Some(s) => Some(s.clone()),
        None => None,
    }
}

impl StructField {
    pub fn new(
        vis: ItemVis,
        name: String,
        ty: String,
        optional: bool,
        attrs: Vec<String>,
        doc: Option<String>,
    ) -> (r: Self)
        ensures
            r.vis == vis,
            r.name == name,
            r.ty == ty,
            r.optional == optional,
            r.attrs == attrs,
            r.doc == doc,
    {
        StructField { vis, name, ty, optional, attrs, doc }
    }

    pub fn ty_base(&self) -> (r: &String)
        ensures
            r == &self.ty,
    {
        &self.ty
    }

    pub fn ty_full(&self) -> (r: String)
        ensures
            r@ == full_type(self.ty@, self.optional),
    {
        if self.optional {
            let mut r = String::from_str("Option<");
            r.append(self.ty.as_str());
            r.append(">");
            r
        } else {
            self.ty.clone()
        }
    }
}

/// What every generated struct has, whatever its class.
#[derive(Debug, Clone)]
pub struct StructCommon {
    pub vis: ItemVis,
    /// The struct's name.
    pub ty: String,
    pub derives: Vec<String>,
    pub attrs: Vec<String>,
    pub doc: Option<String>,
}

impl StructCommon {
    pub fn new(
        vis: ItemVis,
        ty: String,
        derives: Vec<String>,
        attrs: Vec<String>,
        doc: Option<String>,
    ) -> (r: Self)
        ensures
            r.vis == vis,
            r.ty == ty,
            r.derives == derives,
            r.attrs == attrs,
            r.doc == doc,
    {
        StructCommon { vis, ty, derives, attrs, doc }
    }

    pub fn ty_full(&self) -> (r: &String)
        ensures
            r == &self.ty,
    {
        &self.ty
    }
}

/// The origin whose data a nested wrapper holds.
#[derive(Debug, Clone)]
pub struct NestedWrapper {
    /// The name of the group struct that the wrapper holds.
    pub data_source_ident: String,
    /// Whether the field that embeds the wrapper is an `Option`.
    pub optional: bool,
}

/// Marks the wrapper of the data struct itself.
#[derive(Debug, Clone)]
pub struct RootWrapper {}

#[derive(Debug, Clone)]
pub enum WrapperType {
    Root(RootWrapper),
    Nested(NestedWrapper),
}

/// A wrapper: the data of an origin beside its extra struct.
#[derive(Debug, Clone)]
pub struct Wrapper {
    pub common: StructCommon,
    pub wrapper_type: WrapperType,
    pub data_field: StructField,
    pub extra_field: StructField,
}

/// An extra struct: one field per child group of an origin.
#[derive(Debug, Clone)]
pub struct Extra {
    pub common: StructCommon,
    pub nest_fields: Vec<StructField>,
}

/// A group's struct.
#[derive(Debug, Clone)]
pub struct Nest {
    pub common: StructCommon,
    pub fields: Vec<StructField>,
}

/// What a struct descriptor says.
pub struct StructView {
    pub vis: ItemVis,
    pub ty: Seq<char>,
    pub derives: Seq<Seq<char>>,
    pub attrs: Seq<Seq<char>>,
    pub doc: Option<Seq<char>>,
    pub fields: Seq<FieldView>,
}

/// The view of each field of a list.
pub open spec fn field_views(v: Seq<StructField>) -> Seq<FieldView> {
    v.map_values(|f: StructField| f@)
}

/// Any struct to emit, whatever its class.
#[derive(Debug, Clone)]
pub struct UniversalStruct {
    pub common: StructCommon,
    pub fields: Vec<StructField>,
}

impl View for UniversalStruct {
    type V = StructView;

    open spec fn view(&self) -> StructView {
        StructView {
            vis: self.common.vis,
            ty: self.common.ty@,
            derives: texts(self.common.derives@),
            attrs: texts(self.common.attrs@),
            doc: opt_text(self.common.doc),
            fields: field_views(self.fields@),
        }
    }
}

impl UniversalStruct {
    /// A wrapper has its data field, then its extra field.
    pub fn from_wrapper(input: Wrapper) -> (r: Self)
        ensures
            r.common == input.common,
            r.fields@ == seq![input.data_field, input.extra_field],
    {
        UniversalStruct { common: input.common, fields: vec![input.data_field, input.extra_field] }
    }

    pub fn from_extra(input: Extra) -> (r: Self)
        ensures
            r.common == input.common,
            r.fields == input.nest_fields,
    {
        UniversalStruct { common: input.common, fields: input.nest_fields }
    }

    pub fn from_nest(input: Nest) -> (r: Self)
        ensures
            r.common == input.common,
            r.fields == input.fields,
    {
        UniversalStruct { common: input.common, fields: input.fields }
    }
}


/// A conversion impl that links generated structs.
#[derive(Debug, Clone)]
pub enum ConversionImpl {
    /// `From<Data> for Wrapper`: the extra struct from `&data`, then the data.
    WrapperFromData {
        data_ty: String,
        wrapper_ty: String,
        extra_ty: String,
        data_field: String,
        extra_field: String,
    },
    /// `From<&Data> for Extra`: each field by its own `From<&Data>`.
    ExtraFromData { data_ty: String, extra_ty: String, fields: Vec<StructField> },
    /// `ToNest<Nest> for Data`, through the existing `From<&Data> for Nest`.
    NestFromData { data_ty: String, nest_ty: String },
    /// `impl<T> ToWrappedWith<T> for Data`: each field of the extra struct by
    /// any transformer `T` that converts `Data` to each field's type.
    WrapWithTransform {
        data_ty: String,
        wrapper_ty: String,
        extra_ty: String,
        data_field: String,
        extra_field: String,
        fields: Vec<StructField>,
    },
    /// `From<&Source> for Wrapper` (or for `Option<Wrapper>`) of a group that
    /// has groups of its own: the group from `&source`, then its wrapper.
    NestedWrapperFrom { source_ty: String, nest_ty: String, wrapper_ty: String, optional: bool },
    /// `TransformToNest<Wrapper>` (or `<Option<Wrapper>>`) on the transformer
    /// `T` for a group that has groups of its own: the group by `T`, then its
    /// wrapper by `T`.
    NestedWrapperTransform {
        transform_ty: String,
        source_ty: String,
        nest_ty: String,
        wrapper_ty: String,
        optional: bool,
    },
}
} // verus!
