//! The emission serializer: Rust source text of the struct model. It decides
//! nothing; the same model always renders to the same text.

use vstd::prelude::*;
use vstd::string::StringExecFns;

use crate::model::{
    field_views, full_type, opt_text, texts, ConversionImpl, FieldView, ItemVis, StructField,
    StructView, UniversalStruct,
};

verus! {

/// A string literal that denotes `s`, as `str`'s `Debug` writes it.
pub uninterp spec fn quoted_of(s: Seq<char>) -> Seq<char>;

/// Relies on `<str as Debug>::fmt`: a quoted string literal with escapes,
/// which depends on the characters of `s` alone.
#[verifier::external_body]
pub(crate) fn quote_str(s: &str) -> (r: String)
    ensures
        r@ == quoted_of(s@),
{
    format!("{:?}", s)
}

/// The items separated by `sep`.
pub open spec fn join_with(items: Seq<Seq<char>>, sep: Seq<char>) -> Seq<char>
    decreases items.len(),
{
    if items.len() == 0 {
        Seq::empty()
    } else if items.len() == 1 {
        items[0]
    } else {
        join_with(items.drop_last(), sep) + sep + items.last()
    }
}

/// One `#[attr]` line per attribute.
pub open spec fn attr_lines(attrs: Seq<Seq<char>>, indent: Seq<char>) -> Seq<char>
    decreases attrs.len(),
{
    if attrs.len() == 0 {
        Seq::empty()
    } else {
        attr_lines(attrs.drop_last(), indent) + indent + "#["@ + attrs.last() + "]\n"@
    }
}

pub open spec fn vis_text(v: ItemVis) -> Seq<char> {
    match v {
        ItemVis::Public => "pub "@,
        ItemVis::Private => Seq::empty(),
    }
}

pub open spec fn doc_line(doc: Option<Seq<char>>, indent: Seq<char>) -> Seq<char> {
    match doc {
        Some(d) => indent + "#[doc = "@ + quoted_of(d) + "]\n"@,
        None => Seq::empty(),
    }
}

pub open spec fn field_text(f: FieldView) -> Seq<char> {
    attr_lines(f.attrs, "    "@) + doc_line(f.doc, "    "@) + "    "@ + vis_text(f.vis) + f.name
        + ": "@ + full_type(f.ty, f.optional) + ",\n"@
}

pub open spec fn fields_text(fs: Seq<FieldView>) -> Seq<char>
    decreases fs.len(),
{
    if fs.len() == 0 {
        Seq::empty()
    } else {
        fields_text(fs.drop_last()) + field_text(fs.last())
    }
}

pub open spec fn derive_line(derives: Seq<Seq<char>>) -> Seq<char> {
    if derives.len() == 0 {
        Seq::empty()
    } else {
        "#[derive("@ + join_with(derives, ", "@) + ")]\n"@
    }
}

/// A struct definition up to its opening brace.
pub open spec fn struct_head(s: StructView) -> Seq<char> {
    "#[automatically_derived]\n"@ + derive_line(s.derives) + attr_lines(s.attrs, ""@)
        + doc_line(s.doc, ""@) + vis_text(s.vis) + "struct "@ + s.ty + " {\n"@
}

/// The definition of a struct.
pub open spec fn struct_text(s: StructView) -> Seq<char> {
    struct_head(s) + fields_text(s.fields) + "}\n"@
}

fn push_str(out: &mut String, s: &str)
    ensures
        final(out)@ == old(out)@ + s@,
{
    out.append(s);
}

fn push_string(out: &mut String, s: &String)
    ensures
        final(out)@ == old(out)@ + s@,
{
    out.append(s.as_str());
}

fn push_join(out: &mut String, items: &Vec<String>, sep: &str)
    ensures
        final(out)@ == old(out)@ + join_with(texts(items@), sep@),
{
    let ghost start = out@;
    let mut k: usize = 0;
    while k < items.len()
        invariant
            k <= items@.len(),
            out@ == start + join_with(texts(items@.subrange(0, k as int)), sep@),
        decreases items@.len() - k,
    {
        let ghost t = texts(items@.subrange(0, k + 1));
        proof {
            assert(t.drop_last() =~= texts(items@.subrange(0, k as int)));
            assert(t.last() == items@[k as int]@);
        }
        if k > 0 {
            push_str(out, sep);
        }
        push_string(out, &items[k]);
        proof {
            if k == 0 {
                assert(t.len() == 1);
                assert(texts(items@.subrange(0, 0)).len() == 0);
                assert(out@ =~= start + join_with(t, sep@));
            } else {
                assert(out@ =~= start + join_with(t, sep@));
            }
        }
        k = k + 1;
    }
    assert(items@.subrange(0, items@.len() as int) =~= items@);
}

fn push_attr_lines(out: &mut String, attrs: &Vec<String>, indent: &str)
    ensures
        final(out)@ == old(out)@ + attr_lines(texts(attrs@), indent@),
{
    let ghost start = out@;
    let mut k: usize = 0;
    while k < attrs.len()
        invariant
            k <= attrs@.len(),
            out@ == start + attr_lines(texts(attrs@.subrange(0, k as int)), indent@),
        decreases attrs@.len() - k,
    {
        let ghost t = texts(attrs@.subrange(0, k + 1));
        proof {
            assert(t.drop_last() =~= texts(attrs@.subrange(0, k as int)));
            assert(t.last() == attrs@[k as int]@);
        }
        push_str(out, indent);
        push_str(out, "#[");
        push_string(out, &attrs[k]);
        push_str(out, "]\n");
        assert(out@ =~= start + attr_lines(t, indent@));
        k = k + 1;
    }
    assert(attrs@.subrange(0, attrs@.len() as int) =~= attrs@);
}

fn push_vis(out: &mut String, v: ItemVis)
    ensures
        final(out)@ == old(out)@ + vis_text(v),
{
    match v {
        ItemVis::Public => push_str(out, "pub "),
        ItemVis::Private => {
            assert(out@ =~= out@ + vis_text(v));
        },
    }
}

fn push_doc(out: &mut String, doc: &Option<String>, indent: &str)
    ensures
        final(out)@ == old(out)@ + doc_line(opt_text(*doc), indent@),
{
    match doc {
        Some(d) => {
            push_str(out, indent);
            push_str(out, "#[doc = ");
            let q = quote_str(d.as_str());
            push_string(out, &q);
            push_str(out, "]\n");
        },
        None => {
            assert(out@ =~= out@ + doc_line(opt_text(*doc), indent@));
        },
    }
}

/// Renders one field of a struct definition.
pub fn render_field(out: &mut String, f: &StructField)
    ensures
        final(out)@ == old(out)@ + field_text(f@),
{
    let ghost start = out@;
    push_attr_lines(out, &f.attrs, "    ");
    push_doc(out, &f.doc, "    ");
    push_str(out, "    ");
    push_vis(out, f.vis);
    push_string(out, &f.name);
    push_str(out, ": ");
    let ty = f.ty_full();
    push_string(out, &ty);
    push_str(out, ",\n");
    assert(out@ =~= start + field_text(f@));
}

fn push_struct_head(out: &mut String, s: &UniversalStruct)
    ensures
        final(out)@ == old(out)@ + struct_head(s@),
{
    let ghost start = out@;
    push_str(out, "#[automatically_derived]\n");
    let ghost s0 = out@;
    if s.common.derives.len() > 0 {
        push_str(out, "#[derive(");
        push_join(out, &s.common.derives, ", ");
        push_str(out, ")]\n");
        assert(out@ =~= s0 + derive_line(texts(s.common.derives@)));
    } else {
        assert(texts(s.common.derives@).len() == 0);
        assert(out@ =~= s0 + derive_line(texts(s.common.derives@)));
    }
    let ghost s1 = out@;
    push_attr_lines(out, &s.common.attrs, "");
    let ghost s2 = out@;
    push_doc(out, &s.common.doc, "");
    let ghost s3 = out@;
    push_vis(out, s.common.vis);
    push_str(out, "struct ");
    push_string(out, &s.common.ty);
    push_str(out, " {\n");
    assert(out@ =~= s3 + vis_text(s.common.vis) + "struct "@ + s.common.ty@ + " {\n"@);
    assert(s3 =~= s2 + doc_line(s@.doc, ""@));
    assert(s2 =~= s1 + attr_lines(s@.attrs, ""@));
    assert(s1 =~= start + "#[automatically_derived]\n"@ + derive_line(s@.derives));
    assert(out@ =~= start + struct_head(s@));
}

/// Renders the fields of a struct definition.
pub fn render_fields(out: &mut String, fields: &Vec<StructField>)
    ensures
        final(out)@ == old(out)@ + fields_text(field_views(fields@)),
{
    let ghost head = out@;
    let mut k: usize = 0;
    while k < fields.len()
        invariant
            k <= fields@.len(),
            out@ == head + fields_text(field_views(fields@.subrange(0, k as int))),
        decreases fields@.len() - k,
    {
        let ghost t = field_views(fields@.subrange(0, k + 1));
        proof {
            assert(t.drop_last() =~= field_views(fields@.subrange(0, k as int)));
            assert(t.last() == fields@[k as int]@);
        }
        render_field(out, &fields[k]);
        assert(out@ =~= head + fields_text(t));
        k = k + 1;
    }
    assert(fields@.subrange(0, fields@.len() as int) =~= fields@);
}

/// Renders a struct definition.
pub fn render_struct(out: &mut String, s: &UniversalStruct)
    ensures
        final(out)@ == old(out)@ + struct_text(s@),
{
    let ghost start = out@;
    push_struct_head(out, s);
    render_fields(out, &s.fields);
    push_str(out, "}\n");
    assert(out@ =~= start + struct_text(s@));
}

/// `NAME: <TY as From<&D>>::from(data),` for each field.
pub open spec fn from_field_lines(fs: Seq<FieldView>, d: Seq<char>) -> Seq<char>
    decreases fs.len(),
{
    if fs.len() == 0 {
        Seq::empty()
    } else {
        from_field_lines(fs.drop_last(), d) + "            "@ + fs.last().name + ": <"@ + full_type(
            fs.last().ty,
            fs.last().optional,
        ) + " as ::core::convert::From<&"@ + d + ">>::from(data),\n"@
    }
}

/// `T: TransformToNest<TY, Data = D>,` for each field.
pub open spec fn where_lines(fs: Seq<FieldView>, t: Seq<char>, d: Seq<char>) -> Seq<char>
    decreases fs.len(),
{
    if fs.len() == 0 {
        Seq::empty()
    } else {
        where_lines(fs.drop_last(), t, d) + "    "@ + t + ": ::shrinkwrap::TransformToNest<"@
            + full_type(fs.last().ty, fs.last().optional) + ", Data = "@ + d + ">,\n"@
    }
}

/// `NAME: transform.transform_to_nest(&self, options),` for each field.
pub open spec fn transform_field_lines(fs: Seq<FieldView>) -> Seq<char>
    decreases fs.len(),
{
    if fs.len() == 0 {
        Seq::empty()
    } else {
        transform_field_lines(fs.drop_last()) + "                "@ + fs.last().name
            + ": transform.transform_to_nest(&self, options),\n"@
    }
}

pub open spec fn wrapper_from_data_text(
    d: Seq<char>,
    w: Seq<char>,
    e: Seq<char>,
    data_field: Seq<char>,
    extra_field: Seq<char>,
) -> Seq<char> {
    "#[automatically_derived]\nimpl ::core::convert::From<"@ + d + "> for "@ + w
        + " {\n    fn from(data: "@ + d + ") -> Self {\n        Self {\n            "@ + extra_field
        + ": <"@ + e + " as ::core::convert::From<&"@ + d + ">>::from(&data),\n            "@
        + data_field + ": data,\n        }\n    }\n}\n"@
}

pub open spec fn extra_from_data_text(d: Seq<char>, e: Seq<char>, fs: Seq<FieldView>) -> Seq<char> {
    "#[automatically_derived]\nimpl ::core::convert::From<&"@ + d + "> for "@ + e
        + " {\n    fn from(data: &"@ + d + ") -> Self {\n        Self {\n"@ + from_field_lines(fs, d)
        + "        }\n    }\n}\n"@
}

pub open spec fn nest_from_data_text(d: Seq<char>, n: Seq<char>) -> Seq<char> {
    "#[automatically_derived]\nimpl ::shrinkwrap::ToNest<"@ + n + "> for "@ + d
        + " {\n    fn to_nest(&self) -> "@ + n + " {\n        <"@ + n
        + " as ::core::convert::From<&"@ + d + ">>::from(self)\n    }\n}\n"@
}

/// The head of the delegation impl: generic over the transformer `T`,
/// which must convert `d` into the type of each field.
pub open spec fn wrap_with_transform_head(d: Seq<char>, fs: Seq<FieldView>) -> Seq<char> {
    "#[automatically_derived]\nimpl<T> ::shrinkwrap::ToWrappedWith<T> for "@ + d
        + "\nwhere\n    T: ::shrinkwrap::Transform,\n"@ + where_lines(fs, "T"@, d) + "{\n    type Wrapper = "@
}

pub open spec fn wrap_with_transform_text(
    d: Seq<char>,
    w: Seq<char>,
    e: Seq<char>,
    data_field: Seq<char>,
    extra_field: Seq<char>,
    fs: Seq<FieldView>,
) -> Seq<char> {
    wrap_with_transform_head(d, fs) + w
        + ";\n\n    fn to_wrapped_with(self, transform: &T, options: &<T as ::shrinkwrap::Transform>::Options) -> Self::Wrapper {\n        "@ + w
        + " {\n            "@ + extra_field + ": "@ + e + " {\n"@ + transform_field_lines(fs)
        + "            },\n            "@ + data_field + ": self,\n        }\n    }\n}\n"@
}

pub open spec fn nested_wrapper_from_text(s: Seq<char>, n: Seq<char>, w: Seq<char>, optional: bool) -> Seq<
    char,
> {
    if optional {
        "#[automatically_derived]\nimpl ::core::convert::From<&"@ + s
            + "> for ::core::option::Option<"@ + w + "> {\n    fn from(data: &"@ + s
            + ") -> Self {\n        <::core::option::Option<"@ + n
            + "> as ::core::convert::From<&"@ + s + ">>::from(data).map(<"@ + w
            + " as ::core::convert::From<"@ + n + ">>::from)\n    }\n}\n"@
    } else {
        "#[automatically_derived]\nimpl ::core::convert::From<&"@ + s + "> for "@ + w
            + " {\n    fn from(data: &"@ + s + ") -> Self {\n        <"@ + w
            + " as ::core::convert::From<"@ + n + ">>::from(<"@ + n
            + " as ::core::convert::From<&"@ + s + ">>::from(data))\n    }\n}\n"@
    }
}

pub open spec fn nested_wrapper_transform_text(
    t: Seq<char>,
    s: Seq<char>,
    n: Seq<char>,
    w: Seq<char>,
    optional: bool,
) -> Seq<char> {
    let target = full_type(w, optional);
    "#[automatically_derived]\nimpl ::shrinkwrap::TransformToNest<"@ + target + "> for "@ + t
        + " {\n    type Data = "@ + s
        + ";\n\n    fn transform_to_nest(&self, data: &Self::Data, options: &Self::Options) -> "@
        + target + " {\n        use ::shrinkwrap::{ToNestWith, WrapDataWith};\n        let nest_data: "@
        + full_type(n, optional) + " = data.to_nest_with(self, options);\n        "@ + if optional {
        "nest_data.map(|some_nest_data| "@ + w
            + "::wrap_data_with(some_nest_data, self, options))\n    }\n}\n"@
    } else {
        w + "::wrap_data_with(nest_data, self, options)\n    }\n}\n"@
    }
}

/// The definition of a conversion impl.
pub open spec fn impl_text(c: ConversionImpl) -> Seq<char> {
    match c {
        ConversionImpl::WrapperFromData { data_ty, wrapper_ty, extra_ty, data_field, extra_field } =>
            wrapper_from_data_text(data_ty@, wrapper_ty@, extra_ty@, data_field@, extra_field@),
        ConversionImpl::ExtraFromData { data_ty, extra_ty, fields } => extra_from_data_text(
            data_ty@,
            extra_ty@,
            field_views(fields@),
        ),
        ConversionImpl::NestFromData { data_ty, nest_ty } => nest_from_data_text(data_ty@, nest_ty@),
        ConversionImpl::WrapWithTransform {
            data_ty,
            wrapper_ty,
            extra_ty,
            data_field,
            extra_field,
            fields,
        } => wrap_with_transform_text(
            data_ty@,
            wrapper_ty@,
            extra_ty@,
            data_field@,
            extra_field@,
            field_views(fields@),
        ),
        ConversionImpl::NestedWrapperFrom { source_ty, nest_ty, wrapper_ty, optional } =>
            nested_wrapper_from_text(source_ty@, nest_ty@, wrapper_ty@, optional),
        ConversionImpl::NestedWrapperTransform {
            transform_ty,
            source_ty,
            nest_ty,
            wrapper_ty,
            optional,
        } => nested_wrapper_transform_text(
            transform_ty@,
            source_ty@,
            nest_ty@,
            wrapper_ty@,
            optional,
        ),
    }
}

fn push_full_type(out: &mut String, f: &StructField)
    ensures
        final(out)@ == old(out)@ + full_type(f@.ty, f@.optional),
{
    let ty = f.ty_full();
    push_string(out, &ty);
}

fn push_from_field_lines(out: &mut String, fs: &Vec<StructField>, d: &String)
    ensures
        final(out)@ == old(out)@ + from_field_lines(field_views(fs@), d@),
{
    let ghost start = out@;
    let mut k: usize = 0;
    while k < fs.len()
        invariant
            k <= fs@.len(),
            out@ == start + from_field_lines(field_views(fs@.subrange(0, k as int)), d@),
        decreases fs@.len() - k,
    {
        let ghost t = field_views(fs@.subrange(0, k + 1));
        proof {
            assert(t.drop_last() =~= field_views(fs@.subrange(0, k as int)));
            assert(t.last() == fs@[k as int]@);
        }
        push_str(out, "            ");
        push_string(out, &fs[k].name);
        push_str(out, ": <");
        push_full_type(out, &fs[k]);
        push_str(out, " as ::core::convert::From<&");
        push_string(out, d);
        push_str(out, ">>::from(data),\n");
        assert(out@ =~= start + from_field_lines(t, d@));
        k = k + 1;
    }
    assert(fs@.subrange(0, fs@.len() as int) =~= fs@);
}

fn push_where_lines(out: &mut String, fs: &Vec<StructField>, t: &str, d: &String)
    ensures
        final(out)@ == old(out)@ + where_lines(field_views(fs@), t@, d@),
{
    let ghost start = out@;
    let mut k: usize = 0;
    while k < fs.len()
        invariant
            k <= fs@.len(),
            out@ == start + where_lines(field_views(fs@.subrange(0, k as int)), t@, d@),
        decreases fs@.len() - k,
    {
        let ghost v = field_views(fs@.subrange(0, k + 1));
        proof {
            assert(v.drop_last() =~= field_views(fs@.subrange(0, k as int)));
            assert(v.last() == fs@[k as int]@);
        }
        push_str(out, "    ");
        push_str(out, t);
        push_str(out, ": ::shrinkwrap::TransformToNest<");
        push_full_type(out, &fs[k]);
        push_str(out, ", Data = ");
        push_string(out, d);
        push_str(out, ">,\n");
        assert(out@ =~= start + where_lines(v, t@, d@));
        k = k + 1;
    }
    assert(fs@.subrange(0, fs@.len() as int) =~= fs@);
}

fn push_transform_field_lines(out: &mut String, fs: &Vec<StructField>)
    ensures
        final(out)@ == old(out)@ + transform_field_lines(field_views(fs@)),
{
    let ghost start = out@;
    let mut k: usize = 0;
    while k < fs.len()
        invariant
            k <= fs@.len(),
            out@ == start + transform_field_lines(field_views(fs@.subrange(0, k as int))),
        decreases fs@.len() - k,
    {
        let ghost v = field_views(fs@.subrange(0, k + 1));
        proof {
            assert(v.drop_last() =~= field_views(fs@.subrange(0, k as int)));
            assert(v.last() == fs@[k as int]@);
        }
        push_str(out, "                ");
        push_string(out, &fs[k].name);
        push_str(out, ": transform.transform_to_nest(&self, options),\n");
        assert(out@ =~= start + transform_field_lines(v));
        k = k + 1;
    }
    assert(fs@.subrange(0, fs@.len() as int) =~= fs@);
}

fn render_wrapper_from_data(
    out: &mut String,
    d: &String,
    w: &String,
    e: &String,
    data_field: &String,
    extra_field: &String,
)
    ensures
        final(out)@ == old(out)@ + wrapper_from_data_text(d@, w@, e@, data_field@, extra_field@),
{
    let ghost start = out@;
    push_str(out, "#[automatically_derived]\nimpl ::core::convert::From<");
    push_string(out, d);
    push_str(out, "> for ");
    push_string(out, w);
    push_str(out, " {\n    fn from(data: ");
    push_string(out, d);
    push_str(out, ") -> Self {\n        Self {\n            ");
    push_string(out, extra_field);
    push_str(out, ": <");
    push_string(out, e);
    push_str(out, " as ::core::convert::From<&");
    push_string(out, d);
    push_str(out, ">>::from(&data),\n            ");
    push_string(out, data_field);
    push_str(out, ": data,\n        }\n    }\n}\n");
    assert(out@ =~= start + wrapper_from_data_text(d@, w@, e@, data_field@, extra_field@));
}

fn render_extra_from_data(out: &mut String, d: &String, e: &String, fs: &Vec<StructField>)
    ensures
        final(out)@ == old(out)@ + extra_from_data_text(d@, e@, field_views(fs@)),
{
    let ghost start = out@;
    push_str(out, "#[automatically_derived]\nimpl ::core::convert::From<&");
    push_string(out, d);
    push_str(out, "> for ");
    push_string(out, e);
    push_str(out, " {\n    fn from(data: &");
    push_string(out, d);
    push_str(out, ") -> Self {\n        Self {\n");
    push_from_field_lines(out, fs, d);
    push_str(out, "        }\n    }\n}\n");
    assert(out@ =~= start + extra_from_data_text(d@, e@, field_views(fs@)));
}

fn render_nest_from_data(out: &mut String, d: &String, n: &String)
    ensures
        final(out)@ == old(out)@ + nest_from_data_text(d@, n@),
{
    let ghost start = out@;
    push_str(out, "#[automatically_derived]\nimpl ::shrinkwrap::ToNest<");
    push_string(out, n);
    push_str(out, "> for ");
    push_string(out, d);
    push_str(out, " {\n    fn to_nest(&self) -> ");
    push_string(out, n);
    push_str(out, " {\n        <");
    push_string(out, n);
    push_str(out, " as ::core::convert::From<&");
    push_string(out, d);
    push_str(out, ">>::from(self)\n    }\n}\n");
    assert(out@ =~= start + nest_from_data_text(d@, n@));
}

fn render_wrap_with_transform(
    out: &mut String,
    d: &String,
    w: &String,
    e: &String,
    data_field: &String,
    extra_field: &String,
    fs: &Vec<StructField>,
)
    ensures
        final(out)@ == old(out)@ + wrap_with_transform_text(
            d@,
            w@,
            e@,
            data_field@,
            extra_field@,
            field_views(fs@),
        ),
{
    let ghost start = out@;
    push_str(out, "#[automatically_derived]\nimpl<T> ::shrinkwrap::ToWrappedWith<T> for ");
    push_string(out, d);
    push_str(out, "\nwhere\n    T: ::shrinkwrap::Transform,\n");
    push_where_lines(out, fs, "T", d);
    push_str(out, "{\n    type Wrapper = ");
    assert(out@ =~= start + wrap_with_transform_head(d@, field_views(fs@)));
    let ghost head = out@;
    push_string(out, w);
    push_str(out, ";\n\n    fn to_wrapped_with(self, transform: &T, options: &<T as ::shrinkwrap::Transform>::Options) -> Self::Wrapper {\n        ");
    push_string(out, w);
    push_str(out, " {\n            ");
    push_string(out, extra_field);
    push_str(out, ": ");
    push_string(out, e);
    push_str(out, " {\n");
    assert(out@ =~= head + w@ + ";\n\n    fn to_wrapped_with(self, transform: &T, options: &<T as ::shrinkwrap::Transform>::Options) -> Self::Wrapper {\n        "@ + w@ + " {\n            "@
        + extra_field@ + ": "@ + e@ + " {\n"@);
    push_transform_field_lines(out, fs);
    push_str(out, "            },\n            ");
    push_string(out, data_field);
    push_str(out, ": self,\n        }\n    }\n}\n");
    assert(out@ =~= start + wrap_with_transform_text(
        d@,
        w@,
        e@,
        data_field@,
        extra_field@,
        field_views(fs@),
    ));
}

fn render_nested_wrapper_from(out: &mut String, s: &String, n: &String, w: &String, optional: bool)
    ensures
        final(out)@ == old(out)@ + nested_wrapper_from_text(s@, n@, w@, optional),
{
    let ghost start = out@;
    if optional {
        push_str(out, "#[automatically_derived]\nimpl ::core::convert::From<&");
        push_string(out, s);
        push_str(out, "> for ::core::option::Option<");
        push_string(out, w);
        push_str(out, "> {\n    fn from(data: &");
        push_string(out, s);
        push_str(out, ") -> Self {\n        <::core::option::Option<");
        push_string(out, n);
        push_str(out, "> as ::core::convert::From<&");
        push_string(out, s);
        push_str(out, ">>::from(data).map(<");
        push_string(out, w);
        push_str(out, " as ::core::convert::From<");
        push_string(out, n);
        push_str(out, ">>::from)\n    }\n}\n");
    } else {
        push_str(out, "#[automatically_derived]\nimpl ::core::convert::From<&");
        push_string(out, s);
        push_str(out, "> for ");
        push_string(out, w);
        push_str(out, " {\n    fn from(data: &");
        push_string(out, s);
        push_str(out, ") -> Self {\n        <");
        push_string(out, w);
        push_str(out, " as ::core::convert::From<");
        push_string(out, n);
        push_str(out, ">>::from(<");
        push_string(out, n);
        push_str(out, " as ::core::convert::From<&");
        push_string(out, s);
        push_str(out, ">>::from(data))\n    }\n}\n");
    }
    assert(out@ =~= start + nested_wrapper_from_text(s@, n@, w@, optional));
}

fn push_full_name(out: &mut String, name: &String, optional: bool)
    ensures
        final(out)@ == old(out)@ + full_type(name@, optional),
{
    if optional {
        push_str(out, "Option<");
        push_string(out, name);
        push_str(out, ">");
        assert(out@ =~= old(out)@ + full_type(name@, optional));
    } else {
        push_string(out, name);
    }
}

fn render_nested_wrapper_transform(
    out: &mut String,
    t: &String,
    s: &String,
    n: &String,
    w: &String,
    optional: bool,
)
    ensures
        final(out)@ == old(out)@ + nested_wrapper_transform_text(t@, s@, n@, w@, optional),
{
    let ghost start = out@;
    push_str(out, "#[automatically_derived]\nimpl ::shrinkwrap::TransformToNest<");
    push_full_name(out, w, optional);
    push_str(out, "> for ");
    push_string(out, t);
    push_str(out, " {\n    type Data = ");
    push_string(out, s);
    push_str(out, ";\n\n    fn transform_to_nest(&self, data: &Self::Data, options: &Self::Options) -> ");
    push_full_name(out, w, optional);
    push_str(out, " {\n        use ::shrinkwrap::{ToNestWith, WrapDataWith};\n        let nest_data: ");
    push_full_name(out, n, optional);
    push_str(out, " = data.to_nest_with(self, options);\n        ");
    if optional {
        push_str(out, "nest_data.map(|some_nest_data| ");
        push_string(out, w);
        push_str(out, "::wrap_data_with(some_nest_data, self, options))\n    }\n}\n");
    } else {
        push_string(out, w);
        push_str(out, "::wrap_data_with(nest_data, self, options)\n    }\n}\n");
    }
    assert(out@ =~= start + nested_wrapper_transform_text(t@, s@, n@, w@, optional));
}

/// Renders a conversion impl.
pub fn render_impl(out: &mut String, c: &ConversionImpl)
    ensures
        final(out)@ == old(out)@ + impl_text(*c),
{
    match c {
        ConversionImpl::WrapperFromData { data_ty, wrapper_ty, extra_ty, data_field, extra_field } =>
            render_wrapper_from_data(out, data_ty, wrapper_ty, extra_ty, data_field, extra_field),
        ConversionImpl::ExtraFromData { data_ty, extra_ty, fields } => render_extra_from_data(
            out,
            data_ty,
            extra_ty,
            fields,
        ),
        ConversionImpl::NestFromData { data_ty, nest_ty } => render_nest_from_data(out, data_ty, nest_ty),
        ConversionImpl::WrapWithTransform {
            data_ty,
            wrapper_ty,
            extra_ty,
            data_field,
            extra_field,
            fields,
        } => render_wrap_with_transform(
            out,
            data_ty,
            wrapper_ty,
            extra_ty,
            data_field,
            extra_field,
            fields,
        ),
        ConversionImpl::NestedWrapperFrom { source_ty, nest_ty, wrapper_ty, optional } =>
            render_nested_wrapper_from(out, source_ty, nest_ty, wrapper_ty, *optional),
        ConversionImpl::NestedWrapperTransform {
            transform_ty,
            source_ty,
            nest_ty,
            wrapper_ty,
            optional,
        } => render_nested_wrapper_transform(out, transform_ty, source_ty, nest_ty, wrapper_ty, *optional),
    }
}

} // verus!
