use shrinkwrap::config::{
    DeeplyNestedOpts, DeriveItemFieldOpts, DeriveItemOpts, DerivedStructClassSelection, ExtraOpts,
    GlobalOpts, NestOpts, NestSelection, PassthroughFieldAttribute, PassthroughStructAttribute,
    WrapperOpts,
};
use shrinkwrap::error::GenError;
use shrinkwrap::generate::{generate, generate_model, Generated};
use shrinkwrap::model::{ConversionImpl, UniversalStruct};

fn s(x: &str) -> String {
    x.to_string()
}

fn field(name: &str, nests: &[&str]) -> DeriveItemFieldOpts {
    DeriveItemFieldOpts {
        ident: Some(s(name)),
        attrs: Vec::new(),
        nests: nests.iter().map(|n| s(n)).collect(),
    }
}

fn nest(id: &str, field_type: &str) -> NestOpts {
    NestOpts {
        id: s(id),
        field_name: None,
        rename: None,
        derive: Vec::new(),
        field_type: s(field_type),
        nested: None,
        from: true,
        transform: None,
        struct_doc: None,
        parent_field_doc: None,
        optional: false,
    }
}

fn global() -> GlobalOpts {
    GlobalOpts { transform: None, schema: false, inline: false, all_optional: false }
}

fn wrapper_opts() -> WrapperOpts {
    WrapperOpts {
        struct_suffix: None,
        derive: Vec::new(),
        doc: None,
        data_field_name: None,
        data_field_doc: None,
        flatten: None,
        extra_field_name: None,
        extra_field_doc: None,
    }
}

fn extra_opts() -> ExtraOpts {
    ExtraOpts { struct_suffix: None, derive: Vec::new(), doc: None }
}

fn config(fields: Vec<DeriveItemFieldOpts>, nests: Vec<NestOpts>) -> DeriveItemOpts {
    DeriveItemOpts {
        ident: s("R"),
        fields,
        attrs: Vec::new(),
        global_opts: global(),
        wrapper_opts: wrapper_opts(),
        extra_opts: extra_opts(),
        nest_opts: nests,
    }
}

fn scenario_a() -> DeriveItemOpts {
    config(vec![field("a", &["g1"]), field("b", &["g1"])], vec![nest("g1", "String")])
}

fn find<'a>(g: &'a Generated, name: &str) -> &'a UniversalStruct {
    g.structs.iter().find(|st| st.common.ty == name).expect("struct emitted")
}

fn field_summary(st: &UniversalStruct) -> Vec<(String, String)> {
    st.fields.iter().map(|f| (f.name.clone(), f.ty_full())).collect()
}

fn names(g: &Generated) -> Vec<String> {
    g.structs.iter().map(|st| st.common.ty.clone()).collect()
}

fn impl_kinds(g: &Generated) -> Vec<String> {
    g.impls
        .iter()
        .map(|c| match c {
            ConversionImpl::WrapperFromData { data_ty, wrapper_ty, .. } => {
                format!("From<{data_ty}> for {wrapper_ty}")
            }
            ConversionImpl::ExtraFromData { data_ty, extra_ty, .. } => {
                format!("From<&{data_ty}> for {extra_ty}")
            }
            ConversionImpl::NestFromData { data_ty, nest_ty } => {
                format!("ToNest<{nest_ty}> for {data_ty}")
            }
            ConversionImpl::WrapWithTransform { data_ty, .. } => {
                format!("ToWrappedWith<T> for {data_ty}")
            }
            ConversionImpl::NestedWrapperFrom { source_ty, wrapper_ty, optional, .. } => {
                format!("From<&{source_ty}> for {wrapper_ty} optional={optional}")
            }
            ConversionImpl::NestedWrapperTransform { transform_ty, source_ty, wrapper_ty, .. } => {
                format!("TransformToNest<{wrapper_ty}> for {transform_ty} from {source_ty}")
            }
        })
        .collect()
}

#[test]
fn scenario_a_single_reused_group() {
    let g = generate_model(scenario_a()).expect("valid config");
    assert_eq!(names(&g), vec![s("RWrapper"), s("RExtra"), s("RNestedG1")]);
    assert_eq!(
        field_summary(find(&g, "RWrapper")),
        vec![(s("data"), s("R")), (s("extra"), s("RExtra"))]
    );
    assert_eq!(field_summary(find(&g, "RExtra")), vec![(s("g1"), s("RNestedG1"))]);
    assert_eq!(
        field_summary(find(&g, "RNestedG1")),
        vec![(s("a"), s("String")), (s("b"), s("String"))]
    );
    assert_eq!(
        impl_kinds(&g),
        vec![
            s("From<R> for RWrapper"),
            s("From<&R> for RExtra"),
            s("ToNest<RNestedG1> for R"),
        ]
    );
}

#[test]
fn scenario_b_optional_group() {
    let mut cfg = scenario_a();
    cfg.nest_opts[0].optional = true;
    let g = generate_model(cfg).expect("valid config");
    assert_eq!(field_summary(find(&g, "RExtra")), vec![(s("g1"), s("Option<RNestedG1>"))]);
}

#[test]
fn all_optional_wraps_every_group() {
    let mut cfg = scenario_a();
    cfg.global_opts.all_optional = true;
    let g = generate_model(cfg).expect("valid config");
    assert_eq!(field_summary(find(&g, "RExtra")), vec![(s("g1"), s("Option<RNestedG1>"))]);
}

#[test]
fn scenario_c_mixed_strategies_emit_no_root_conversion() {
    let mut g2 = nest("g2", "String");
    g2.from = false;
    g2.transform = Some(s("MyTransform"));
    let cfg = config(
        vec![field("a", &["g1"]), field("b", &["g2"])],
        vec![nest("g1", "String"), g2],
    );
    let g = generate_model(cfg).expect("valid config");
    assert_eq!(names(&g), vec![s("RWrapper"), s("RExtra"), s("RNestedG1"), s("RNestedG2")]);
    assert!(g.impls.is_empty());
}

#[test]
fn uniform_transformer_emits_one_delegation() {
    let mut g1 = nest("g1", "String");
    g1.from = false;
    let mut g2 = nest("g2", "String");
    g2.from = false;
    let mut cfg = config(
        vec![field("a", &["g1", "g2"])],
        vec![g1, g2],
    );
    cfg.global_opts.transform = Some(s("T"));
    let g = generate_model(cfg).expect("valid config");
    assert_eq!(impl_kinds(&g), vec![s("ToWrappedWith<T> for R")]);
    let text = generate(scenario_with_transform()).expect("valid config");
    assert!(text.contains(
        "impl<T> ::shrinkwrap::ToWrappedWith<T> for R\nwhere\n    T: ::shrinkwrap::Transform,\n    T: ::shrinkwrap::TransformToNest<RNestedG1, Data = R>,\n{\n    type Wrapper = RWrapper;"
    ));
    assert!(text.contains("fn to_wrapped_with(self, transform: &T, options: &<T as ::shrinkwrap::Transform>::Options) -> Self::Wrapper {"));
    assert!(text.contains("g1: transform.transform_to_nest(&self, options),"));
}

fn scenario_with_transform() -> DeriveItemOpts {
    let mut cfg = scenario_a();
    cfg.nest_opts[0].from = false;
    cfg.nest_opts[0].transform = Some(s("T"));
    cfg
}

#[test]
fn two_transformers_emit_nothing() {
    let mut g1 = nest("g1", "String");
    g1.from = false;
    g1.transform = Some(s("T1"));
    let mut g2 = nest("g2", "String");
    g2.from = false;
    g2.transform = Some(s("T2"));
    let g = generate_model(config(vec![field("a", &["g1", "g2"])], vec![g1, g2])).expect("valid");
    assert!(g.impls.is_empty());
}

fn scenario_d() -> DeriveItemOpts {
    let mut g2 = nest("g2", "u8");
    g2.from = false;
    g2.nested = Some(DeeplyNestedOpts { origin: s("g1") });
    config(
        vec![field("a", &["g1"]), field("b", &["g1", "g2"])],
        vec![nest("g1", "String"), g2],
    )
}

#[test]
fn scenario_d_deep_nesting() {
    let g = generate_model(scenario_d()).expect("valid config");
    assert_eq!(
        names(&g),
        vec![
            s("RWrapper"),
            s("RExtra"),
            s("RNestedG1"),
            s("RNestedG1Wrapper"),
            s("RNestedG1Extra"),
            s("RNestedG1G2"),
        ]
    );
    assert_eq!(field_summary(find(&g, "RExtra")), vec![(s("g1"), s("RNestedG1Wrapper"))]);
    assert_eq!(
        field_summary(find(&g, "RNestedG1Wrapper")),
        vec![(s("data"), s("RNestedG1")), (s("extra"), s("RNestedG1Extra"))]
    );
    assert_eq!(field_summary(find(&g, "RNestedG1Extra")), vec![(s("g2"), s("RNestedG1G2"))]);
    assert_eq!(field_summary(find(&g, "RNestedG1G2")), vec![(s("b"), s("u8"))]);
    assert!(impl_kinds(&g).contains(&s("From<&R> for RNestedG1Wrapper optional=false")));
}

#[test]
fn field_order_follows_declaration() {
    let cfg = config(
        vec![field("f1", &["g"]), field("f2", &["g"]), field("f3", &["g"])],
        vec![nest("g", "String")],
    );
    let g = generate_model(cfg).expect("valid config");
    let fields: Vec<String> = find(&g, "RNestedG").fields.iter().map(|f| f.name.clone()).collect();
    assert_eq!(fields, vec![s("f1"), s("f2"), s("f3")]);
}

#[test]
fn generation_is_deterministic() {
    let a = generate(scenario_d()).expect("valid config");
    let b = generate(scenario_d()).expect("valid config");
    assert_eq!(a, b);
}

#[test]
fn rendered_text_of_scenario_a() {
    let text = generate(scenario_a()).expect("valid config");
    assert!(text.starts_with(
        "#[automatically_derived]\n#[derive(core::fmt::Debug, core::clone::Clone, serde::Serialize)]\npub struct RWrapper {\n    #[serde(flatten)]\n    pub data: R,\n    pub extra: RExtra,\n}\n"
    ));
    assert!(text.contains("pub struct RNestedG1 {\n    pub a: String,\n    pub b: String,\n}\n"));
    assert!(text.contains(
        "impl ::core::convert::From<R> for RWrapper {\n    fn from(data: R) -> Self {\n        Self {\n            extra: <RExtra as ::core::convert::From<&R>>::from(&data),\n            data: data,\n"
    ));
}

#[test]
fn duplicate_identity_is_rejected() {
    let cfg = config(vec![], vec![nest("g", "String"), nest("g", "u8")]);
    match generate(cfg) {
        Err(GenError::DuplicateNestId { first, second }) => {
            assert_eq!((first, second), (0, 1));
        }
        other => panic!("unexpected: {other:?}"),
    }
}

#[test]
fn duplicate_struct_name_is_rejected() {
    let mut second = nest("h", "String");
    second.rename = Some(s("RNestedG"));
    let cfg = config(vec![], vec![nest("g", "String"), second]);
    assert!(matches!(
        generate(cfg),
        Err(GenError::DuplicateNestName { first: 0, second: 1 })
    ));
}

#[test]
fn self_origin_is_rejected() {
    let mut g = nest("g", "String");
    g.nested = Some(DeeplyNestedOpts { origin: s("g") });
    assert!(matches!(
        generate(config(vec![], vec![g])),
        Err(GenError::UnknownOrigin { nest: 0 })
    ));
}

#[test]
fn forward_origin_is_rejected() {
    let mut g1 = nest("g1", "String");
    g1.nested = Some(DeeplyNestedOpts { origin: s("g2") });
    let cfg = config(vec![], vec![g1, nest("g2", "String")]);
    assert!(matches!(generate(cfg), Err(GenError::UnknownOrigin { nest: 0 })));
}

#[test]
fn unknown_group_in_field_is_rejected() {
    let cfg = config(vec![field("a", &["nope"])], vec![nest("g", "String")]);
    match generate(cfg) {
        Err(GenError::UnknownNestInField { field, id }) => {
            assert_eq!((field, id.as_str()), (0, "nope"));
        }
        other => panic!("unexpected: {other:?}"),
    }
}

#[test]
fn duplicate_field_in_group_is_rejected() {
    let cfg = config(vec![field("a", &["g", "g"])], vec![nest("g", "String")]);
    assert!(matches!(
        generate(cfg),
        Err(GenError::DuplicateFieldInNest { field: 0, nest: 0 })
    ));
}

#[test]
fn missing_strategy_is_rejected() {
    let mut g = nest("g", "String");
    g.from = false;
    assert!(matches!(
        generate(config(vec![], vec![g])),
        Err(GenError::MissingStrategy { nest: 0 })
    ));
}

#[test]
fn conflicting_strategy_is_rejected() {
    let mut g = nest("g", "String");
    g.transform = Some(s("T"));
    assert!(matches!(
        generate(config(vec![], vec![g])),
        Err(GenError::ConflictingStrategy { nest: 0 })
    ));
}

#[test]
fn empty_identity_is_rejected() {
    assert!(matches!(
        generate(config(vec![], vec![nest("", "String")])),
        Err(GenError::EmptyNestId { nest: 0 })
    ));
}

#[test]
fn struct_name_collision_is_rejected() {
    let mut g = nest("g", "String");
    g.rename = Some(s("RWrapper"));
    match generate(config(vec![], vec![g])) {
        Err(GenError::StructNameCollision { name }) => assert_eq!(name, "RWrapper"),
        other => panic!("unexpected: {other:?}"),
    }
}

#[test]
fn unknown_group_in_struct_attribute_is_rejected() {
    let mut cfg = scenario_a();
    cfg.attrs.push(PassthroughStructAttribute {
        attr: s("serde(rename_all = \"camelCase\")"),
        nests: NestSelection::Restricted(vec![s("missing")]),
        class: DerivedStructClassSelection::all(),
    });
    match generate(cfg) {
        Err(GenError::UnknownNestInStructAttr { attr, id }) => {
            assert_eq!((attr, id.as_str()), (0, "missing"));
        }
        other => panic!("unexpected: {other:?}"),
    }
}

#[test]
fn unknown_group_in_field_attribute_is_rejected() {
    let mut cfg = scenario_a();
    cfg.fields[0].attrs.push(PassthroughFieldAttribute {
        attr: s("serde(skip)"),
        nests: NestSelection::Restricted(vec![s("missing")]),
    });
    assert!(matches!(
        generate(cfg),
        Err(GenError::UnknownNestInFieldAttr { field: 0, attr: 0, .. })
    ));
}

#[test]
fn pass_through_attributes_reach_their_classes_once() {
    let mut cfg = config(
        vec![field("a", &["g1", "g2"])],
        vec![nest("g1", "String"), nest("g2", "String")],
    );
    cfg.attrs.push(PassthroughStructAttribute {
        attr: s("serde(deny_unknown_fields)"),
        nests: NestSelection::Unrestricted,
        class: DerivedStructClassSelection { wrapper: true, extra: false, nest: true },
    });
    cfg.fields[0].attrs.push(PassthroughFieldAttribute {
        attr: s("serde(skip_serializing_if = \"String::is_empty\")"),
        nests: NestSelection::Restricted(vec![s("g2")]),
    });
    let g = generate_model(cfg).expect("valid config");
    assert_eq!(find(&g, "RWrapper").common.attrs, vec![s("serde(deny_unknown_fields)")]);
    assert!(find(&g, "RExtra").common.attrs.is_empty());
    assert_eq!(find(&g, "RNestedG1").common.attrs, vec![s("serde(deny_unknown_fields)")]);
    assert!(find(&g, "RNestedG1").fields[0].attrs.is_empty());
    assert_eq!(
        find(&g, "RNestedG2").fields[0].attrs,
        vec![s("serde(skip_serializing_if = \"String::is_empty\")")]
    );
}

#[test]
fn inline_schema_marks_structs() {
    let mut cfg = scenario_a();
    cfg.global_opts.inline = true;
    cfg.nest_opts[0].derive.push(s("PartialEq"));
    cfg.nest_opts[0].derive.push(s("PartialEq"));
    let g = generate_model(cfg).expect("valid config");
    assert_eq!(find(&g, "RWrapper").common.attrs, vec![s("schemars(rename = \"R\")")]);
    assert_eq!(find(&g, "RExtra").common.attrs, vec![s("schemars(inline)")]);
    assert_eq!(
        find(&g, "RNestedG1").common.derives,
        vec![
            s("core::fmt::Debug"),
            s("core::clone::Clone"),
            s("serde::Serialize"),
            s("schemars::JsonSchema"),
            s("PartialEq"),
        ]
    );
}

#[test]
fn renamed_fields_and_suffixes() {
    let mut cfg = scenario_a();
    cfg.wrapper_opts.struct_suffix = Some(s("Out"));
    cfg.wrapper_opts.data_field_name = Some(s("inner"));
    cfg.wrapper_opts.flatten = Some(false);
    cfg.extra_opts.struct_suffix = Some(s("More"));
    cfg.nest_opts[0].field_name = Some(s("text_values"));
    let g = generate_model(cfg).expect("valid config");
    assert_eq!(names(&g), vec![s("ROut"), s("RMore"), s("RNestedTextValues")]);
    assert!(find(&g, "ROut").fields[0].attrs.is_empty());
    assert_eq!(find(&g, "ROut").fields[0].name, "inner");
}

#[test]
fn doc_strings_are_quoted() {
    let mut cfg = scenario_a();
    cfg.nest_opts[0].struct_doc = Some(s("Say \"hi\""));
    let text = generate(cfg).expect("valid config");
    assert!(text.contains("#[doc = \"Say \\\"hi\\\"\"]\npub struct RNestedG1"));
}

#[test]
fn deep_nesting_with_transformer() {
    let mut g1 = nest("g1", "String");
    g1.from = false;
    g1.optional = true;
    let mut g2 = nest("g2", "u8");
    g2.from = false;
    g2.nested = Some(DeeplyNestedOpts { origin: s("g1") });
    let mut cfg = config(vec![field("a", &["g1", "g2"])], vec![g1, g2]);
    cfg.global_opts.transform = Some(s("T"));
    let g = generate_model(cfg.clone()).expect("valid config");
    assert_eq!(
        impl_kinds(&g),
        vec![
            s("ToWrappedWith<T> for R"),
            s("ToWrappedWith<T> for RNestedG1"),
            s("TransformToNest<RNestedG1Wrapper> for T from R"),
        ]
    );
    assert_eq!(field_summary(find(&g, "RExtra")), vec![(s("g1"), s("Option<RNestedG1Wrapper>"))]);
    let text = generate(cfg).expect("valid config");
    assert!(text.contains(
        "impl ::shrinkwrap::TransformToNest<Option<RNestedG1Wrapper>> for T {\n    type Data = R;"
    ));
    assert!(text.contains("nest_data.map(|some_nest_data| RNestedG1Wrapper::wrap_data_with(some_nest_data, self, options))"));
}

#[test]
fn deep_nesting_reuse_renders_composed_conversion() {
    let mut cfg = scenario_d();
    cfg.nest_opts[1].from = true;
    let text = generate(cfg).expect("valid config");
    assert!(text.contains(
        "impl ::core::convert::From<&R> for RNestedG1Wrapper {\n    fn from(data: &R) -> Self {\n        <RNestedG1Wrapper as ::core::convert::From<RNestedG1>>::from(<RNestedG1 as ::core::convert::From<&R>>::from(data))\n    }\n}\n"
    ));
}

#[test]
fn deep_origin_gets_its_conversion_even_with_mixed_children() {
    let mut cfg = scenario_d();
    let mut g3 = nest("g3", "u8");
    g3.from = false;
    g3.transform = Some(s("T"));
    g3.nested = Some(DeeplyNestedOpts { origin: s("g1") });
    cfg.nest_opts.push(g3);
    cfg.fields[0].nests.push(s("g3"));
    let g = generate_model(cfg).expect("valid config");
    let kinds = impl_kinds(&g);
    assert!(kinds.contains(&s("From<&R> for RNestedG1Wrapper optional=false")));
    assert!(!kinds.iter().any(|k| k.contains("for RNestedG1Extra") || k.contains("ToWrappedWith<T> for RNestedG1")));
}
