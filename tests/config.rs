use shrinkwrap::config::{
    parse_class, DerivedStructClass, DerivedStructClassSelection, NestOpts, NestSelection,
    WrapperOpts,
};

fn s(x: &str) -> String {
    x.to_string()
}

#[test]
fn class_keys() {
    assert_eq!(DerivedStructClass::Wrapper.key(), "wrapper");
    assert_eq!(DerivedStructClass::Nest.key(), "nest");
    assert_eq!(DerivedStructClass::Extra.key(), "extra");
}

#[test]
fn class_keywords_parse() {
    assert_eq!(parse_class(&s("extra")), Some(DerivedStructClass::Extra));
    assert_eq!(parse_class(&s("nest")), Some(DerivedStructClass::Nest));
    assert_eq!(parse_class(&s("wrapper")), Some(DerivedStructClass::Wrapper));
    assert_eq!(parse_class(&s("Wrapper")), None);
}

#[test]
fn class_selection_rejects_repeats() {
    let sel = DerivedStructClassSelection::try_from_classes(&vec![
        DerivedStructClass::Nest,
        DerivedStructClass::Wrapper,
    ])
    .expect("distinct classes");
    assert!(sel.contains(DerivedStructClass::Nest));
    assert!(sel.contains(DerivedStructClass::Wrapper));
    assert!(!sel.contains(DerivedStructClass::Extra));
    assert_eq!(
        DerivedStructClassSelection::try_from_classes(&vec![
            DerivedStructClass::Extra,
            DerivedStructClass::Nest,
            DerivedStructClass::Extra,
        ]),
        Err(DerivedStructClass::Extra)
    );
    assert!(DerivedStructClassSelection::all().contains(DerivedStructClass::Extra));
}

#[test]
fn nest_selection_admits() {
    assert!(NestSelection::Unrestricted.admits(&s("x")));
    let sel = NestSelection::Restricted(vec![s("a"), s("b")]);
    assert!(sel.admits(&s("b")));
    assert!(!sel.admits(&s("c")));
}

fn plain_nest(id: &str) -> NestOpts {
    NestOpts {
        id: s(id),
        field_name: None,
        rename: None,
        derive: Vec::new(),
        field_type: s("String"),
        nested: None,
        from: true,
        transform: None,
        struct_doc: None,
        parent_field_doc: None,
        optional: false,
    }
}

#[test]
fn default_names() {
    let n = plain_nest("usd_value");
    assert_eq!(n.field_name(), "usd_value");
    assert_eq!(n.struct_name(&s("MyData")), "MyDataNestedUsdValue");
    assert_eq!(NestOpts::build_struct_name_suffix(&s("text")), "Text");
    assert_eq!(
        NestOpts::build_default_struct_name(&s("MyDataNestedUsdValue"), false, &s("text")),
        "MyDataNestedUsdValueText"
    );
    let mut renamed = plain_nest("x");
    renamed.rename = Some(s("Custom"));
    assert_eq!(renamed.struct_name(&s("MyData")), "Custom");
}

#[test]
fn wrapper_defaults() {
    let w = WrapperOpts {
        struct_suffix: None,
        derive: Vec::new(),
        doc: None,
        data_field_name: None,
        data_field_doc: None,
        flatten: None,
        extra_field_name: None,
        extra_field_doc: None,
    };
    assert_eq!(w.struct_name(&s("User")), "UserWrapper");
    assert_eq!(w.data_field_name(), "data");
    assert_eq!(w.extra_field_name(), "extra");
    assert!(w.flatten());
}

#[test]
fn default_selection_is_every_class() {
    let sel = DerivedStructClassSelection::default();
    assert!(sel.contains(DerivedStructClass::Wrapper));
    assert!(sel.contains(DerivedStructClass::Extra));
    assert!(sel.contains(DerivedStructClass::Nest));
}
