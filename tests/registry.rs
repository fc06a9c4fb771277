use shrinkwrap::config::{DeeplyNestedOpts, NestOpts};
use shrinkwrap::error::GenError;
use shrinkwrap::mapping::{MapStrategy, NestField, NestRepo};

fn s(x: &str) -> String {
    x.to_string()
}

fn decl(id: &str, origin: Option<&str>) -> NestOpts {
    NestOpts {
        id: s(id),
        field_name: None,
        rename: None,
        derive: Vec::new(),
        field_type: s("String"),
        nested: origin.map(|o| DeeplyNestedOpts { origin: s(o) }),
        from: origin.is_none(),
        transform: None,
        struct_doc: None,
        parent_field_doc: None,
        optional: false,
    }
}

fn repo() -> NestRepo {
    let mut r = NestRepo::new(s("Data"), None);
    r.insert(decl("a", None)).unwrap();
    r.insert(decl("b", None)).unwrap();
    r.insert(decl("c", Some("a"))).unwrap();
    r.insert(decl("d", Some("a"))).unwrap();
    r
}

#[test]
fn children_in_declaration_order() {
    let r = repo();
    assert_eq!(r.count(), 4);
    assert_eq!(r.get_children_by_origin(None), vec![0, 1]);
    assert_eq!(r.get_children_by_origin(Some(0)), vec![2, 3]);
    assert_eq!(r.get_children_by_origin_ident(&s("Data")), vec![0, 1]);
    assert_eq!(r.get_children_by_origin_ident(&s("DataNestedA")), vec![2, 3]);
    assert!(r.get_children_by_origin_ident(&s("Nothing")).is_empty());
}

#[test]
fn parents_and_origins() {
    let r = repo();
    assert!(r.is_parent_ident(&s("DataNestedA")));
    assert!(r.is_parent_ident(&s("Data")));
    assert!(!NestRepo::new(s("Data"), None).is_parent_ident(&s("Data")));
    assert!(!r.is_parent_ident(&s("DataNestedB")));
    assert_eq!(r.get_parent_ident(&s("DataNestedAC")), Some(s("DataNestedA")));
    assert_eq!(r.get_parent_ident(&s("DataNestedB")), Some(s("Data")));
    assert_eq!(r.get_parent_ident(&s("Missing")), None);
    assert_eq!(r.get_all_ids(), vec![s("a"), s("b"), s("c"), s("d")]);
    assert!(r.id_exists(&s("c")));
    assert!(!r.id_exists(&s("e")));
    assert!(r.contains_nest_ident(&s("DataNestedAD")));
    assert_eq!(r.get_by_id(&s("d")).map(|n| n.ident.clone()), Some(s("DataNestedAD")));
}

#[test]
fn inherited_strategy() {
    let mut r = NestRepo::new(s("Data"), Some(s("Shared")));
    let mut a = decl("a", None);
    a.from = false;
    r.insert(a).unwrap();
    r.insert(decl("c", Some("a"))).unwrap();
    let c = r.get_by_id(&s("c")).unwrap();
    assert!(matches!(&c.strategy, MapStrategy::Delegate(t) if t == "Shared"));
}

#[test]
fn duplicate_identity_names_first_declaration() {
    let mut r = repo();
    assert!(matches!(
        r.insert(decl("b", None)),
        Err(GenError::DuplicateNestId { first: 1, second: 4 })
    ));
    assert_eq!(r.count(), 4);
}

#[test]
fn fields_are_assigned_once() {
    let mut r = repo();
    let f = || NestField { name: s("x"), attrs: vec![] };
    assert!(r.add_field_to_nest(&s("b"), f(), 0).is_ok());
    assert!(matches!(
        r.add_field_to_nest(&s("b"), f(), 1),
        Err(GenError::DuplicateFieldInNest { field: 1, nest: 1 })
    ));
    assert!(matches!(
        r.add_field_to_nest(&s("zz"), f(), 2),
        Err(GenError::UnknownNestInField { field: 2, .. })
    ));
    assert_eq!(r.get_by_id(&s("b")).unwrap().fields.len(), 1);
}
