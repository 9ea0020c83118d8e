use dqk_parser::shape::{span_rule, Access, Arm, Data, Fields, ShapeError, Variant};

fn names(list: &[&str]) -> Vec<String> {
    list.iter().map(|s| s.to_string()).collect()
}

#[test]
fn a_struct_with_names_merges_its_fields_in_order() {
    let data = Data::Struct(Fields::Named(names(&["open", "expr", "close"])));
    let arms = span_rule(&data).unwrap();
    assert_eq!(
        arms,
        vec![Arm {
            variant: None,
            named: true,
            bindings: vec![],
            parts: vec![
                Access::Field("open".to_string()),
                Access::Field("expr".to_string()),
                Access::Field("close".to_string()),
            ],
        }]
    );
}

#[test]
fn a_tuple_struct_merges_its_fields_by_position() {
    let arms = span_rule(&Data::Struct(Fields::Unnamed(3))).unwrap();
    assert_eq!(arms.len(), 1);
    assert_eq!(arms[0].parts, vec![Access::Index(0), Access::Index(1), Access::Index(2)]);
    assert!(!arms[0].named);
    assert!(arms[0].variant.is_none());
}

#[test]
fn an_enum_has_a_case_for_each_variant() {
    let data = Data::Enum(vec![
        Variant { name: "Paren".to_string(), fields: Fields::Unnamed(1) },
        Variant { name: "Pair".to_string(), fields: Fields::Unnamed(12) },
        Variant { name: "Named".to_string(), fields: Fields::Named(names(&["lhs", "rhs"])) },
    ]);
    let arms = span_rule(&data).unwrap();
    assert_eq!(arms.len(), 3);
    assert_eq!(arms[0].variant.as_deref(), Some("Paren"));
    assert_eq!(arms[0].bindings, names(&["i0"]));
    assert_eq!(arms[0].parts, vec![Access::Binding("i0".to_string())]);
    assert_eq!(arms[1].bindings.len(), 12);
    assert_eq!(arms[1].bindings[9], "i9");
    assert_eq!(arms[1].bindings[10], "i10");
    assert_eq!(arms[1].bindings[11], "i11");
    assert_eq!(arms[1].parts[11], Access::Binding("i11".to_string()));
    assert!(arms[2].named);
    assert_eq!(arms[2].bindings, names(&["lhs", "rhs"]));
    assert_eq!(
        arms[2].parts,
        vec![Access::Binding("lhs".to_string()), Access::Binding("rhs".to_string())]
    );
    assert!(span_rule(&Data::Enum(vec![])).unwrap().is_empty());
}

#[test]
fn a_case_without_fields_has_no_rule() {
    assert_eq!(span_rule(&Data::Struct(Fields::Unit)), Err(ShapeError::UnitStruct));
    assert_eq!(span_rule(&Data::Struct(Fields::Unnamed(0))), Err(ShapeError::UnitStruct));
    assert_eq!(span_rule(&Data::Struct(Fields::Named(vec![]))), Err(ShapeError::UnitStruct));
    let data = Data::Enum(vec![
        Variant { name: "A".to_string(), fields: Fields::Named(names(&["a"])) },
        Variant { name: "B".to_string(), fields: Fields::Unnamed(2) },
        Variant { name: "C".to_string(), fields: Fields::Named(vec![]) },
        Variant { name: "D".to_string(), fields: Fields::Unnamed(0) },
    ]);
    assert_eq!(span_rule(&data), Err(ShapeError::UnitVariant { index: 2 }));
    let data = Data::Enum(vec![Variant { name: "A".to_string(), fields: Fields::Unnamed(0) }]);
    assert_eq!(span_rule(&data), Err(ShapeError::UnitVariant { index: 0 }));
    let data = Data::Enum(vec![
        Variant { name: "A".to_string(), fields: Fields::Unnamed(1) },
        Variant { name: "B".to_string(), fields: Fields::Unit },
        Variant { name: "C".to_string(), fields: Fields::Unit },
    ]);
    assert_eq!(span_rule(&data), Err(ShapeError::UnitVariant { index: 1 }));
    assert_eq!(span_rule(&Data::Union), Err(ShapeError::Union));
}

#[test]
fn every_case_of_a_rule_has_parts() {
    let shapes = vec![
        Data::Struct(Fields::Named(names(&["a"]))),
        Data::Struct(Fields::Unnamed(2)),
        Data::Enum(vec![
            Variant { name: "A".to_string(), fields: Fields::Unnamed(1) },
            Variant { name: "B".to_string(), fields: Fields::Named(names(&["x", "y"])) },
        ]),
    ];
    for data in &shapes {
        for arm in span_rule(data).unwrap() {
            assert!(!arm.parts.is_empty());
        }
    }
}
