use emporium_monitor::diagnostics::{kind_name, Diagnostic, Step};
use emporium_monitor::literal::{first_char_of, parse_color, parse_u8, Rgb};
use emporium_monitor::navigate::{
    array_of_object_literals, find_call_by_callee_name, nth_argument, nth_argument_as,
    object_property_by_key, same_text, ShapeError,
};
use emporium_monitor::node::{ArrayExpr, Call, Expr, NodeKind, ObjectExpr, Property};

fn call(callee: Expr, arguments: Vec<Expr>) -> Call {
    Call { callee: Box::new(callee), arguments }
}

fn prop(k: Option<&str>, v: Expr) -> Property {
    Property { key: k.map(|s| s.to_string()), value: v }
}

#[test]
fn find_call_takes_first_match_and_skips_computed_callees() {
    let nodes = vec![
        Expr::Call(call(Expr::ComputedMember(Box::new(Expr::Ident("a".to_string()))), vec![])),
        Expr::Str("jsx".to_string()),
        Expr::Call(call(Expr::Member(Box::new(Expr::Ident("x".to_string())), "jsx".to_string()), vec![Expr::Num("1".to_string())])),
        Expr::Call(call(Expr::Ident("jsx".to_string()), vec![])),
    ];
    let found = find_call_by_callee_name(&nodes, "jsx").unwrap();
    assert_eq!(found.arguments.len(), 1);
    assert!(find_call_by_callee_name(&nodes, "a").is_none());
    assert!(find_call_by_callee_name(&nodes, "render").is_none());
}

#[test]
fn nth_argument_reports_arity_and_kind() {
    let c = call(Expr::Ident("f".to_string()), vec![Expr::Ident("A".to_string()), Expr::Str("s".to_string())]);
    assert!(matches!(nth_argument(&c, 1), Ok(Expr::Str(_))));
    assert_eq!(nth_argument(&c, 2).err(), Some(ShapeError::Arity { index: 2, len: 2 }));
    assert!(matches!(nth_argument_as(&c, 0, NodeKind::Identifier), Ok(Expr::Ident(_))));
    assert_eq!(
        nth_argument_as(&c, 1, NodeKind::ObjectExpression).err(),
        Some(ShapeError::KindMismatch { expected: NodeKind::ObjectExpression, found: NodeKind::StringLiteral })
    );
    assert_eq!(nth_argument_as(&c, 5, NodeKind::Identifier).err(), Some(ShapeError::Arity { index: 5, len: 2 }));
}

#[test]
fn property_lookup_takes_last_declaration() {
    let o = ObjectExpr {
        properties: vec![
            prop(Some("image"), Expr::Str("first".to_string())),
            prop(None, Expr::Str("computed".to_string())),
            prop(Some("image"), Expr::Ident("second".to_string())),
            prop(Some("name"), Expr::Str("n".to_string())),
        ],
    };
    assert!(matches!(object_property_by_key(&o, "image"), Some(Expr::Ident(s)) if s == "second"));
    assert!(object_property_by_key(&o, "missing").is_none());
}

#[test]
fn array_objects_skip_holes_and_other_elements() {
    let a = ArrayExpr {
        elements: vec![
            None,
            Some(Expr::Object(ObjectExpr { properties: vec![prop(Some("a"), Expr::Num("1".to_string()))] })),
            Some(Expr::Str("noise".to_string())),
            Some(Expr::Object(ObjectExpr { properties: vec![] })),
        ],
    };
    let objs = array_of_object_literals(&a);
    assert_eq!(objs.len(), 2);
    assert_eq!(objs[0].properties.len(), 1);
    assert_eq!(objs[1].properties.len(), 0);
}

#[test]
fn color_token_decodes_to_bytes() {
    assert_eq!(parse_color("bg-[#1a2b3c]"), Some(Rgb { r: 26, g: 43, b: 60 }));
    assert_eq!(parse_color("bg-[#FFFFFF]"), Some(Rgb { r: 255, g: 255, b: 255 }));
}

#[test]
fn malformed_color_tokens_are_rejected() {
    assert_eq!(parse_color("not-a-color"), None);
    assert_eq!(parse_color("bg-[#1a2b3]"), None);
    assert_eq!(parse_color("bg-[#1a2b3g]"), None);
    assert_eq!(parse_color("bg-[#1a2b3c"), None);
    assert_eq!(parse_color("bg-[#1a2b3c]]"), None);
}

#[test]
fn byte_tokens_parse_like_u8() {
    assert_eq!(parse_u8("0"), Some(0));
    assert_eq!(parse_u8("+7"), Some(7));
    assert_eq!(parse_u8("007"), Some(7));
    assert_eq!(parse_u8("255"), Some(255));
    assert_eq!(parse_u8("256"), None);
    assert_eq!(parse_u8("99999999999"), None);
    assert_eq!(parse_u8(""), None);
    assert_eq!(parse_u8("+"), None);
    assert_eq!(parse_u8("-1"), None);
    assert_eq!(parse_u8("1.5"), None);
    assert_eq!(parse_u8("12a"), None);
}

#[test]
fn first_char_and_text_equality() {
    assert_eq!(first_char_of("\u{1F437}pig"), Some('\u{1F437}'));
    assert_eq!(first_char_of(""), None);
    assert!(same_text("abc", "abc"));
    assert!(!same_text("abc", "abd"));
    assert!(!same_text("abc", "ab"));
}

#[test]
fn diagnostics_read_as_text() {
    let d = Diagnostic {
        step: Step::MainChildren,
        error: ShapeError::KindMismatch { expected: NodeKind::ArrayExpression, found: NodeKind::StringLiteral },
    };
    assert_eq!(d.message(), "the 'children' array of section calls: expected an array literal, found a string literal");
    let m = Diagnostic { step: Step::MountCall, error: ShapeError::NotFound };
    assert_eq!(m.message(), "the createRoot(..).render(..) mount call: not found");
    assert_eq!(kind_name(NodeKind::Function), "a function");
}
