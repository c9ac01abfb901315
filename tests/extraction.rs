use emporium_monitor::diagnostics::{Diagnostic, ExtractError, Step};
use emporium_monitor::extract::{extract_top_level_elements, ExtractedData, Layout};
use emporium_monitor::literal::Rgb;
use emporium_monitor::locate::{extract_root_element, find_function, get_root_element_name};
use emporium_monitor::navigate::ShapeError;
use emporium_monitor::node::{
    ArrayExpr, Body, Call, Declarator, Expr, Function, NodeKind, ObjectExpr, Program, Property, Stmt,
};
use emporium_monitor::records::{get_platforms, get_rewards, Platform, Reward};

fn ident(n: &str) -> Expr {
    Expr::Ident(n.to_string())
}

fn text(s: &str) -> Expr {
    Expr::Str(s.to_string())
}

fn num(s: &str) -> Expr {
    Expr::Num(s.to_string())
}

fn member(object: Expr, property: &str) -> Expr {
    Expr::Member(Box::new(object), property.to_string())
}

fn call(callee: Expr, arguments: Vec<Expr>) -> Expr {
    Expr::Call(Call { callee: Box::new(callee), arguments })
}

fn object(props: Vec<(&str, Expr)>) -> Expr {
    Expr::Object(ObjectExpr {
        properties: props
            .into_iter()
            .map(|(k, v)| Property { key: Some(k.to_string()), value: v })
            .collect(),
    })
}

fn array(elements: Vec<Expr>) -> Expr {
    Expr::Array(ArrayExpr { elements: elements.into_iter().map(Some).collect() })
}

fn arrow(body: Vec<Stmt>) -> Expr {
    Expr::Function(Function { body: Body::Statements(body) })
}

fn arrow_expr(body: Expr) -> Expr {
    Expr::Function(Function { body: Body::Expression(Box::new(body)) })
}

fn vars(decls: Vec<(&str, Expr)>) -> Stmt {
    Stmt::Variables(
        decls
            .into_iter()
            .map(|(n, e)| Declarator { name: Some(n.to_string()), init: Some(e) })
            .collect(),
    )
}

fn jsx(x: &str, component: Expr) -> Expr {
    call(member(ident(x), "jsx"), vec![component, object(vec![])])
}

fn platform_obj(name: &str, image: &str) -> Expr {
    object(vec![("name", text(name)), ("image", text(image)), ("width", text("w-16"))])
}

fn reward_obj(title: &str, color: &str, tokens: Expr, icon: Option<Expr>) -> Expr {
    let mut props = vec![
        ("title", text(title)),
        ("description", text(&format!("about {title}"))),
        ("color", text(color)),
        ("tokens", tokens),
    ];
    if let Some(i) = icon {
        props.push(("icon", i));
    }
    object(props)
}

/// The identifiers a bundle uses: jsx runtime, root, sections, create-root
/// object, StrictMode holder, platform/reward arrays.
struct Names<'a> {
    x: &'a str,
    root: &'a str,
    sections: [&'a str; 7],
    gd: &'a str,
    y: &'a str,
    icon: &'a str,
}

const NAMES: Names = Names {
    x: "x",
    root: "Bm",
    sections: ["Vp", "Bp", "Rw", "Zp", "Up", "Hp", "Qd"],
    gd: "Gd",
    y: "Y",
    icon: "Hm",
};

const RENAMED: Names = Names {
    x: "q7",
    root: "Tz",
    sections: ["a1", "b2", "c3", "d4", "e5", "f6", "g7"],
    gd: "Kk",
    y: "W",
    icon: "Lo",
};

fn bundle_with(n: &Names, section_count: usize, platforms: Vec<Expr>, rewards: Vec<Vec<Expr>>) -> Program {
    let mut body = Vec::new();
    body.push(vars(vec![(
        n.sections[1],
        arrow(vec![vars(vec![("i", array(platforms))]), Stmt::Return(Some(call(member(ident(n.x), "jsx"), vec![text("div"), object(vec![])])))]),
    )]));
    let mut reward_decls: Vec<(&str, Expr)> = Vec::new();
    let names = ["i", "a", "o"];
    for (k, arr) in rewards.into_iter().enumerate() {
        reward_decls.push((names[k], array(arr)));
    }
    body.push(Stmt::Variables(vec![]));
    body.push(vars(reward_decls.into_iter().chain(std::iter::once(("s", text("unused")))).collect()));
    // the reward section binds its arrays inside its own body
    let reward_body = match body.pop().unwrap() {
        Stmt::Variables(d) => vec![Stmt::Variables(d), Stmt::Return(Some(call(member(ident(n.x), "jsxs"), vec![text("section"), object(vec![])])))],
        _ => unreachable!(),
    };
    body.pop();
    body.push(vars(vec![(n.sections[2], arrow(reward_body))]));
    let children: Vec<Expr> = (0..section_count).map(|k| jsx(n.x, ident(n.sections[k % 7]))).collect();
    body.push(vars(vec![(
        n.root,
        arrow(vec![
            vars(vec![("t", num("1"))]),
            Stmt::Return(Some(call(
                member(ident(n.x), "jsxs"),
                vec![text("main"), object(vec![("className", text("flex")), ("children", array(children))])],
            ))),
        ]),
    )]));
    let create_root = call(member(ident(n.gd), "createRoot"), vec![call(member(ident("document"), "getElementById"), vec![text("app")])]);
    let render = call(
        member(create_root, "render"),
        vec![call(
            member(ident(n.x), "jsx"),
            vec![member(ident(n.y), "StrictMode"), object(vec![("children", jsx(n.x, ident(n.root)))])],
        )],
    );
    body.push(Stmt::Expression(render));
    Program { body }
}

fn standard_rewards(n: &Names) -> Vec<Vec<Expr>> {
    vec![
        vec![
            reward_obj("HETZNER", "bg-[#d83a2c]", num("1"), Some(ident(n.icon))),
            reward_obj("PORKBUN", "bg-[#ff6b35]", num("2"), Some(text("\u{1F437}"))),
        ],
        vec![
            reward_obj("ANTHROPIC", "bg-[#d97706]", num("2"), None),
            reward_obj("CLOUDFLARE", "bg-[#F38020]", text("4"), None),
        ],
    ]
}

fn standard_platforms() -> Vec<Expr> {
    vec![
        platform_obj("SLACK", "https://c.example.com/img/image-2.png"),
        platform_obj("DISCORD", "https://c.example.com/img/image-3.png"),
    ]
}

fn bundle(n: &Names) -> Program {
    bundle_with(n, 7, standard_platforms(), standard_rewards(n))
}

fn reward(title: &str, color: (u8, u8, u8), tokens: u8, icon: Option<char>) -> Reward {
    Reward {
        title: title.to_string(),
        description: format!("about {title}"),
        color: Rgb { r: color.0, g: color.1, b: color.2 },
        tokens,
        icon,
    }
}

fn expected_data() -> ExtractedData {
    ExtractedData {
        platforms: vec![
            Platform { name: "SLACK".to_string(), image: "https://c.example.com/img/image-2.png".to_string() },
            Platform { name: "DISCORD".to_string(), image: "https://c.example.com/img/image-3.png".to_string() },
        ],
        rewards: vec![
            reward("HETZNER", (0xd8, 0x3a, 0x2c), 1, None),
            reward("PORKBUN", (0xff, 0x6b, 0x35), 2, Some('\u{1F437}')),
            reward("ANTHROPIC", (0xd9, 0x77, 0x06), 2, None),
            reward("CLOUDFLARE", (0xf3, 0x80, 0x20), 4, None),
        ],
    }
}

#[test]
fn end_to_end_fixture_extracts_in_declared_order() {
    let x = ExtractedData::extract(&bundle(&NAMES), &Layout::standard()).unwrap();
    assert_eq!(x.data, expected_data());
    assert_eq!(x.platform_failure, None);
    assert_eq!(x.reward_failure, None);
}

#[test]
fn extracting_twice_gives_identical_data() {
    let p = bundle(&NAMES);
    let a = ExtractedData::extract(&p, &Layout::standard()).unwrap();
    let b = ExtractedData::extract(&bundle(&NAMES), &Layout::standard()).unwrap();
    assert_eq!(a, b);
}

#[test]
fn renamed_identifiers_extract_identically() {
    let a = ExtractedData::extract(&bundle(&NAMES), &Layout::standard()).unwrap();
    let b = ExtractedData::extract(&bundle(&RENAMED), &Layout::standard()).unwrap();
    assert_eq!(a, b);
    assert_eq!(b.data, expected_data());
}

#[test]
fn six_sections_is_a_count_mismatch() {
    let p = bundle_with(&NAMES, 6, standard_platforms(), standard_rewards(&NAMES));
    let r = ExtractedData::extract(&p, &Layout::standard());
    assert_eq!(r, Err(ExtractError::SectionCountMismatch { expected: 7, found: 6 }));
}

#[test]
fn eight_sections_is_a_count_mismatch() {
    let p = bundle_with(&NAMES, 8, standard_platforms(), standard_rewards(&NAMES));
    let r = ExtractedData::extract(&p, &Layout::standard());
    assert_eq!(r, Err(ExtractError::SectionCountMismatch { expected: 7, found: 8 }));
}

#[test]
fn element_missing_tokens_is_dropped() {
    let rewards = vec![vec![
        reward_obj("A", "bg-[#000000]", num("1"), None),
        object(vec![("title", text("B")), ("description", text("d")), ("color", text("bg-[#111111]"))]),
        reward_obj("C", "bg-[#222222]", num("3"), None),
        reward_obj("D", "bg-[#333333]", num("4"), None),
    ]];
    let p = bundle_with(&NAMES, 7, standard_platforms(), rewards);
    let x = ExtractedData::extract(&p, &Layout::standard()).unwrap();
    let titles: Vec<&str> = x.data.rewards.iter().map(|r| r.title.as_str()).collect();
    assert_eq!(titles, vec!["A", "C", "D"]);
    assert_eq!(x.reward_failure, None);
}

#[test]
fn duplicate_image_key_uses_last_value() {
    let platforms = vec![object(vec![
        ("name", text("SLACK")),
        ("image", text("https://a.example/first.png")),
        ("image", text("https://a.example/second.png")),
    ])];
    let p = bundle_with(&NAMES, 7, platforms, standard_rewards(&NAMES));
    let x = ExtractedData::extract(&p, &Layout::standard()).unwrap();
    assert_eq!(
        x.data.platforms,
        vec![Platform { name: "SLACK".to_string(), image: "https://a.example/second.png".to_string() }]
    );
}

#[test]
fn bad_color_drops_the_element() {
    let rewards = vec![vec![
        reward_obj("A", "not-a-color", num("1"), None),
        reward_obj("B", "bg-[#1a2b3c]", num("1"), None),
    ]];
    let p = bundle_with(&NAMES, 7, standard_platforms(), rewards);
    let x = ExtractedData::extract(&p, &Layout::standard()).unwrap();
    assert_eq!(x.data.rewards, vec![reward("B", (26, 43, 60), 1, None)]);
}

#[test]
fn repeated_record_key_keeps_last_occurrence() {
    let platforms = vec![
        platform_obj("SLACK", "https://a.example/1.png"),
        platform_obj("DISCORD", "https://a.example/2.png"),
        platform_obj("SLACK", "https://a.example/3.png"),
    ];
    let p = bundle_with(&NAMES, 7, platforms, standard_rewards(&NAMES));
    let x = ExtractedData::extract(&p, &Layout::standard()).unwrap();
    let got: Vec<(&str, &str)> = x.data.platforms.iter().map(|p| (p.name.as_str(), p.image.as_str())).collect();
    assert_eq!(got, vec![("DISCORD", "https://a.example/2.png"), ("SLACK", "https://a.example/3.png")]);
}

#[test]
fn image_url_is_normalised_and_invalid_one_dropped() {
    let platforms = vec![
        platform_obj("A", "HTTPS://Example.COM"),
        platform_obj("B", "not a url"),
    ];
    let p = bundle_with(&NAMES, 7, platforms, standard_rewards(&NAMES));
    let x = ExtractedData::extract(&p, &Layout::standard()).unwrap();
    assert_eq!(x.data.platforms, vec![Platform { name: "A".to_string(), image: "https://example.com/".to_string() }]);
}

#[test]
fn missing_mount_call_is_root_not_found() {
    let mut p = bundle(&NAMES);
    p.body.pop();
    let r = ExtractedData::extract(&p, &Layout::standard());
    assert_eq!(
        r,
        Err(ExtractError::RootNotFound(Diagnostic { step: Step::MountCall, error: ShapeError::NotFound }))
    );
}

#[test]
fn computed_create_root_callee_does_not_match() {
    let mut p = bundle(&NAMES);
    p.body.pop();
    let create_root = call(Expr::ComputedMember(Box::new(ident("Gd"))), vec![]);
    p.body.push(Stmt::Expression(call(member(create_root, "render"), vec![])));
    assert_eq!(
        get_root_element_name(&p, "createRoot"),
        Err(Diagnostic { step: Step::MountCall, error: ShapeError::NotFound })
    );
}

#[test]
fn root_name_is_read_through_children() {
    let p = bundle(&NAMES);
    assert_eq!(get_root_element_name(&p, "createRoot").unwrap(), "Bm");
    assert!(extract_root_element(&p, "createRoot").is_ok());
    assert!(find_function(&p, "Zz").is_none());
}

#[test]
fn render_argument_of_wrong_kind_is_reported() {
    let mut p = bundle(&NAMES);
    p.body.pop();
    let create_root = call(member(ident("Gd"), "createRoot"), vec![]);
    p.body.push(Stmt::Expression(call(member(create_root, "render"), vec![text("app")])));
    assert_eq!(
        get_root_element_name(&p, "createRoot"),
        Err(Diagnostic {
            step: Step::RenderArgument,
            error: ShapeError::KindMismatch { expected: NodeKind::CallExpression, found: NodeKind::StringLiteral },
        })
    );
}

#[test]
fn missing_children_property_is_reported() {
    let mut p = bundle(&NAMES);
    p.body.pop();
    let create_root = call(member(ident("Gd"), "createRoot"), vec![]);
    let inner = call(member(ident("x"), "jsx"), vec![ident("S"), object(vec![("key", text("k"))])]);
    p.body.push(Stmt::Expression(call(member(create_root, "render"), vec![inner])));
    assert_eq!(
        get_root_element_name(&p, "createRoot"),
        Err(Diagnostic { step: Step::RootChildren, error: ShapeError::PropertyAbsent })
    );
}

#[test]
fn missing_root_function_is_root_not_found() {
    let mut p = bundle(&NAMES);
    p.body.remove(2);
    let r = ExtractedData::extract(&p, &Layout::standard());
    assert_eq!(
        r,
        Err(ExtractError::RootNotFound(Diagnostic { step: Step::RootFunction, error: ShapeError::NotFound }))
    );
}

#[test]
fn one_unresolved_section_is_not_fatal() {
    let mut p = bundle(&NAMES);
    p.body.remove(0);
    let x = ExtractedData::extract(&p, &Layout::standard()).unwrap();
    assert_eq!(x.data.platforms, vec![]);
    assert_eq!(x.data.rewards, expected_data().rewards);
    assert_eq!(x.platform_failure, Some(Diagnostic { step: Step::SectionFunction, error: ShapeError::NotFound }));
    assert_eq!(x.reward_failure, None);
}

#[test]
fn both_sections_unresolved_is_fatal() {
    let mut p = bundle(&NAMES);
    p.body.remove(1);
    p.body.remove(0);
    let r = ExtractedData::extract(&p, &Layout::standard());
    let missing = Diagnostic { step: Step::SectionFunction, error: ShapeError::NotFound };
    assert_eq!(r, Err(ExtractError::SectionsUnresolved { platforms: missing, rewards: missing }));
}

#[test]
fn section_index_out_of_range_is_reported() {
    let layout = Layout { create_root: "createRoot".to_string(), section_count: 7, platform_section: 1, reward_section: 9 };
    let x = ExtractedData::extract(&bundle(&NAMES), &layout).unwrap();
    assert_eq!(x.reward_failure, Some(Diagnostic { step: Step::SectionIndex, error: ShapeError::Arity { index: 9, len: 7 } }));
    assert_eq!(x.data.platforms, expected_data().platforms);
}

#[test]
fn abbreviated_root_body_is_supported() {
    let mut p = bundle(&NAMES);
    let children: Vec<Expr> = (0..7).map(|k| jsx("x", ident(NAMES.sections[k]))).collect();
    p.body[2] = vars(vec![(
        "Bm",
        arrow_expr(call(member(ident("x"), "jsxs"), vec![text("main"), object(vec![("children", array(children))])])),
    )]);
    let x = ExtractedData::extract(&p, &Layout::standard()).unwrap();
    assert_eq!(x.data, expected_data());
}

#[test]
fn section_list_of_wrong_kind_is_reported() {
    let root = Function {
        body: Body::Statements(vec![Stmt::Return(Some(call(
            member(ident("x"), "jsxs"),
            vec![text("main"), object(vec![("children", text("none"))])],
        )))]),
    };
    match extract_top_level_elements(&root, 7) {
        Err(e) => assert_eq!(
            e,
            ExtractError::RootNotFound(Diagnostic {
                step: Step::MainChildren,
                error: ShapeError::KindMismatch { expected: NodeKind::ArrayExpression, found: NodeKind::StringLiteral },
            })
        ),
        Ok(_) => panic!("expected a failure"),
    }
}

#[test]
fn section_functions_read_their_arrays() {
    let section = Function {
        body: Body::Statements(vec![
            vars(vec![("i", array(vec![reward_obj("A", "bg-[#0000ff]", text("+7"), Some(text("")))]))]),
            Stmt::Other,
            vars(vec![("a", array(vec![platform_obj("P", "https://p.example/x")]))]),
        ]),
    };
    assert_eq!(get_rewards(&section), vec![reward("A", (0, 0, 255), 7, None)]);
    assert_eq!(
        get_platforms(&section),
        vec![Platform { name: "P".to_string(), image: "https://p.example/x".to_string() }]
    );
}

#[test]
fn numeric_values_count_as_literals() {
    let section = Function {
        body: Body::Statements(vec![vars(vec![("i", array(vec![
            reward_obj("A", "bg-[#000000]", num("255"), Some(num("9"))),
            reward_obj("B", "bg-[#000000]", num("256"), None),
            reward_obj("C", "bg-[#000000]", num("1.5"), None),
        ]))])]),
    };
    assert_eq!(get_rewards(&section), vec![reward("A", (0, 0, 0), 255, Some('9'))]);
}
