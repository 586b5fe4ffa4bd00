use pylower::compiler::errors::{CompilerError, Construct};
use pylower::compiler::names::NameSet;
use pylower::compiler::util::{
    gather_class_init, gather_comp_targets, gather_func_params, gather_scope, lookup_value,
    rec_gather_class_init, rec_gather_scope, unpack_assign_alias, unpack_assign_targets, Scope,
};
use pylower::parser::ast::{
    Alias, Arg, Arguments, Comprehension, ExprContext, Expression, Number, Statement,
};

fn name(id: &str) -> Expression {
    Expression::Name { id: id.to_string(), ctx: ExprContext::Store }
}

fn num(text: &str) -> Expression {
    Expression::Num { n: Number::DecInteger(text.to_string()) }
}

fn attr(base: &str, attr: &str) -> Expression {
    Expression::Attribute {
        value: Box::new(name(base)),
        attr: attr.to_string(),
        ctx: ExprContext::Store,
    }
}

fn tuple(elts: Vec<Expression>) -> Expression {
    Expression::Tuple { elts, ctx: ExprContext::Store }
}

fn list(elts: Vec<Expression>) -> Expression {
    Expression::List { elts, ctx: ExprContext::Store }
}

fn assign(target: Expression, value: Expression) -> Statement {
    Statement::Assign { targets: vec![target], value }
}

fn params(names: Vec<&str>) -> Arguments {
    Arguments::Arguments {
        args: names
            .into_iter()
            .map(|n| Arg::Arg { arg: n.to_string(), annotation: None })
            .collect(),
        vararg: None,
        kwonlyargs: Vec::new(),
        kw_defaults: Vec::new(),
        kwarg: None,
        defaults: Vec::new(),
    }
}

fn func(fname: &str, names: Vec<&str>, body: Vec<Statement>) -> Statement {
    Statement::FunctionDef {
        name: fname.to_string(),
        args: params(names),
        body,
        decorator_list: Vec::new(),
        returns: None,
    }
}

fn class(cname: &str, body: Vec<Statement>) -> Statement {
    Statement::ClassDef {
        name: cname.to_string(),
        bases: Vec::new(),
        body,
        decorator_list: Vec::new(),
    }
}

fn import(name: &str, asname: Option<&str>) -> Statement {
    Statement::Import {
        names: vec![Alias::Alias { name: name.to_string(), asname: asname.map(|s| s.to_string()) }],
    }
}

fn init_method() -> Statement {
    func(
        "__init__",
        vec!["self", "y"],
        vec![assign(attr("self", "a"), name("y")), assign(attr("self", "b"), num("1"))],
    )
}

fn slots_of(scope: &Scope, names: Vec<&str>) -> Vec<Option<usize>> {
    names.into_iter().map(|n| scope.get(n).copied()).collect()
}

fn scope_of(entries: Vec<(&str, usize)>) -> Scope {
    let mut scope = Scope::new();
    for (key, slot) in entries {
        scope.insert(key.to_string(), slot);
    }
    scope
}

#[test]
fn empty_statement_list_binds_nothing() {
    let scope = gather_scope(&Vec::new(), 7, false).unwrap();
    assert_eq!(scope.len(), 0);
}

#[test]
fn scope_numbers_names_in_order_of_discovery() {
    let stmts = vec![
        assign(name("x"), num("1")),
        func("f", vec!["p"], vec![assign(name("inner"), num("2"))]),
        class("C", Vec::new()),
        assign(name("y"), num("3")),
    ];
    let scope = gather_scope(&stmts, 10, false).unwrap();
    assert_eq!(scope.len(), 4);
    assert_eq!(
        slots_of(&scope, vec!["x", "f", "C", "y"]),
        vec![Some(10), Some(11), Some(12), Some(13)]
    );
    assert_eq!(scope.get("inner"), None);
    assert_eq!(scope.get("p"), None);
}

#[test]
fn scope_binds_each_name_once() {
    let stmts = vec![
        assign(name("x"), num("1")),
        assign(name("y"), num("2")),
        assign(name("x"), num("3")),
        assign(name("z"), num("4")),
        assign(name("y"), num("5")),
    ];
    let scope = gather_scope(&stmts, 0, false).unwrap();
    assert_eq!(scope.len(), 3);
    assert_eq!(slots_of(&scope, vec!["x", "y", "z"]), vec![Some(0), Some(1), Some(2)]);
}

#[test]
fn scope_is_a_bijection_onto_the_slot_range() {
    let stmts = vec![
        assign(tuple(vec![name("a"), name("b")]), num("1")),
        Statement::For {
            target: name("i"),
            iter: name("xs"),
            body: vec![assign(name("a"), num("2")), assign(name("c"), num("3"))],
            orelse: vec![assign(name("d"), num("4"))],
        },
        import("os", None),
    ];
    let start = 5;
    let scope = gather_scope(&stmts, start, false).unwrap();
    let names = vec!["a", "b", "i", "c", "d", "os"];
    assert_eq!(scope.len(), names.len());
    let mut seen = vec![false; names.len()];
    for n in names.iter() {
        let slot = *scope.get(n).unwrap();
        assert!(start <= slot && slot < start + names.len());
        assert!(!seen[slot - start]);
        seen[slot - start] = true;
    }
    assert!(seen.into_iter().all(|s| s));
}

#[test]
fn tuple_targets_unpack_recursively() {
    let target = tuple(vec![name("a"), tuple(vec![name("b"), tuple(vec![name("c")])]), name("d")]);
    let scope = gather_scope(&vec![assign(target, num("0"))], 1, false).unwrap();
    assert_eq!(
        slots_of(&scope, vec!["a", "b", "c", "d"]),
        vec![Some(1), Some(2), Some(3), Some(4)]
    );
}

#[test]
fn several_targets_of_one_assignment_all_bind() {
    let stmt = Statement::Assign { targets: vec![name("a"), name("b")], value: num("0") };
    let scope = gather_scope(&vec![stmt], 0, false).unwrap();
    assert_eq!(slots_of(&scope, vec!["a", "b"]), vec![Some(0), Some(1)]);
}

#[test]
fn attribute_and_subscript_targets_bind_nothing() {
    let stmts = vec![
        assign(attr("obj", "field"), num("1")),
        assign(
            Expression::Subscript {
                value: Box::new(name("xs")),
                index: Box::new(num("0")),
                ctx: ExprContext::Store,
            },
            num("2"),
        ),
    ];
    let scope = gather_scope(&stmts, 0, false).unwrap();
    assert_eq!(scope.len(), 0);
}

#[test]
fn list_target_is_unsupported() {
    let stmts = vec![assign(name("x"), num("1")), assign(list(vec![name("a")]), num("2"))];
    assert!(matches!(
        gather_scope(&stmts, 0, false),
        Err(CompilerError::Unsupported(Construct::ListTarget))
    ));
}

#[test]
fn list_target_inside_tuple_is_unsupported() {
    let target = tuple(vec![name("a"), list(vec![name("b")])]);
    assert!(matches!(
        gather_scope(&vec![assign(target, num("0"))], 0, false),
        Err(CompilerError::Unsupported(Construct::ListTarget))
    ));
}

#[test]
fn import_from_is_unsupported() {
    let stmts = vec![
        import("os", None),
        Statement::ImportFrom { module: Some("sys".to_string()), names: Vec::new(), level: 0 },
    ];
    assert!(matches!(
        gather_scope(&stmts, 0, false),
        Err(CompilerError::Unsupported(Construct::ImportFrom))
    ));
}

#[test]
fn first_unsupported_construct_is_reported() {
    let stmts = vec![
        Statement::ImportFrom { module: None, names: Vec::new(), level: 1 },
        assign(list(Vec::new()), num("0")),
    ];
    assert!(matches!(
        gather_scope(&stmts, 0, false),
        Err(CompilerError::Unsupported(Construct::ImportFrom))
    ));
    let stmts = vec![
        assign(list(Vec::new()), num("0")),
        Statement::ImportFrom { module: None, names: Vec::new(), level: 1 },
    ];
    assert!(matches!(
        gather_scope(&stmts, 0, false),
        Err(CompilerError::Unsupported(Construct::ListTarget))
    ));
}

#[test]
fn import_binds_alias_or_name() {
    let stmts = vec![
        Statement::Import {
            names: vec![
                Alias::Alias { name: "numpy".to_string(), asname: Some("np".to_string()) },
                Alias::Alias { name: "os".to_string(), asname: None },
            ],
        },
    ];
    let scope = gather_scope(&stmts, 3, false).unwrap();
    assert_eq!(slots_of(&scope, vec!["np", "os"]), vec![Some(3), Some(4)]);
    assert_eq!(scope.get("numpy"), None);
}

#[test]
fn loops_and_conditionals_bind_what_their_bodies_bind() {
    let stmts = vec![
        Statement::While {
            test: name("c"),
            body: vec![assign(name("w"), num("1"))],
            orelse: vec![assign(name("we"), num("2"))],
        },
        Statement::If {
            test: name("c"),
            body: vec![assign(name("t"), num("1"))],
            orelse: vec![Statement::If {
                test: name("d"),
                body: vec![assign(name("u"), num("1"))],
                orelse: Vec::new(),
            }],
        },
        Statement::For {
            target: tuple(vec![name("k"), name("v")]),
            iter: name("items"),
            body: vec![assign(name("fb"), num("1"))],
            orelse: vec![assign(name("fe"), num("1"))],
        },
    ];
    let scope = gather_scope(&stmts, 0, false).unwrap();
    assert_eq!(
        slots_of(&scope, vec!["w", "we", "t", "u", "k", "v", "fb", "fe"]),
        vec![Some(0), Some(1), Some(2), Some(3), Some(4), Some(5), Some(6), Some(7)]
    );
    assert_eq!(scope.get("c"), None);
}

#[test]
fn other_statements_bind_nothing() {
    let stmts = vec![
        Statement::Pass,
        Statement::Expr { value: name("x") },
        Statement::Return { value: None },
        Statement::AugAssign {
            target: name("n"),
            op: pylower::parser::ast::Operator::Add,
            value: num("1"),
        },
        Statement::Global { names: vec!["g".to_string()] },
    ];
    let scope = gather_scope(&stmts, 0, false).unwrap();
    assert_eq!(scope.len(), 0);
}

#[test]
fn class_scope_holds_the_attributes_of_its_initialiser() {
    let body = vec![
        assign(name("count"), num("0")),
        init_method(),
        func("get", vec!["self"], vec![assign(attr("self", "late"), num("1"))]),
    ];
    let scope = gather_scope(&body, 0, true).unwrap();
    assert_eq!(
        slots_of(&scope, vec!["count", "__init__", "a", "b", "get"]),
        vec![Some(0), Some(1), Some(2), Some(3), Some(4)]
    );
    assert_eq!(scope.get("late"), None);
    assert_eq!(scope.get("self"), None);
    assert_eq!(scope.get("y"), None);
}

#[test]
fn initialiser_outside_a_class_binds_only_its_name() {
    let scope = gather_scope(&vec![init_method()], 0, false).unwrap();
    assert_eq!(scope.len(), 1);
    assert_eq!(scope.get("__init__"), Some(&0));
}

#[test]
fn class_init_binds_exactly_the_self_attributes() {
    let mut set = NameSet::new();
    assert_eq!(gather_class_init(&mut set, &init_method()), Ok(()));
    assert_eq!(set.len(), 2);
    assert_eq!(set.get(0), "a");
    assert_eq!(set.get(1), "b");
    assert!(set.contains("a"));
    assert!(set.contains("b"));
    assert!(!set.contains("y"));
    assert!(!set.contains("self"));
}

#[test]
fn class_init_without_parameters_is_skipped() {
    let method = func("__init__", Vec::new(), vec![assign(attr("self", "a"), num("1"))]);
    let mut set = NameSet::new();
    assert_eq!(gather_class_init(&mut set, &method), Ok(()));
    assert_eq!(set.len(), 0);
}

#[test]
fn class_init_goes_by_the_first_parameter() {
    let method = func(
        "__init__",
        vec!["this", "self"],
        vec![assign(attr("this", "x"), num("1")), assign(attr("self", "y"), num("2"))],
    );
    let mut set = NameSet::new();
    assert_eq!(gather_class_init(&mut set, &method), Ok(()));
    assert_eq!(set.len(), 1);
    assert!(set.contains("x"));
    assert!(!set.contains("y"));
}

#[test]
fn class_init_scans_loops_and_conditionals() {
    let body = vec![
        Statement::For {
            target: attr("self", "not_scanned"),
            iter: name("xs"),
            body: vec![assign(attr("self", "in_for"), num("1"))],
            orelse: vec![assign(attr("self", "for_else"), num("1"))],
        },
        Statement::While {
            test: name("c"),
            body: vec![assign(tuple(vec![attr("self", "p"), attr("other", "q")]), num("1"))],
            orelse: Vec::new(),
        },
        Statement::If {
            test: name("c"),
            body: vec![assign(name("local"), num("1"))],
            orelse: vec![assign(attr("self", "in_else"), num("1"))],
        },
    ];
    let mut set = NameSet::new();
    assert_eq!(rec_gather_class_init(&mut set, &body, &"self".to_string()), Ok(()));
    assert_eq!(set.len(), 4);
    assert_eq!(set.get(0), "in_for");
    assert_eq!(set.get(1), "for_else");
    assert_eq!(set.get(2), "p");
    assert_eq!(set.get(3), "in_else");
}

#[test]
fn class_init_with_list_target_is_unsupported() {
    let method = func("__init__", vec!["self"], vec![assign(list(Vec::new()), num("1"))]);
    let mut set = NameSet::new();
    assert_eq!(
        gather_class_init(&mut set, &method),
        Err(CompilerError::Unsupported(Construct::ListTarget))
    );
    assert!(matches!(
        gather_scope(&vec![method], 0, true),
        Err(CompilerError::Unsupported(Construct::ListTarget))
    ));
}

#[test]
fn unpack_alias_ignores_deeper_attribute_chains() {
    let target = Expression::Attribute {
        value: Box::new(attr("self", "a")),
        attr: "b".to_string(),
        ctx: ExprContext::Store,
    };
    let mut set = NameSet::new();
    assert_eq!(unpack_assign_alias(&mut set, &target, &"self".to_string()), Ok(()));
    assert_eq!(set.len(), 0);
}

#[test]
fn unpack_targets_extends_an_existing_set() {
    let mut set = NameSet::new();
    set.insert("b".to_string());
    let target = tuple(vec![name("a"), name("b"), name("c")]);
    assert_eq!(unpack_assign_targets(&mut set, &target), Ok(()));
    assert_eq!(set.len(), 3);
    assert_eq!(set.get(0), "b");
    assert_eq!(set.get(1), "a");
    assert_eq!(set.get(2), "c");
}

#[test]
fn rec_gather_scope_adds_to_the_set() {
    let mut set = NameSet::new();
    set.insert("x".to_string());
    let stmts = vec![assign(name("y"), num("1")), assign(name("x"), num("2"))];
    assert_eq!(rec_gather_scope(&mut set, &stmts, false), Ok(()));
    assert_eq!(set.len(), 2);
    assert_eq!(set.get(0), "x");
    assert_eq!(set.get(1), "y");
}

#[test]
fn func_params_are_numbered_in_order() {
    let scope = gather_func_params(&params(vec!["self", "a", "b"]), 2).unwrap();
    assert_eq!(scope.len(), 3);
    assert_eq!(slots_of(&scope, vec!["self", "a", "b"]), vec![Some(2), Some(3), Some(4)]);
}

#[test]
fn func_params_bind_positional_parameters_only() {
    let arguments = Arguments::Arguments {
        args: vec![Arg::Arg { arg: "a".to_string(), annotation: None }],
        vararg: Some(Arg::Arg { arg: "rest".to_string(), annotation: None }),
        kwonlyargs: vec![Arg::Arg { arg: "key".to_string(), annotation: None }],
        kw_defaults: vec![None],
        kwarg: Some(Arg::Arg { arg: "kw".to_string(), annotation: None }),
        defaults: vec![num("1")],
    };
    let scope = gather_func_params(&arguments, 0).unwrap();
    assert_eq!(scope.len(), 1);
    assert_eq!(scope.get("a"), Some(&0));
    assert_eq!(scope.get("rest"), None);
    assert_eq!(scope.get("key"), None);
    assert_eq!(scope.get("kw"), None);
}

#[test]
fn func_params_without_parameters() {
    let scope = gather_func_params(&params(Vec::new()), 9).unwrap();
    assert_eq!(scope.len(), 0);
}

#[test]
fn comp_targets_are_unpacked() {
    let generators = vec![
        Comprehension::Comprehension { target: name("x"), iter: name("xs"), ifs: Vec::new() },
        Comprehension::Comprehension {
            target: tuple(vec![name("k"), name("x")]),
            iter: name("kv"),
            ifs: vec![name("k")],
        },
    ];
    let scope = gather_comp_targets(&generators, 4).unwrap();
    assert_eq!(scope.len(), 2);
    assert_eq!(slots_of(&scope, vec!["x", "k"]), vec![Some(4), Some(5)]);
}

#[test]
fn comp_targets_with_list_target_are_unsupported() {
    let generators = vec![Comprehension::Comprehension {
        target: list(vec![name("x")]),
        iter: name("xs"),
        ifs: Vec::new(),
    }];
    assert!(matches!(
        gather_comp_targets(&generators, 0),
        Err(CompilerError::Unsupported(Construct::ListTarget))
    ));
}

#[test]
fn inner_scope_shadows_outer_scope() {
    let k = 3;
    let j = 8;
    let outer = scope_of(vec![("x", k), ("y", 4)]);
    let inner = scope_of(vec![("x", j)]);
    let stack = vec![outer, inner];
    assert_eq!(lookup_value(&stack, "x"), Ok((1, j)));
    assert_eq!(lookup_value(&stack, "y"), Ok((0, 4)));
}

#[test]
fn lookup_of_unbound_name_is_a_name_error() {
    let stack = vec![scope_of(vec![("x", 0)]), scope_of(vec![("y", 0)])];
    assert_eq!(lookup_value(&stack, "z"), Err(CompilerError::NameError("z".to_string())));
    assert_eq!(lookup_value(&Vec::new(), "x"), Err(CompilerError::NameError("x".to_string())));
}

#[test]
fn lookup_finds_the_innermost_of_many() {
    let stack = vec![
        scope_of(vec![("a", 0), ("b", 1)]),
        scope_of(vec![("b", 2)]),
        scope_of(vec![("c", 3)]),
        scope_of(vec![("b", 4), ("d", 5)]),
        scope_of(Vec::new()),
    ];
    assert_eq!(lookup_value(&stack, "a"), Ok((0, 0)));
    assert_eq!(lookup_value(&stack, "b"), Ok((3, 4)));
    assert_eq!(lookup_value(&stack, "c"), Ok((2, 3)));
    assert_eq!(lookup_value(&stack, "d"), Ok((3, 5)));
}

#[test]
fn lookup_through_gathered_scopes() {
    let module = vec![assign(name("x"), num("1")), func("f", vec!["x"], Vec::new())];
    let outer = gather_scope(&module, 0, false).unwrap();
    let inner = gather_func_params(&params(vec!["self", "x"]), 0).unwrap();
    let stack = vec![outer, inner];
    assert_eq!(lookup_value(&stack, "x"), Ok((1, 1)));
    assert_eq!(lookup_value(&stack, "f"), Ok((0, 1)));
    assert_eq!(lookup_value(&stack, "self"), Ok((1, 0)));
}

#[test]
fn name_set_keeps_first_insertion_order() {
    let mut set = NameSet::new();
    for n in ["b", "a", "b", "c", "a"] {
        set.insert(n.to_string());
    }
    assert_eq!(set.len(), 3);
    assert_eq!(set.get(0), "b");
    assert_eq!(set.get(1), "a");
    assert_eq!(set.get(2), "c");
    assert!(!set.contains("d"));
}

#[test]
fn slots_beyond_the_largest_address_overflow() {
    let stmts = vec![assign(name("x"), num("1")), assign(name("y"), num("2"))];
    assert!(matches!(
        gather_scope(&stmts, usize::MAX - 1, false),
        Err(CompilerError::ScopeOverflow)
    ));
    assert!(matches!(
        gather_func_params(&params(vec!["a"]), usize::MAX),
        Err(CompilerError::ScopeOverflow)
    ));
    let generators = vec![Comprehension::Comprehension {
        target: name("x"),
        iter: name("xs"),
        ifs: Vec::new(),
    }];
    assert!(matches!(
        gather_comp_targets(&generators, usize::MAX),
        Err(CompilerError::ScopeOverflow)
    ));
}

#[test]
fn slots_up_to_the_largest_address_fit() {
    let stmts = vec![assign(name("x"), num("1")), assign(name("x"), num("2"))];
    let scope = gather_scope(&stmts, usize::MAX - 1, false).unwrap();
    assert_eq!(scope.len(), 1);
    assert_eq!(scope.get("x"), Some(&(usize::MAX - 1)));
    let scope = gather_scope(&Vec::new(), usize::MAX, false).unwrap();
    assert_eq!(scope.len(), 0);
}

#[test]
fn unsupported_construct_comes_before_overflow() {
    let stmts = vec![assign(name("x"), num("1")), assign(list(Vec::new()), num("2"))];
    assert!(matches!(
        gather_scope(&stmts, usize::MAX, false),
        Err(CompilerError::Unsupported(Construct::ListTarget))
    ));
}
