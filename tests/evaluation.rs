use rhai_core::ast::{Expr, FnCallExpr, Namespace, ScriptFnDef, Stmt, VarExpr, AST};
use rhai_core::dynamic::{Dynamic, TypeKind, Union};
use rhai_core::engine::{
    Caches, Engine, GlobalRuntimeState, NoResolver, PluginFunction, VariableResolver,
};
use rhai_core::ast::CustomExpr;
use rhai_core::error::{ArithError, EvalError, Position};
use rhai_core::scope::Scope;
use std::cell::RefCell;
use std::rc::Rc;

enum TestFn {
    Len,
    ConcatInt,
    Counter(Rc<RefCell<Vec<i64>>>),
    Fail,
}

impl PluginFunction for TestFn {
    fn call(&self, args: &mut Vec<Dynamic>) -> Result<Dynamic, EvalError> {
        match self {
            TestFn::Len => match &args[0].value {
                Union::Array(a) => Ok(Dynamic::from_int(a.len() as i64)),
                _ => Ok(Dynamic::unit()),
            },
            TestFn::ConcatInt => match (&args[0].value, &args[1].value) {
                (Union::Str(s), Union::Int(i)) => Ok(Dynamic::from_string(format!("{s}{i}"))),
                _ => Ok(Dynamic::unit()),
            },
            TestFn::Counter(log) => {
                let n = log.borrow().len() as i64;
                log.borrow_mut().push(n);
                Ok(Dynamic::from_int(n))
            }
            TestFn::Fail => panic!("this function must not be called"),
        }
    }

    fn is_method_call(&self) -> bool {
        false
    }
}

fn pos() -> Position {
    Position { line: 1, col: 1 }
}

fn no_ns() -> Namespace {
    Namespace { path: vec![], index: None, pos: pos() }
}

fn lit(i: i64) -> Expr {
    Expr::IntegerConstant(i, pos())
}

fn string(s: &str) -> Expr {
    Expr::StringConstant(s.to_string(), pos())
}

fn var(name: &str) -> Expr {
    Expr::Variable(Box::new(VarExpr {
        index: None,
        namespace: no_ns(),
        name: name.to_string(),
        pos: pos(),
    }))
}

fn call_expr(name: &str, args: Vec<Expr>, is_op: bool) -> FnCallExpr {
    FnCallExpr {
        name: name.to_string(),
        hash: name.len() as u64 * 1000 + args.len() as u64,
        args,
        namespace: no_ns(),
        is_native_operator: is_op,
        pos: pos(),
    }
}

fn op(name: &str, a: Expr, b: Expr) -> Expr {
    Expr::FnCall(Box::new(call_expr(name, vec![a, b], true)))
}

fn call(name: &str, args: Vec<Expr>) -> Expr {
    Expr::FnCall(Box::new(call_expr(name, args, false)))
}

fn script(statements: Vec<Stmt>) -> AST {
    AST { statements, lib: vec![] }
}

fn int_of(r: Result<Dynamic, EvalError>) -> i64 {
    match r {
        Ok(Dynamic { value: Union::Int(i), .. }) => i,
        other => panic!("expected an integer, got {:?}", other),
    }
}

fn str_of(r: Result<Dynamic, EvalError>) -> String {
    match r {
        Ok(Dynamic { value: Union::Str(s), .. }) => s,
        other => panic!("expected a string, got {:?}", other),
    }
}

fn bool_of(r: Result<Dynamic, EvalError>) -> bool {
    match r {
        Ok(Dynamic { value: Union::Bool(b), .. }) => b,
        other => panic!("expected a boolean, got {:?}", other),
    }
}

fn engine() -> Engine<TestFn, NoResolver> {
    Engine::new()
}

#[test]
fn let_then_read() {
    let ast = script(vec![Stmt::Let("x".into(), lit(42), false, pos()), Stmt::Expr(var("x"))]);
    assert_eq!(int_of(engine().eval_ast(&ast)), 42);
}

#[test]
fn precedence_is_honoured() {
    let ast = script(vec![Stmt::Expr(op("+", lit(1), op("*", lit(2), lit(3))))]);
    assert_eq!(int_of(engine().eval_ast(&ast)), 7);
}

#[test]
fn string_char_string_concat() {
    let e = op(
        "+",
        op("+", string("a"), Expr::CharConstant('b', pos())),
        string("c"),
    );
    assert_eq!(str_of(engine().eval_ast(&script(vec![Stmt::Expr(e)]))), "abc");
}

#[test]
fn array_len_through_registered_method() {
    let mut e = engine();
    e.register_fn("len".into(), vec![TypeKind::Array], TestFn::Len);
    let ast = script(vec![
        Stmt::Let(
            "a".into(),
            Expr::Array(vec![lit(1), lit(2), lit(3)], pos()),
            false,
            pos(),
        ),
        Stmt::Expr(Expr::Dot(Box::new(var("a")), Box::new(call_expr("len", vec![], false)), pos())),
    ]);
    assert_eq!(int_of(e.eval_ast(&ast)), 3);
}

#[test]
fn null_coalesce() {
    let ast = script(vec![
        Stmt::Let("n".into(), Expr::Unit(pos()), false, pos()),
        Stmt::Expr(Expr::Coalesce(Box::new(var("n")), Box::new(lit(99)), pos())),
    ]);
    assert_eq!(int_of(engine().eval_ast(&ast)), 99);
    let ast = script(vec![Stmt::Expr(Expr::Coalesce(Box::new(lit(0)), Box::new(lit(99)), pos()))]);
    assert_eq!(int_of(engine().eval_ast(&ast)), 0);
}

fn sq_lib() -> Vec<ScriptFnDef> {
    vec![ScriptFnDef {
        name: "sq".into(),
        params: vec!["x".into()],
        body: vec![Stmt::Expr(op("*", var("x"), var("x")))],
    }]
}

#[test]
fn script_function_call() {
    let ast = AST { statements: vec![Stmt::Expr(call("sq", vec![lit(7)]))], lib: sq_lib() };
    assert_eq!(int_of(engine().eval_ast(&ast)), 49);
}

#[test]
fn script_function_without_match_reports_signature() {
    let ast = AST { statements: vec![Stmt::Expr(call("sq", vec![string("x")]))], lib: sq_lib() };
    match engine().eval_ast(&ast) {
        Err(EvalError::FunctionNotFound(sig, _)) => assert_eq!(sig, "sq (string)"),
        other => panic!("unexpected {:?}", other),
    }
}

#[test]
fn unknown_function_reports_signature() {
    let ast = script(vec![Stmt::Expr(call("nope", vec![lit(1), string("s")]))]);
    match engine().eval_ast(&ast) {
        Err(EvalError::FunctionNotFound(sig, _)) => assert_eq!(sig, "nope (i64, string)"),
        other => panic!("unexpected {:?}", other),
    }
}

#[test]
fn for_loop_appends_digits() {
    let mut e = engine();
    e.register_fn("+".into(), vec![TypeKind::Str, TypeKind::Int], TestFn::ConcatInt);
    let ast = script(vec![
        Stmt::Let("s".into(), string(""), false, pos()),
        Stmt::For(
            "i".into(),
            op("..", lit(0), lit(3)),
            vec![Stmt::OpAssign("s".into(), "+=".into(), var("i"), pos())],
            pos(),
        ),
        Stmt::Expr(var("s")),
    ]);
    assert_eq!(str_of(e.eval_ast(&ast)), "012");
}

#[test]
fn infinite_loop_hits_operation_ceiling() {
    let mut e = engine();
    e.set_max_operations(100);
    let ast = script(vec![Stmt::While(Expr::BoolConstant(true, pos()), vec![], pos())]);
    assert!(matches!(e.eval_ast(&ast), Err(EvalError::TooManyOperations(_))));
}

#[test]
fn counter_stays_under_ceiling() {
    for ceiling in [0u64, 1, 5, 6, 7, 37] {
        let mut e = engine();
        e.set_max_operations(ceiling);
        let mut scope = Scope::new();
        let mut global: GlobalRuntimeState<TestFn> = GlobalRuntimeState::new();
        let mut caches = Caches::new();
        let expr = op("+", op("+", lit(1), lit(2)), op("*", lit(3), lit(4)));
        let r = e.eval_expr(&mut scope, &mut global, &mut caches, &vec![], &None, &expr);
        assert!(global.num_operations <= ceiling);
        if ceiling < 7 {
            assert!(matches!(r, Err(EvalError::TooManyOperations(_))));
        } else {
            assert_eq!(int_of(r), 15);
        }
    }
}

#[test]
fn scope_length_restored_after_failure() {
    let mut scope = Scope::new();
    scope.push("outer".into(), Dynamic::from_int(1), false);
    let ast = script(vec![
        Stmt::Let("inner".into(), lit(2), false, pos()),
        Stmt::Expr(var("missing")),
    ]);
    let r = engine().eval_ast_with_scope(&mut scope, &ast);
    assert!(matches!(r, Err(EvalError::VariableNotFound(ref n, _)) if n == "missing"));
    assert_eq!(scope.len(), 1);
    let ok = script(vec![Stmt::Let("inner".into(), lit(2), false, pos())]);
    assert!(engine().eval_ast_with_scope(&mut scope, &ok).is_ok());
    assert_eq!(scope.len(), 1);
}

#[test]
fn array_elements_evaluate_left_to_right() {
    let log = Rc::new(RefCell::new(Vec::new()));
    let mut e = engine();
    e.register_fn("tick".into(), vec![], TestFn::Counter(log.clone()));
    let ast = script(vec![Stmt::Expr(Expr::Array(
        vec![call("tick", vec![]), call("tick", vec![]), call("tick", vec![])],
        pos(),
    ))]);
    match e.eval_ast(&ast) {
        Ok(Dynamic { value: Union::Array(a), .. }) => {
            let got: Vec<i64> = a.iter().map(|d| int_of(Ok(d.clone_value()))).collect();
            assert_eq!(got, vec![0, 1, 2]);
        }
        other => panic!("unexpected {:?}", other),
    }
    assert_eq!(*log.borrow(), vec![0, 1, 2]);
}

#[test]
fn and_or_short_circuit() {
    let mut e = engine();
    e.register_fn("boom".into(), vec![], TestFn::Fail);
    let and = Expr::And(
        Box::new(Expr::BoolConstant(false, pos())),
        Box::new(call("boom", vec![])),
        pos(),
    );
    assert!(!bool_of(e.eval_ast(&script(vec![Stmt::Expr(and)]))));
    let or = Expr::Or(
        Box::new(Expr::BoolConstant(true, pos())),
        Box::new(call("boom", vec![])),
        pos(),
    );
    assert!(bool_of(e.eval_ast(&script(vec![Stmt::Expr(or)]))));
}

#[test]
fn and_needs_booleans() {
    let e = Expr::And(Box::new(lit(1)), Box::new(Expr::BoolConstant(true, pos())), pos());
    match engine().eval_ast(&script(vec![Stmt::Expr(e)])) {
        Err(EvalError::TypeMismatch(expected, actual, _)) => {
            assert_eq!(expected, "bool");
            assert_eq!(actual, "i64");
        }
        other => panic!("unexpected {:?}", other),
    }
}

#[test]
fn same_input_same_output() {
    let ast = AST {
        statements: vec![Stmt::Expr(op("-", call("sq", vec![lit(9)]), lit(1)))],
        lib: sq_lib(),
    };
    let e = engine();
    assert_eq!(int_of(e.eval_ast(&ast)), int_of(e.eval_ast(&ast)));
    assert_eq!(int_of(e.eval_ast(&ast)), 80);
}

#[test]
fn warm_cache_gives_cold_cache_results() {
    let e = engine();
    let lib = sq_lib();
    let exprs = vec![
        call("sq", vec![lit(3)]),
        op("+", lit(2), lit(5)),
        call("sq", vec![string("q")]),
        op("+", string("x"), lit(5)),
    ];
    let mut warm = Caches::new();
    for _ in 0..2 {
        for x in &exprs {
            let mut scope = Scope::new();
            let mut g1: GlobalRuntimeState<TestFn> = GlobalRuntimeState::new();
            let mut g2: GlobalRuntimeState<TestFn> = GlobalRuntimeState::new();
            let mut cold = Caches::new();
            let a = e.eval_expr(&mut scope, &mut g1, &mut warm, &lib, &None, x);
            let b = e.eval_expr(&mut scope, &mut g2, &mut cold, &lib, &None, x);
            assert_eq!(format!("{:?}", a), format!("{:?}", b));
        }
    }
}

#[test]
fn overflow_is_an_arithmetic_error() {
    let ast = script(vec![Stmt::Expr(op("+", lit(i64::MAX), lit(1)))]);
    assert!(matches!(
        engine().eval_ast(&ast),
        Err(EvalError::Arithmetic(ArithError::AddOverflow, _))
    ));
    let ast = script(vec![Stmt::Expr(op("/", lit(1), lit(0)))]);
    assert!(matches!(
        engine().eval_ast(&ast),
        Err(EvalError::Arithmetic(ArithError::DivByZero, _))
    ));
}

#[test]
fn constant_cannot_be_assigned() {
    let ast = script(vec![
        Stmt::Let("c".into(), lit(1), true, pos()),
        Stmt::Assign("c".into(), lit(2), pos()),
    ]);
    assert!(matches!(
        engine().eval_ast(&ast),
        Err(EvalError::AssignmentToConstant(ref n, _)) if n == "c"
    ));
}

#[test]
fn assignment_updates_binding() {
    let ast = script(vec![
        Stmt::Let("v".into(), lit(1), false, pos()),
        Stmt::Assign("v".into(), lit(5), pos()),
        Stmt::OpAssign("v".into(), "*=".into(), lit(3), pos()),
        Stmt::Expr(var("v")),
    ]);
    assert_eq!(int_of(engine().eval_ast(&ast)), 15);
}

#[test]
fn shadowing_reads_latest_binding() {
    let ast = script(vec![
        Stmt::Let("x".into(), lit(1), false, pos()),
        Stmt::Let("x".into(), lit(2), false, pos()),
        Stmt::Expr(var("x")),
    ]);
    assert_eq!(int_of(engine().eval_ast(&ast)), 2);
}

#[test]
fn unbound_this() {
    let ast = script(vec![Stmt::Expr(var("this"))]);
    assert!(matches!(engine().eval_ast(&ast), Err(EvalError::UnboundThis(_))));
}

#[test]
fn missing_module() {
    let e = Expr::Variable(Box::new(VarExpr {
        index: None,
        namespace: Namespace { path: vec!["a".into(), "b".into()], index: None, pos: pos() },
        name: "X".into(),
        pos: pos(),
    }));
    match engine().eval_ast(&script(vec![Stmt::Expr(e)])) {
        Err(EvalError::ModuleNotFound(name, _)) => assert_eq!(name, "a::b"),
        other => panic!("unexpected {:?}", other),
    }
}

#[test]
fn global_constant_is_read_only() {
    let e = engine();
    let mut scope = Scope::new();
    let mut global: GlobalRuntimeState<TestFn> = GlobalRuntimeState::new();
    global.constants.push(("K".into(), Dynamic::from_int(7)));
    let mut caches = Caches::new();
    let x = Expr::Variable(Box::new(VarExpr {
        index: None,
        namespace: Namespace { path: vec!["global".into()], index: None, pos: pos() },
        name: "K".into(),
        pos: pos(),
    }));
    let r = e.eval_expr(&mut scope, &mut global, &mut caches, &vec![], &None, &x).unwrap();
    assert!(r.is_read_only());
    assert_eq!(int_of(Ok(r)), 7);
}

#[test]
fn array_literal_over_size_limit() {
    let mut e = engine();
    e.max_string_size = 3;
    let ast = script(vec![Stmt::Expr(Expr::Array(vec![string("ab"), string("cd")], pos()))]);
    assert!(matches!(e.eval_ast(&ast), Err(EvalError::DataTooLarge(_))));
    e.max_string_size = 4;
    assert!(e.eval_ast(&ast).is_ok());
}

#[test]
fn object_map_literal_keeps_order() {
    let ast = script(vec![Stmt::Expr(Expr::Object(
        vec![("b".into(), lit(1)), ("a".into(), lit(2))],
        pos(),
    ))]);
    match engine().eval_ast(&ast) {
        Ok(Dynamic { value: Union::Object(m), .. }) => {
            let keys: Vec<&str> = m.iter().map(|(k, _)| k.as_str()).collect();
            assert_eq!(keys, vec!["b", "a"]);
        }
        other => panic!("unexpected {:?}", other),
    }
}

#[test]
fn interpolated_string_concatenates() {
    let ast = script(vec![Stmt::Expr(Expr::InterpolatedString(
        vec![string("x="), Expr::CharConstant('y', pos()), string("!")],
        pos(),
    ))]);
    assert_eq!(str_of(engine().eval_ast(&ast)), "x=y!");
}

#[test]
fn script_function_name_is_a_pointer() {
    let ast = AST { statements: vec![Stmt::Expr(var("sq"))], lib: sq_lib() };
    match engine().eval_ast(&ast) {
        Ok(Dynamic { value: Union::FnPtr(f), .. }) => assert_eq!(f, "sq"),
        other => panic!("unexpected {:?}", other),
    }
}

#[test]
fn slow_operators_reach_registered_override() {
    let mut e = engine();
    e.register_fn("+".into(), vec![TypeKind::Str, TypeKind::Int], TestFn::ConcatInt);
    e.set_fast_operators(false);
    let ast = script(vec![Stmt::Expr(op("+", lit(2), lit(3)))]);
    assert_eq!(int_of(e.eval_ast(&ast)), 5);
    let ast = script(vec![Stmt::Expr(op("+", string("n"), lit(3)))]);
    assert_eq!(str_of(e.eval_ast(&ast)), "n3");
}

fn module_with(var: &str, value: i64) -> rhai_core::engine::Module<TestFn> {
    rhai_core::engine::Module { vars: vec![(var.to_string(), Dynamic::from_int(value))], functions: vec![] }
}

fn qualified(path: &[&str], index: Option<usize>, name: &str) -> Expr {
    Expr::Variable(Box::new(VarExpr {
        index: None,
        namespace: Namespace {
            path: path.iter().map(|s| s.to_string()).collect(),
            index,
            pos: pos(),
        },
        name: name.to_string(),
        pos: pos(),
    }))
}

fn eval_in(e: &Engine<TestFn, NoResolver>, global: &mut GlobalRuntimeState<TestFn>, x: &Expr) -> Result<Dynamic, EvalError> {
    let mut scope = Scope::new();
    let mut caches = Caches::new();
    e.eval_expr(&mut scope, global, &mut caches, &vec![], &None, x)
}

#[test]
fn qualified_variables_come_from_imports() {
    let e = engine();
    let mut g: GlobalRuntimeState<TestFn> = GlobalRuntimeState::new();
    g.imports.push(("m".into(), module_with("X", 1)));
    g.imports.push(("m".into(), module_with("X", 2)));
    let latest = eval_in(&e, &mut g, &qualified(&["m"], None, "X")).unwrap();
    assert!(latest.is_read_only());
    assert_eq!(int_of(Ok(latest)), 2);
    // the parser's hint: the import two from the top
    assert_eq!(int_of(eval_in(&e, &mut g, &qualified(&["m"], Some(2), "X"))), 1);
    // a hint out of range falls back to the name
    assert_eq!(int_of(eval_in(&e, &mut g, &qualified(&["m"], Some(9), "X"))), 2);
    match eval_in(&e, &mut g, &qualified(&["m"], None, "Y")) {
        Err(EvalError::VariableNotFound(n, _)) => assert_eq!(n, "m::Y"),
        other => panic!("unexpected {:?}", other),
    }
}

#[test]
fn qualified_variables_from_sub_modules_and_globals() {
    let mut e = engine();
    e.global_sub_modules.push(("sub".into(), module_with("Z", 5)));
    e.global_modules.push(module_with("G", 8));
    let mut g: GlobalRuntimeState<TestFn> = GlobalRuntimeState::new();
    assert_eq!(int_of(eval_in(&e, &mut g, &qualified(&["sub"], None, "Z"))), 5);
    assert_eq!(int_of(eval_in(&e, &mut g, &var("G"))), 8);
    match eval_in(&e, &mut g, &qualified(&["global"], None, "Q")) {
        Err(EvalError::VariableNotFound(n, _)) => assert_eq!(n, "global::Q"),
        other => panic!("unexpected {:?}", other),
    }
}

#[test]
fn scope_index_hint_is_used() {
    let e = engine();
    let mut scope = Scope::new();
    scope.push("x".into(), Dynamic::from_int(10), false);
    scope.push("x".into(), Dynamic::from_int(20), false);
    let mut g: GlobalRuntimeState<TestFn> = GlobalRuntimeState::new();
    let mut caches = Caches::new();
    let hinted = Expr::Variable(Box::new(VarExpr {
        index: Some(2),
        namespace: no_ns(),
        name: "x".into(),
        pos: pos(),
    }));
    let r = e.eval_expr(&mut scope, &mut g, &mut caches, &vec![], &None, &hinted);
    assert_eq!(int_of(r), 10);
    g.always_search_scope = true;
    let r = e.eval_expr(&mut scope, &mut g, &mut caches, &vec![], &None, &hinted);
    assert_eq!(int_of(r), 20);
}

#[test]
fn qualified_function_call() {
    let e = engine();
    let mut g: GlobalRuntimeState<TestFn> = GlobalRuntimeState::new();
    let mut m = module_with("unused", 0);
    m.functions.push(rhai_core::engine::NativeEntry {
        name: "len".into(),
        param_types: vec![TypeKind::Array],
        func: TestFn::Len,
    });
    g.imports.push(("arr".into(), m));
    let mut c = call_expr("len", vec![Expr::Array(vec![lit(1), lit(2)], pos())], false);
    c.namespace = Namespace { path: vec!["arr".into()], index: None, pos: pos() };
    assert_eq!(int_of(eval_in(&e, &mut g, &Expr::FnCall(Box::new(c)))), 2);
    let mut c = call_expr("len", vec![lit(1)], false);
    c.namespace = Namespace { path: vec!["nowhere".into()], index: None, pos: pos() };
    assert!(matches!(
        eval_in(&e, &mut g, &Expr::FnCall(Box::new(c))),
        Err(EvalError::ModuleNotFound(ref n, _)) if n == "nowhere"
    ));
}

#[test]
fn this_is_the_receiver() {
    let e = engine();
    let mut scope = Scope::new();
    let mut g: GlobalRuntimeState<TestFn> = GlobalRuntimeState::new();
    let mut caches = Caches::new();
    let this = Some(Dynamic::from_int(77));
    let r = e.eval_expr(&mut scope, &mut g, &mut caches, &vec![], &this, &var("this"));
    assert_eq!(int_of(r), 77);
}

#[test]
fn first_global_module_wins() {
    let mut e = engine();
    e.global_modules.push(module_with("x", 1));
    e.global_modules.push(module_with("x", 2));
    let mut g: GlobalRuntimeState<TestFn> = GlobalRuntimeState::new();
    assert_eq!(int_of(eval_in(&e, &mut g, &var("x"))), 1);
    let mut m1 = module_with("unused", 0);
    m1.functions.push(rhai_core::engine::NativeEntry {
        name: "size".into(),
        param_types: vec![TypeKind::Array],
        func: TestFn::Len,
    });
    let mut m2 = module_with("unused", 0);
    m2.functions.push(rhai_core::engine::NativeEntry {
        name: "size".into(),
        param_types: vec![TypeKind::Array],
        func: TestFn::Fail,
    });
    e.global_modules.push(m1);
    e.global_modules.push(m2);
    let c = call("size", vec![Expr::Array(vec![lit(4)], pos())]);
    assert_eq!(int_of(eval_in(&e, &mut g, &c)), 1);
}

#[test]
fn nested_failure_in_script_body_is_not_renamed() {
    let lib = vec![ScriptFnDef {
        name: "f".into(),
        params: vec!["x".into()],
        body: vec![Stmt::Expr(call("g", vec![var("x")]))],
    }];
    let ast = AST { statements: vec![Stmt::Expr(call("f", vec![lit(1)]))], lib };
    match engine().eval_ast(&ast) {
        Err(EvalError::FunctionNotFound(sig, _)) => assert_eq!(sig, "g (i64)"),
        other => panic!("unexpected {:?}", other),
    }
}

#[test]
fn read_only_marking_is_one_way() {
    let mut v = Dynamic::from_int(3);
    v.set_access_mode(rhai_core::dynamic::AccessMode::ReadOnly);
    v.set_access_mode(rhai_core::dynamic::AccessMode::ReadWrite);
    assert!(v.is_read_only());
}

#[test]
fn object_literal_over_size_limit_names_the_offending_value() {
    let mut e = engine();
    e.max_string_size = 3;
    let at = Position { line: 4, col: 9 };
    let ast = script(vec![Stmt::Expr(Expr::Object(
        vec![
            ("a".into(), string("ab")),
            ("b".into(), Expr::StringConstant("cd".into(), at)),
            ("c".into(), call("never", vec![])),
        ],
        pos(),
    ))]);
    match e.eval_ast(&ast) {
        Err(EvalError::DataTooLarge(p)) => assert_eq!(p, at),
        other => panic!("unexpected {:?}", other),
    }
}


struct Doubler;

impl VariableResolver for Doubler {
    fn resolve(&self, name: &String, index: usize) -> Result<Option<Dynamic>, EvalError> {
        match name.as_str() {
            "magic" => Ok(Some(Dynamic::from_int(2 * index as i64 + 1))),
            "broken" => Err(EvalError::VariableNotFound("broken".into(), Position { line: 0, col: 0 })),
            _ => Ok(None),
        }
    }
}

#[test]
fn variable_resolver_comes_before_the_scope() {
    let mut e: Engine<TestFn, Doubler> = Engine::new();
    e.set_var_resolver(Doubler);
    let mut scope = Scope::new();
    scope.push("magic".into(), Dynamic::from_int(100), false);
    scope.push("plain".into(), Dynamic::from_int(5), false);
    let mut g: GlobalRuntimeState<TestFn> = GlobalRuntimeState::new();
    let mut caches = Caches::new();
    let r = e.eval_expr(&mut scope, &mut g, &mut caches, &vec![], &None, &var("magic")).unwrap();
    assert!(r.is_read_only());
    assert_eq!(int_of(Ok(r)), 1);
    let r = e.eval_expr(&mut scope, &mut g, &mut caches, &vec![], &None, &var("plain"));
    assert_eq!(int_of(r), 5);
    let at = Position { line: 7, col: 3 };
    let broken = Expr::Variable(Box::new(VarExpr {
        index: None,
        namespace: no_ns(),
        name: "broken".into(),
        pos: at,
    }));
    match e.eval_expr(&mut scope, &mut g, &mut caches, &vec![], &None, &broken) {
        Err(EvalError::VariableNotFound(_, p)) => assert_eq!(p, at),
        other => panic!("unexpected {:?}", other),
    }
}

#[test]
fn custom_syntax_dispatches_on_first_token() {
    let mut e = engine();
    e.register_custom_syntax("measure".into(), TestFn::Len);
    let known = Expr::Custom(Box::new(CustomExpr {
        tokens: vec!["measure".into(), "$expr$".into()],
        inputs: vec![Expr::Array(vec![lit(1), lit(2), lit(3), lit(4)], pos())],
        pos: pos(),
    }));
    assert_eq!(int_of(e.eval_ast(&script(vec![Stmt::Expr(known)]))), 4);
    let unknown = Expr::Custom(Box::new(CustomExpr {
        tokens: vec!["nothing".into()],
        inputs: vec![],
        pos: pos(),
    }));
    match e.eval_ast(&script(vec![Stmt::Expr(unknown)])) {
        Err(EvalError::CustomSyntax(k, _)) => assert_eq!(k, "nothing"),
        other => panic!("unexpected {:?}", other),
    }
}

#[test]
fn host_results_are_size_checked() {
    let mut e = engine();
    e.register_fn("+".into(), vec![TypeKind::Str, TypeKind::Int], TestFn::ConcatInt);
    e.max_string_size = 2;
    let ast = script(vec![Stmt::Expr(op("+", string("ab"), lit(7)))]);
    assert!(matches!(e.eval_ast(&ast), Err(EvalError::DataTooLarge(_))));
}
