use rhai_core::builtin::{
    builtin_binary, get_builtin_binary_op_fn, get_builtin_op_assignment_fn, parse_op, Op,
};
use rhai_core::dynamic::{Dynamic, HostValue, Union};
use rhai_core::error::ArithError;

fn b(x: &Dynamic) -> bool {
    match x.value {
        Union::Bool(v) => v,
        _ => panic!("expected a boolean, got {:?}", x),
    }
}

fn i(x: &Dynamic) -> i64 {
    match x.value {
        Union::Int(v) => v,
        _ => panic!("expected an integer, got {:?}", x),
    }
}

fn s(x: &Dynamic) -> String {
    match &x.value {
        Union::Str(v) => v.clone(),
        _ => panic!("expected a string, got {:?}", x),
    }
}

fn apply(op: &str, x: Dynamic, y: Dynamic) -> Dynamic {
    let f = get_builtin_binary_op_fn(op, &x, &y).expect("a built-in cell");
    f.call(&x, &y).expect("a result")
}

fn st(v: &str) -> Dynamic {
    Dynamic::from_string(v.to_string())
}

#[test]
fn integer_arithmetic() {
    assert_eq!(i(&apply("+", Dynamic::from_int(40), Dynamic::from_int(2))), 42);
    assert_eq!(i(&apply("-", Dynamic::from_int(7), Dynamic::from_int(3))), 4);
    assert_eq!(i(&apply("/", Dynamic::from_int(-7), Dynamic::from_int(2))), -3);
    assert_eq!(i(&apply("%", Dynamic::from_int(-7), Dynamic::from_int(2))), -1);
    assert_eq!(i(&apply("**", Dynamic::from_int(2), Dynamic::from_int(10))), 1024);
    assert_eq!(i(&apply("<<", Dynamic::from_int(1), Dynamic::from_int(4))), 16);
    assert_eq!(i(&apply("<<", Dynamic::from_int(16), Dynamic::from_int(-2))), 4);
    assert_eq!(i(&apply(">>", Dynamic::from_int(-16), Dynamic::from_int(2))), -4);
    assert_eq!(i(&apply("^", Dynamic::from_int(6), Dynamic::from_int(3))), 5);
    assert!(b(&apply("<=", Dynamic::from_int(3), Dynamic::from_int(3))));
}

#[test]
fn integer_errors() {
    let x = Dynamic::from_int(i64::MIN);
    let y = Dynamic::from_int(-1);
    assert!(matches!(builtin_binary(Op::Div, &x, &y), Err(ArithError::DivOverflow)));
    assert!(matches!(builtin_binary(Op::Rem, &x, &y), Err(ArithError::RemByZeroOrOverflow)));
    let two = Dynamic::from_int(2);
    assert!(matches!(
        builtin_binary(Op::Pow, &two, &Dynamic::from_int(64)),
        Err(ArithError::PowOverflow)
    ));
    assert!(matches!(
        builtin_binary(Op::Pow, &two, &Dynamic::from_int(-1)),
        Err(ArithError::PowNegativeIndex)
    ));
    assert!(matches!(
        builtin_binary(Op::Pow, &two, &Dynamic::from_int(1 << 40)),
        Err(ArithError::PowIndexTooLarge)
    ));
    assert!(matches!(
        builtin_binary(Op::Shl, &two, &Dynamic::from_int(64)),
        Err(ArithError::ShlTooFar)
    ));
    assert!(matches!(
        builtin_binary(Op::Shr, &two, &Dynamic::from_int(-64)),
        Err(ArithError::ShlTooFar)
    ));
    assert!(matches!(
        builtin_binary(Op::Mul, &Dynamic::from_int(i64::MAX), &two),
        Err(ArithError::MulOverflow)
    ));
    assert!(matches!(
        builtin_binary(Op::Sub, &x, &Dynamic::from_int(1)),
        Err(ArithError::SubOverflow)
    ));
}

#[test]
fn ranges() {
    let r = apply("..", Dynamic::from_int(1), Dynamic::from_int(4));
    assert!(matches!(r.value, Union::Range(1, 4)));
    assert!(b(&apply("contains", r, Dynamic::from_int(3))));
    let r = apply("..=", Dynamic::from_int(1), Dynamic::from_int(4));
    assert!(b(&apply("contains", r, Dynamic::from_int(4))));
    let a = Dynamic::from_union(Union::Range(1, 4));
    let c = Dynamic::from_union(Union::RangeInclusive(1, 4));
    assert!(!b(&apply("==", a, c)));
}

#[test]
fn strings_and_chars() {
    assert_eq!(s(&apply("+", st("ab"), st("cd"))), "abcd");
    assert_eq!(s(&apply("-", st("banana"), st("an"))), "ba");
    assert_eq!(s(&apply("-", st("abc"), st(""))), "abc");
    assert!(b(&apply("contains", st("hello"), st("ell"))));
    assert!(!b(&apply("contains", st("hello"), st("elo"))));
    assert!(b(&apply("<", st("apple"), st("banana"))));
    assert!(!b(&apply("<", st("apricot"), st("apple"))));
    assert_eq!(s(&apply("+", Dynamic::from_char('x'), Dynamic::from_char('y'))), "xy");
    assert_eq!(s(&apply("+", Dynamic::from_char('x'), st("yz"))), "xyz");
    assert_eq!(s(&apply("+", st("xy"), Dynamic::from_char('z'))), "xyz");
    assert_eq!(s(&apply("-", st("a-b-c"), Dynamic::from_char('-'))), "abc");
    assert!(b(&apply("contains", st("abc"), Dynamic::from_char('c'))));
    // a character against a string compares the first two characters only
    assert!(b(&apply("<", Dynamic::from_char('a'), st("ab"))));
    assert!(b(&apply("==", st("b"), Dynamic::from_char('b'))));
    assert!(b(&apply("==", st("bz"), Dynamic::from_char('b'))) == false);
    assert!(b(&apply(">", st("bz"), Dynamic::from_char('b'))));
}

#[test]
fn unit_and_strings() {
    assert_eq!(s(&apply("+", Dynamic::unit(), st("q"))), "q");
    assert_eq!(s(&apply("+", st("q"), Dynamic::unit())), "q");
    assert!(b(&apply("!=", Dynamic::unit(), st("q"))));
    assert!(!b(&apply("==", st("q"), Dynamic::unit())));
    assert!(b(&apply("==", Dynamic::unit(), Dynamic::unit())));
    assert!(!b(&apply("<", Dynamic::unit(), Dynamic::unit())));
}

#[test]
fn blobs() {
    let blob = Dynamic::from_blob(vec![1, 2, 0xff]);
    assert!(b(&apply("contains", blob.clone_value(), Dynamic::from_int(0x1ff))));
    assert!(!b(&apply("contains", blob.clone_value(), Dynamic::from_int(3))));
    let r = apply("+", blob.clone_value(), Dynamic::from_char('é'));
    assert!(matches!(r.value, Union::Blob(ref v) if *v == vec![1, 2, 0xff, 0xc3, 0xa9]));
    let r = apply("+", blob.clone_value(), Dynamic::from_blob(vec![9]));
    assert!(matches!(r.value, Union::Blob(ref v) if *v == vec![1, 2, 0xff, 9]));
    assert!(b(&apply("==", blob.clone_value(), Dynamic::from_blob(vec![1, 2, 0xff]))));
}

#[test]
fn object_map_contains_key() {
    let m = Dynamic::from_union(Union::Object(vec![("k".to_string(), Dynamic::from_int(1))]));
    assert!(b(&apply("contains", m.clone_value(), st("k"))));
    assert!(!b(&apply("contains", m, st("j"))));
}

#[test]
fn mixed_types_default_to_unequal() {
    assert!(b(&apply("!=", Dynamic::from_int(1), st("1"))));
    assert!(!b(&apply("==", Dynamic::from_int(1), st("1"))));
    assert!(!b(&apply("<", Dynamic::from_bool(true), Dynamic::from_int(1))));
    assert!(get_builtin_binary_op_fn("+", &Dynamic::from_int(1), &st("1")).is_none());
}

#[test]
fn host_values() {
    let h = |code: u64| {
        Dynamic::from_union(Union::Variant(HostValue {
            type_code: code,
            tag: format!("T{code}"),
            handle: 0,
        }))
    };
    assert!(get_builtin_binary_op_fn("==", &h(1), &h(1)).is_none());
    assert!(!b(&apply("==", h(1), h(2))));
    assert!(b(&apply("!=", h(1), Dynamic::from_int(0))));
}

#[test]
fn cell_choice_depends_on_types_only() {
    let a = get_builtin_binary_op_fn("*", &Dynamic::from_int(1), &Dynamic::from_int(2));
    let c = get_builtin_binary_op_fn("*", &Dynamic::from_int(-9), &Dynamic::from_int(300));
    assert_eq!(a, c);
    let f = a.unwrap();
    let x = Dynamic::from_int(6);
    let y = Dynamic::from_int(7);
    assert_eq!(i(&f.call(&x, &y).unwrap()), i(&f.call(&x, &y).unwrap()));
    assert!(get_builtin_binary_op_fn("*", &st("a"), &st("b")).is_none());
    assert!(get_builtin_binary_op_fn("??", &Dynamic::from_int(1), &Dynamic::from_int(2)).is_none());
}

#[test]
fn operator_symbols() {
    assert_eq!(parse_op("**"), Some(Op::Pow));
    assert_eq!(parse_op("..="), Some(Op::RangeIn));
    assert_eq!(parse_op("contains"), Some(Op::Contains));
    assert_eq!(parse_op("+="), None);
}

#[test]
fn op_assignments() {
    let mut x = Dynamic::from_int(5);
    let f = get_builtin_op_assignment_fn("+=", &x, &Dynamic::from_int(2)).unwrap();
    f.call(&mut x, Dynamic::from_int(2)).unwrap();
    assert_eq!(i(&x), 7);

    let mut t = st("ab");
    let f = get_builtin_op_assignment_fn("-=", &t, &Dynamic::from_char('a')).unwrap();
    f.call(&mut t, Dynamic::from_char('a')).unwrap();
    assert_eq!(s(&t), "b");

    let mut c = Dynamic::from_char('a');
    let f = get_builtin_op_assignment_fn("+=", &c, &Dynamic::from_char('b')).unwrap();
    f.call(&mut c, Dynamic::from_char('b')).unwrap();
    assert_eq!(s(&c), "ab");

    let mut arr = Dynamic::from_array(vec![Dynamic::from_int(1)]);
    let f = get_builtin_op_assignment_fn("+=", &arr, &st("z")).unwrap();
    f.call(&mut arr, st("z")).unwrap();
    match &arr.value {
        Union::Array(a) => assert_eq!(a.len(), 2),
        _ => panic!(),
    }

    let mut blob = Dynamic::from_blob(vec![]);
    let f = get_builtin_op_assignment_fn("+=", &blob, &Dynamic::from_int(0x141)).unwrap();
    f.call(&mut blob, Dynamic::from_int(0x141)).unwrap();
    let f = get_builtin_op_assignment_fn("+=", &blob, &st("hi")).unwrap();
    f.call(&mut blob, st("hi")).unwrap();
    assert!(matches!(blob.value, Union::Blob(ref v) if *v == vec![0x41, b'h', b'i']));

    let mut ov = Dynamic::from_int(i64::MAX);
    let f = get_builtin_op_assignment_fn("*=", &ov, &Dynamic::from_int(2)).unwrap();
    assert!(matches!(f.call(&mut ov, Dynamic::from_int(2)), Err(ArithError::MulOverflow)));
    assert_eq!(i(&ov), i64::MAX);

    let mut flag = Dynamic::from_bool(true);
    let f = get_builtin_op_assignment_fn("&=", &flag, &Dynamic::from_bool(false)).unwrap();
    f.call(&mut flag, Dynamic::from_bool(false)).unwrap();
    assert!(!b(&flag));

    assert!(get_builtin_op_assignment_fn("+=", &Dynamic::from_int(1), &st("x")).is_none());
    assert!(get_builtin_op_assignment_fn("==", &Dynamic::from_int(1), &Dynamic::from_int(1)).is_none());
}

fn dec(m: i128, s: u32) -> Dynamic {
    Dynamic::from_union(Union::Decimal(rhai_core::decimal::Dec::new(m, s).unwrap()))
}

fn dec_parts(x: &Dynamic) -> (i128, u32) {
    match &x.value {
        Union::Decimal(d) => (d.mantissa(), d.scale()),
        _ => panic!("expected a decimal, got {:?}", x),
    }
}

#[test]
fn decimals() {
    assert_eq!(dec_parts(&apply("+", dec(15, 1), Dynamic::from_int(2))), (35, 1));
    assert_eq!(dec_parts(&apply("*", Dynamic::from_int(3), dec(25, 2))), (75, 2));
    assert_eq!(dec_parts(&apply("-", dec(1, 0), dec(1, 1))), (9, 1));
    assert_eq!(dec_parts(&apply("/", dec(1, 0), dec(4, 0))), (25, 2));
    assert!(b(&apply("==", dec(150, 2), dec(15, 1))));
    assert!(b(&apply("<", dec(149, 2), Dynamic::from_int(2))));
    assert!(b(&apply(">=", Dynamic::from_int(2), dec(2, 0))));
    assert!(matches!(
        builtin_binary(Op::Div, &dec(1, 0), &dec(0, 3)),
        Err(ArithError::DivByZero)
    ));
    let max = dec(rhai_core::decimal::MAX_MANTISSA, 0);
    assert!(matches!(builtin_binary(Op::Add, &max, &max), Err(ArithError::AddOverflow)));
    assert_eq!(dec_parts(&apply("**", dec(25, 1), Dynamic::from_int(2))), (625, 2));
    assert!(matches!(
        builtin_binary(Op::Pow, &max, &dec(3, 0)),
        Err(ArithError::PowOverflow)
    ));
    let mut p = dec(3, 0);
    let f = get_builtin_op_assignment_fn("**=", &p, &Dynamic::from_int(2)).unwrap();
    f.call(&mut p, Dynamic::from_int(2)).unwrap();
    assert_eq!(dec_parts(&p), (9, 0));
    assert!(rhai_core::decimal::Dec::new(1, 29).is_none());
    let mut x = dec(1, 0);
    let f = get_builtin_op_assignment_fn("+=", &x, &Dynamic::from_int(2)).unwrap();
    f.call(&mut x, Dynamic::from_int(2)).unwrap();
    assert_eq!(dec_parts(&x), (3, 0));
}

#[test]
fn coercions_name_the_offending_type() {
    assert_eq!(Dynamic::from_int(4).as_int().unwrap(), 4);
    assert_eq!(Dynamic::from_char('q').as_char().unwrap(), 'q');
    assert!(Dynamic::from_bool(true).as_bool().unwrap());
    assert_eq!(Dynamic::from_char('q').as_int().unwrap_err(), "char");
    assert_eq!(st("s").as_bool().unwrap_err(), "string");
    assert_eq!(Dynamic::unit().as_char().unwrap_err(), "()");
    assert_eq!(st("k").into_immutable_string().unwrap(), "k");
    assert_eq!(Dynamic::from_int(1).into_immutable_string().unwrap_err(), "i64");
    let h = Dynamic::from_union(Union::Variant(HostValue {
        type_code: 3,
        tag: "Point".into(),
        handle: 9,
    }));
    assert_eq!(h.as_int().unwrap_err(), "Point");
    let mut v = Dynamic::from_int(1);
    assert!(!v.is_read_only());
    v.set_access_mode(rhai_core::dynamic::AccessMode::ReadOnly);
    assert!(v.is_read_only());
    assert_eq!(i(&v.clone_value()), 1);
    assert!(v.clone_value().is_read_only());
}

#[test]
fn object_insert_replaces_or_appends() {
    let mut m = vec![("a".to_string(), Dynamic::from_int(1)), ("b".to_string(), Dynamic::from_int(2))];
    rhai_core::dynamic::object_insert(&mut m, "a".into(), Dynamic::from_int(9));
    rhai_core::dynamic::object_insert(&mut m, "c".into(), Dynamic::from_int(3));
    let keys: Vec<&str> = m.iter().map(|(k, _)| k.as_str()).collect();
    assert_eq!(keys, vec!["a", "b", "c"]);
    assert_eq!(i(&m[0].1), 9);
}
