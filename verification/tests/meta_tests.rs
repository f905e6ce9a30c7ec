use sass_front::args::{Args, NamedArg};
use sass_front::error::Error;
use sass_front::meta::{
    builtin_if, call, call_builtin, feature_exists, function_exists, get_function,
    global_variable_exists, inspect, invoke, invoke_by_name, mixin_exists, register, type_of, unit,
    unitless, variable_exists, Outcome, MAX_CALL_DEPTH,
};
use sass_front::scope::Scope;
use sass_front::span::Span;
use sass_front::table::Table;
use sass_front::value::{
    Builtin, FunctionDeclaration, MixinDeclaration, QuoteKind, SassFunction, Unit, Value,
};

fn site() -> Span {
    Span::new(10, 20)
}

fn args(positional: Vec<Value>) -> Args {
    Args::new(positional, Vec::new(), site())
}

fn num(n: i64) -> Value {
    Value::Dimension(n, Unit::Unitless)
}

fn text(s: &str) -> Value {
    Value::Ident(s.to_string(), QuoteKind::Unquoted)
}

fn failure<T>(message: &str) -> Result<T, Error> {
    Err(Error { message: message.to_string(), span: site() })
}

fn registry() -> Table<Builtin> {
    let mut f = Table::new();
    register(&mut f);
    f
}

fn declared(name: &str, body: u64) -> FunctionDeclaration {
    FunctionDeclaration { name: name.to_string(), body }
}

#[test]
fn if_selects_by_the_condition() {
    assert_eq!(builtin_if(&args(vec![Value::True, num(1), num(2)])), Ok(num(1)));
    assert_eq!(builtin_if(&args(vec![Value::False, num(1), num(2)])), Ok(num(2)));
    assert_eq!(builtin_if(&args(vec![Value::Null, num(1), num(2)])), Ok(num(2)));
    assert_eq!(builtin_if(&args(vec![num(0), num(1), num(2)])), Ok(num(1)));
}

#[test]
fn if_with_four_arguments_fails() {
    assert_eq!(
        builtin_if(&args(vec![Value::True, num(1), num(2), num(3)])),
        failure("Only 3 arguments allowed for if.")
    );
}

#[test]
fn if_takes_named_arguments() {
    let named = vec![
        NamedArg { name: "if-false".to_string(), value: num(2) },
        NamedArg { name: "if-true".to_string(), value: num(1) },
    ];
    let a = Args::new(vec![Value::True], named, site());
    assert_eq!(builtin_if(&a), Ok(num(1)));
}

#[test]
fn if_without_arguments_misses_the_condition() {
    assert_eq!(builtin_if(&args(vec![])), failure("Missing argument $condition."));
    assert_eq!(builtin_if(&args(vec![Value::True])), failure("Missing argument $if-true."));
}

#[test]
fn feature_exists_knows_its_features() {
    assert_eq!(feature_exists(&args(vec![text("at-error")])), Ok(Value::True));
    assert_eq!(feature_exists(&args(vec![text("custom-property")])), Ok(Value::False));
    assert_eq!(feature_exists(&args(vec![text("global-variable-shadowing")])), Ok(Value::True));
    assert_eq!(feature_exists(&args(vec![text("units-level-3")])), Ok(Value::True));
    assert_eq!(
        feature_exists(&args(vec![text("extend-selector-pseudoclass")])),
        Ok(Value::False)
    );
    assert_eq!(feature_exists(&args(vec![text("anything")])), Ok(Value::False));
}

#[test]
fn feature_exists_of_number_names_the_parameter() {
    assert_eq!(
        feature_exists(&args(vec![num(123)])),
        failure("$feature: 123 is not a string.")
    );
    assert_eq!(
        feature_exists(&args(vec![text("a"), text("b")])),
        failure("Only 1 arguments allowed for feature-exists.")
    );
}

#[test]
fn unit_is_the_unit_as_text() {
    let px = args(vec![Value::Dimension(5, Unit::Px)]);
    let expected = Ok(text("px"));
    assert_eq!(unit(&px), expected);
    assert_eq!(unit(&px), unit(&px));
    assert_eq!(unit(&args(vec![num(5)])), Ok(text("")));
    assert_eq!(
        unit(&args(vec![Value::Dimension(5, Unit::Percent)])),
        Ok(text("%"))
    );
    assert_eq!(unit(&args(vec![text("foo")])), failure("$number: foo is not a number."));
}

#[test]
fn unitless_is_true_where_unit_is_empty() {
    let units = [
        Unit::Unitless,
        Unit::Px,
        Unit::Em,
        Unit::Rem,
        Unit::Percent,
        Unit::Deg,
        Unit::Sec,
        Unit::Ms,
    ];
    for u in units {
        let a = args(vec![Value::Dimension(1, u)]);
        let name = match unit(&a) {
            Ok(Value::Ident(s, _)) => s,
            other => panic!("{:?}", other),
        };
        assert_eq!(unitless(&a), Ok(Value::bool(name.is_empty())));
    }
    assert_eq!(unitless(&args(vec![text("foo")])), Ok(Value::True));
    assert_eq!(unitless(&args(vec![Value::Null])), Ok(Value::True));
}

#[test]
fn type_of_names_every_kind() {
    let f = Value::Function(SassFunction::Builtin(Builtin::If, "if".to_string()));
    let cases = vec![
        (num(1), "number"),
        (text("a"), "string"),
        (Value::True, "bool"),
        (Value::False, "bool"),
        (Value::Null, "null"),
        (f, "function"),
    ];
    for (v, kind) in cases {
        assert_eq!(type_of(&args(vec![v])), Ok(text(kind)));
    }
}

#[test]
fn inspect_writes_the_value() {
    assert_eq!(inspect(&args(vec![Value::Dimension(-12, Unit::Px)])), Ok(text("-12px")));
    assert_eq!(inspect(&args(vec![num(0)])), Ok(text("0")));
    assert_eq!(
        inspect(&args(vec![num(i64::MIN)])),
        Ok(text("-9223372036854775808"))
    );
    assert_eq!(inspect(&args(vec![num(i64::MAX)])), Ok(text("9223372036854775807")));
    assert_eq!(
        inspect(&args(vec![Value::Ident("a b".to_string(), QuoteKind::Double)])),
        Ok(text("\"a b\""))
    );
    assert_eq!(
        inspect(&args(vec![Value::Ident("a".to_string(), QuoteKind::Single)])),
        Ok(text("'a'"))
    );
    assert_eq!(inspect(&args(vec![Value::Null])), Ok(text("null")));
    assert_eq!(inspect(&args(vec![Value::True])), Ok(text("true")));
    assert_eq!(inspect(&args(vec![Value::False])), Ok(text("false")));
    let f = Value::Function(SassFunction::Builtin(Builtin::If, "if".to_string()));
    assert_eq!(inspect(&args(vec![f])), Ok(text("get-function(\"if\")")));
}

#[test]
fn local_variable_hides_but_is_not_global() {
    let mut scope = Scope::new();
    scope.insert_var("g".to_string(), num(1));
    scope.enter();
    scope.insert_var("x".to_string(), num(2));
    assert_eq!(variable_exists(&args(vec![text("x")]), &scope), Ok(Value::True));
    assert_eq!(variable_exists(&args(vec![text("g")]), &scope), Ok(Value::True));
    assert_eq!(variable_exists(&args(vec![text("y")]), &scope), Ok(Value::False));
    assert_eq!(global_variable_exists(&args(vec![text("x")]), &scope), Ok(Value::False));
    assert_eq!(global_variable_exists(&args(vec![text("g")]), &scope), Ok(Value::True));
    scope.insert_global_var("x".to_string(), num(3));
    assert_eq!(global_variable_exists(&args(vec![text("x")]), &scope), Ok(Value::True));
    scope.exit();
    assert_eq!(variable_exists(&args(vec![text("x")]), &scope), Ok(Value::True));
    scope.exit();
    assert_eq!(variable_exists(&args(vec![text("g")]), &scope), Ok(Value::True));
    assert_eq!(
        variable_exists(&args(vec![num(1)]), &scope),
        failure("$name: 1 is not a string.")
    );
    assert_eq!(
        global_variable_exists(&args(vec![Value::Null]), &scope),
        failure("$name: null is not a string.")
    );
}

#[test]
fn mixin_exists_looks_through_the_chain() {
    let mut scope = Scope::new();
    scope.insert_mixin("m".to_string(), MixinDeclaration { name: "m".to_string(), body: 1 });
    scope.enter();
    assert_eq!(mixin_exists(&args(vec![text("m")]), &scope), Ok(Value::True));
    assert_eq!(mixin_exists(&args(vec![text("n")]), &scope), Ok(Value::False));
    assert_eq!(
        mixin_exists(&args(vec![Value::True]), &scope),
        failure("$name: true is not a string.")
    );
}

#[test]
fn function_exists_in_scope_or_registry() {
    let mut scope = Scope::new();
    scope.insert_fn("mine".to_string(), declared("mine", 7));
    let reg = registry();
    for name in ["mine", "if", "call", "get-function", "type-of", "unit", "unitless"] {
        let a = args(vec![text(name)]);
        assert_eq!(function_exists(&a, &scope, &reg), Ok(Value::True));
        assert!(get_function(&a, &scope, &reg).is_ok());
    }
    let a = args(vec![text("nope")]);
    assert_eq!(function_exists(&a, &scope, &reg), Ok(Value::False));
    assert_eq!(get_function(&a, &scope, &reg), failure("Function not found: nope"));
    assert_eq!(scope.get_fn(&"mine".to_string(), site()), Ok(declared("mine", 7)));
    assert_eq!(
        scope.get_fn(&"nope".to_string(), site()),
        failure("Undefined function.")
    );
}

#[test]
fn registry_holds_the_twelve_builtins() {
    let reg = registry();
    let names = [
        ("if", Builtin::If),
        ("feature-exists", Builtin::FeatureExists),
        ("unit", Builtin::Unit),
        ("type-of", Builtin::TypeOf),
        ("unitless", Builtin::Unitless),
        ("inspect", Builtin::Inspect),
        ("variable-exists", Builtin::VariableExists),
        ("global-variable-exists", Builtin::GlobalVariableExists),
        ("mixin-exists", Builtin::MixinExists),
        ("function-exists", Builtin::FunctionExists),
        ("get-function", Builtin::GetFunction),
        ("call", Builtin::Call),
    ];
    for (name, builtin) in names {
        assert_eq!(reg.get(&name.to_string()), Some(&builtin));
    }
    assert_eq!(reg.get(&"rgb".to_string()), None);
    assert!(!Table::<Builtin>::new().contains_key(&"if".to_string()));
}

#[test]
fn get_function_prefers_the_declared_function() {
    let mut scope = Scope::new();
    let reg = registry();
    assert_eq!(
        get_function(&args(vec![text("if")]), &scope, &reg),
        Ok(Value::Function(SassFunction::Builtin(Builtin::If, "if".to_string())))
    );
    scope.insert_fn("if".to_string(), declared("if", 3));
    assert_eq!(
        get_function(&args(vec![text("if")]), &scope, &reg),
        Ok(Value::Function(SassFunction::UserDefined(declared("if", 3), "if".to_string())))
    );
}

#[test]
fn get_function_refuses_css_with_module() {
    let scope = Scope::new();
    let reg = registry();
    assert_eq!(
        get_function(&args(vec![text("if"), Value::True, text("m")]), &scope, &reg),
        failure("$css and $module may not both be passed at once.")
    );
    assert!(get_function(&args(vec![text("if"), Value::False, text("m")]), &scope, &reg).is_ok());
    assert!(get_function(&args(vec![text("if"), Value::True]), &scope, &reg).is_ok());
    assert_eq!(
        get_function(&args(vec![text("if"), Value::False, num(4)]), &scope, &reg),
        failure("$module: 4 is not a string.")
    );
    assert_eq!(
        get_function(&args(vec![num(4)]), &scope, &reg),
        failure("$name: 4 is not a string.")
    );
    assert_eq!(
        get_function(&args(vec![text("a"), num(1), Value::Null, num(2)]), &scope, &reg),
        failure("Only 3 arguments allowed for get-function.")
    );
}

#[test]
fn call_runs_a_builtin_on_the_rest() {
    let scope = Scope::new();
    let reg = registry();
    let f = get_function(&args(vec![text("if")]), &scope, &reg).unwrap();
    let r = call(args(vec![f, Value::True, num(1), num(2)]), &scope, &reg, 0);
    assert_eq!(r, Ok(Outcome::Value(num(1))));
    let direct = invoke_by_name(
        &"if".to_string(),
        args(vec![Value::True, num(1), num(2)]),
        &scope,
        &reg,
        0,
    );
    assert_eq!(direct, Ok(Outcome::Value(num(1))));
}

#[test]
fn call_hands_a_declared_function_to_the_evaluator() {
    let mut scope = Scope::new();
    scope.insert_fn("mine".to_string(), declared("mine", 7));
    let reg = registry();
    let f = get_function(&args(vec![text("mine")]), &scope, &reg).unwrap();
    let r = call(args(vec![f, num(1), num(2)]), &scope, &reg, 0);
    assert_eq!(r, Ok(Outcome::Invoke(declared("mine", 7), args(vec![num(1), num(2)]))));
    let direct = invoke_by_name(&"mine".to_string(), args(vec![num(1), num(2)]), &scope, &reg, 0);
    assert_eq!(direct, r);
}

#[test]
fn call_passes_failures_on() {
    let scope = Scope::new();
    let reg = registry();
    let f = get_function(&args(vec![text("if")]), &scope, &reg).unwrap();
    let r = call(args(vec![f, Value::True, num(1), num(2), num(3)]), &scope, &reg, 0);
    assert_eq!(r, failure("Only 3 arguments allowed for if."));
    assert_eq!(
        call(args(vec![num(1)]), &scope, &reg, 0),
        failure("$function: 1 is not a function reference.")
    );
    assert_eq!(call(args(vec![]), &scope, &reg, 0), failure("Missing argument $function."));
    assert_eq!(
        invoke_by_name(&"nope".to_string(), args(vec![]), &scope, &reg, 0),
        failure("Function not found: nope")
    );
}

#[test]
fn call_of_call_nests() {
    let scope = Scope::new();
    let reg = registry();
    let call_ref = get_function(&args(vec![text("call")]), &scope, &reg).unwrap();
    let type_ref = get_function(&args(vec![text("type-of")]), &scope, &reg).unwrap();
    let r = call(args(vec![call_ref, type_ref, num(1)]), &scope, &reg, 0);
    assert_eq!(r, Ok(Outcome::Value(text("number"))));
}

#[test]
fn calls_nest_only_so_deep() {
    let scope = Scope::new();
    let reg = registry();
    let f = SassFunction::Builtin(Builtin::TypeOf, "type-of".to_string());
    assert_eq!(
        invoke(&f, args(vec![num(1)]), &scope, &reg, MAX_CALL_DEPTH),
        failure("Maximum call depth exceeded.")
    );
    assert_eq!(
        invoke(&f, args(vec![num(1)]), &scope, &reg, MAX_CALL_DEPTH - 1),
        Ok(Outcome::Value(text("number")))
    );
    let by_name = vec![NamedArg {
        name: "function".to_string(),
        value: Value::Function(SassFunction::Builtin(Builtin::Call, "call".to_string())),
    }];
    let endless = Args::new(Vec::new(), by_name, site());
    assert_eq!(call(endless, &scope, &reg, 0), failure("Maximum call depth exceeded."));
}

#[test]
fn call_builtin_runs_each_key() {
    let scope = Scope::new();
    let reg = registry();
    assert_eq!(
        call_builtin(Builtin::Unit, args(vec![Value::Dimension(1, Unit::Em)]), &scope, &reg, 1),
        Ok(Outcome::Value(text("em")))
    );
    assert_eq!(
        call_builtin(Builtin::FunctionExists, args(vec![text("call")]), &scope, &reg, 1),
        Ok(Outcome::Value(Value::True))
    );
}

#[test]
fn decrement_drops_the_first_slot() {
    let a = args(vec![num(1), num(2), num(3)]);
    assert_eq!(a.decrement(), args(vec![num(2), num(3)]));
    assert_eq!(args(vec![]).decrement(), args(vec![]));
    let b = args(vec![num(1), num(2)]);
    assert_eq!(b.get(1, "x"), Some(&num(2)));
    assert_eq!(b.get(2, "x"), None);
    assert!(b.max_args(2, "f").is_ok());
    assert_eq!(b.max_args(1, "f"), failure("Only 1 arguments allowed for f."));
}

#[test]
fn truthiness_and_clone() {
    assert!(num(0).is_true());
    assert!(text("").is_true());
    assert!(Value::True.is_true());
    assert!(!Value::False.is_true());
    assert!(!Value::Null.is_true());
    let f = Value::Function(SassFunction::UserDefined(declared("a", 1), "a".to_string()));
    assert_eq!(f.clone(), f);
    assert_eq!(f.kind(), "function");
}
