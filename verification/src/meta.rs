//! The introspection builtins: what each returns for its arguments, and
//! the registry that holds them by name.

use vstd::prelude::*;
use crate::args::{arity_error, Args, ArgsView};
use crate::error::Error;
use crate::scope::Scope;
use crate::span::Span;
use crate::table::{find_in, lemma_find_after_push, Entry, Table};
use crate::value::{
    bool_view, Builtin, FunctionDeclaration, FunctionDeclarationView, QuoteKind, SassFunction,
    SassFunctionView, Unit, Value, ValueView,
};

verus! {

/// How deep calls may nest.
pub const MAX_CALL_DEPTH: usize = 64;

/// What a call comes to: a value, or a declared function that the
/// evaluator is to run on the arguments.
#[derive(Debug, PartialEq, Eq)]
pub enum Outcome {
    Value(Value),
    Invoke(FunctionDeclaration, Args),
}

pub enum OutcomeView {
    Value(ValueView),
    Invoke(FunctionDeclarationView, ArgsView),
}

impl View for Outcome {
    type V = OutcomeView;

    open spec fn view(&self) -> OutcomeView {
        match self {
            Outcome::Value(v) => OutcomeView::Value(v@),
            Outcome::Invoke(d, a) => OutcomeView::Invoke(d@, a@),
        }
    }
}

/// Whether `r` is the value, or the failure with its message and span,
/// that `s` names.
pub open spec fn value_matches(r: Result<Value, Error>, s: Result<ValueView, (Seq<char>, Span)>) -> bool {
    match r {
        Ok(v) => s == Ok::<ValueView, (Seq<char>, Span)>(v@),
        Err(e) => s == Err::<ValueView, (Seq<char>, Span)>((e.message@, e.span)),
    }
}

pub open spec fn outcome_matches(r: Result<Outcome, Error>, s: Result<OutcomeView, (Seq<char>, Span)>) -> bool {
    match r {
        Ok(v) => s == Ok::<OutcomeView, (Seq<char>, Span)>(v@),
        Err(e) => s == Err::<OutcomeView, (Seq<char>, Span)>((e.message@, e.span)),
    }
}

/// The message for an argument of the wrong type: the parameter, the
/// value as written, and what was wanted.
pub open spec fn type_error(param: Seq<char>, v: ValueView, wanted: Seq<char>) -> Seq<char> {
    "$"@ + param + ": "@ + v.inspect() + " is not "@ + wanted + "."@
}

pub open spec fn missing_error(param: Seq<char>) -> Seq<char> {
    "Missing argument $"@ + param + "."@
}

/// The argument in slot `index` or passed as `name`, which must be there.
pub open spec fn required(a: ArgsView, index: nat, name: Seq<char>) -> Result<
    ValueView,
    (Seq<char>, Span),
> {
    match a.arg(index, name) {
        Some(v) => Ok(v),
        None => Err((missing_error(name), a.span)),
    }
}

/// `then`, unless more than `max` arguments were passed to `function`.
pub open spec fn at_most(
    a: ArgsView,
    max: nat,
    function: Seq<char>,
    then: Result<ValueView, (Seq<char>, Span)>,
) -> Result<ValueView, (Seq<char>, Span)> {
    if a.count() > max {
        Err((arity_error(function, max), a.span))
    } else {
        then
    }
}

/// The name in the first argument, which must be a string.
pub open spec fn name_arg(a: ArgsView, param: Seq<char>) -> Result<Seq<char>, (Seq<char>, Span)> {
    match required(a, 0, param) {
        Err(e) => Err(e),
        Ok(ValueView::Ident(s, _)) => Ok(s),
        Ok(v) => Err((type_error(param, v, "a string"@), a.span)),
    }
}

pub open spec fn if_spec(a: ArgsView) -> Result<ValueView, (Seq<char>, Span)> {
    at_most(
        a,
        3,
        "if"@,
        match required(a, 0, "condition"@) {
            Err(e) => Err(e),
            Ok(c) => if c.is_true() {
                required(a, 1, "if-true"@)
            } else {
                required(a, 2, "if-false"@)
            },
        },
    )
}

/// The features that are there; every other name is not.
pub open spec fn feature_supported(name: Seq<char>) -> bool {
    name == "global-variable-shadowing"@ || name == "units-level-3"@ || name == "at-error"@
}

pub open spec fn feature_exists_spec(a: ArgsView) -> Result<ValueView, (Seq<char>, Span)> {
    at_most(
        a,
        1,
        "feature-exists"@,
        match name_arg(a, "feature"@) {
            Err(e) => Err(e),
            Ok(s) => Ok(bool_view(feature_supported(s))),
        },
    )
}

pub open spec fn unit_spec(a: ArgsView) -> Result<ValueView, (Seq<char>, Span)> {
    at_most(
        a,
        1,
        "unit"@,
        match required(a, 0, "number"@) {
            Err(e) => Err(e),
            Ok(ValueView::Dimension(_, u)) => Ok(ValueView::Ident(u.name_spec(), QuoteKind::Unquoted)),
            Ok(v) => Err((type_error("number"@, v, "a number"@), a.span)),
        },
    )
}

pub open spec fn type_of_spec(a: ArgsView) -> Result<ValueView, (Seq<char>, Span)> {
    at_most(
        a,
        1,
        "type-of"@,
        match required(a, 0, "value"@) {
            Err(e) => Err(e),
            Ok(v) => Ok(ValueView::Ident(v.kind(), QuoteKind::Unquoted)),
        },
    )
}

pub open spec fn unitless_spec(a: ArgsView) -> Result<ValueView, (Seq<char>, Span)> {
    at_most(
        a,
        1,
        "unitless"@,
        match required(a, 0, "number"@) {
            Err(e) => Err(e),
            Ok(ValueView::Dimension(_, u)) => Ok(bool_view(u == Unit::Unitless)),
            Ok(_) => Ok(ValueView::True),
        },
    )
}

pub open spec fn inspect_spec(a: ArgsView) -> Result<ValueView, (Seq<char>, Span)> {
    at_most(
        a,
        1,
        "inspect"@,
        match required(a, 0, "value"@) {
            Err(e) => Err(e),
            Ok(v) => Ok(ValueView::Ident(v.inspect(), QuoteKind::Unquoted)),
        },
    )
}

pub open spec fn variable_exists_spec(a: ArgsView, scope: Scope) -> Result<
    ValueView,
    (Seq<char>, Span),
> {
    at_most(
        a,
        1,
        "variable-exists"@,
        match name_arg(a, "name"@) {
            Err(e) => Err(e),
            Ok(s) => Ok(bool_view(scope.find_var(s).is_some())),
        },
    )
}

pub open spec fn global_variable_exists_spec(a: ArgsView, scope: Scope) -> Result<
    ValueView,
    (Seq<char>, Span),
> {
    at_most(
        a,
        1,
        "global-variable-exists"@,
        match name_arg(a, "name"@) {
            Err(e) => Err(e),
            Ok(s) => Ok(bool_view(scope.find_global_var(s).is_some())),
        },
    )
}

pub open spec fn mixin_exists_spec(a: ArgsView, scope: Scope) -> Result<
    ValueView,
    (Seq<char>, Span),
> {
    at_most(
        a,
        2,
        "mixin-exists"@,
        match name_arg(a, "name"@) {
            Err(e) => Err(e),
            Ok(s) => Ok(bool_view(scope.find_mixin(s).is_some())),
        },
    )
}

/// The function that `name` stands for: one declared in scope, or else a
/// builtin of the registry.
pub open spec fn resolve_spec(name: Seq<char>, scope: Scope, registry: Table<Builtin>) -> Option<
    SassFunctionView,
> {
    match scope.find_fn(name) {
        Some(d) => Some(SassFunctionView::UserDefined(d@, name)),
        None => match registry.find(name) {
            Some(b) => Some(SassFunctionView::Builtin(b, name)),
            None => None,
        },
    }
}

pub open spec fn function_exists_spec(a: ArgsView, scope: Scope, registry: Table<Builtin>) -> Result<
    ValueView,
    (Seq<char>, Span),
> {
    at_most(
        a,
        2,
        "function-exists"@,
        match name_arg(a, "name"@) {
            Err(e) => Err(e),
            Ok(s) => Ok(bool_view(resolve_spec(s, scope, registry).is_some())),
        },
    )
}

pub open spec fn not_found_error(name: Seq<char>) -> Seq<char> {
    "Function not found: "@ + name
}

/// `get-function` once its name is known: the `css` flag, the module,
/// their conflict, and the lookup, in that order.
pub open spec fn get_function_named(
    a: ArgsView,
    name: Seq<char>,
    scope: Scope,
    registry: Table<Builtin>,
) -> Result<ValueView, (Seq<char>, Span)> {
    let css = match a.arg(1, "css"@) {
        Some(v) => v.is_true(),
        None => false,
    };
    let module = match a.arg(2, "module"@) {
        Some(v) => v,
        None => ValueView::Null,
    };
    match module {
        ValueView::Ident(_, _) => if css {
            Err(("$css and $module may not both be passed at once."@, a.span))
        } else {
            found_function(a, name, scope, registry)
        },
        ValueView::Null => found_function(a, name, scope, registry),
        v => Err((type_error("module"@, v, "a string"@), a.span)),
    }
}

pub open spec fn found_function(
    a: ArgsView,
    name: Seq<char>,
    scope: Scope,
    registry: Table<Builtin>,
) -> Result<ValueView, (Seq<char>, Span)> {
    match resolve_spec(name, scope, registry) {
        Some(f) => Ok(ValueView::Function(f)),
        None => Err((not_found_error(name), a.span)),
    }
}

pub open spec fn get_function_spec(a: ArgsView, scope: Scope, registry: Table<Builtin>) -> Result<
    ValueView,
    (Seq<char>, Span),
> {
    at_most(
        a,
        3,
        "get-function"@,
        match name_arg(a, "name"@) {
            Err(e) => Err(e),
            Ok(s) => get_function_named(a, s, scope, registry),
        },
    )
}

pub open spec fn as_outcome(s: Result<ValueView, (Seq<char>, Span)>) -> Result<
    OutcomeView,
    (Seq<char>, Span),
> {
    match s {
        Ok(v) => Ok(OutcomeView::Value(v)),
        Err(e) => Err(e),
    }
}

/// `call`: the function in the first argument, invoked on the arguments
/// without their first positional slot.
pub open spec fn call_spec(a: ArgsView, scope: Scope, registry: Table<Builtin>, depth: nat) -> Result<
    OutcomeView,
    (Seq<char>, Span),
>
    decreases MAX_CALL_DEPTH - depth, 1int,
{
    match required(a, 0, "function"@) {
        Err(e) => Err(e),
        Ok(ValueView::Function(f)) => invoke_spec(f, a.decrement(), scope, registry, depth),
        Ok(v) => Err((type_error("function"@, v, "a function reference"@), a.span)),
    }
}

/// A function invoked at call depth `depth`: a declared one is handed to
/// the evaluator, a builtin is run one level deeper.
pub open spec fn invoke_spec(
    f: SassFunctionView,
    a: ArgsView,
    scope: Scope,
    registry: Table<Builtin>,
    depth: nat,
) -> Result<OutcomeView, (Seq<char>, Span)>
    decreases MAX_CALL_DEPTH - depth, 0int,
{
    if depth >= MAX_CALL_DEPTH {
        Err(("Maximum call depth exceeded."@, a.span))
    } else {
        match f {
            SassFunctionView::UserDefined(d, _) => Ok(OutcomeView::Invoke(d, a)),
            SassFunctionView::Builtin(b, _) => builtin_spec(b, a, scope, registry, depth + 1),
        }
    }
}

pub open spec fn builtin_spec(
    b: Builtin,
    a: ArgsView,
    scope: Scope,
    registry: Table<Builtin>,
    depth: nat,
) -> Result<OutcomeView, (Seq<char>, Span)>
    decreases MAX_CALL_DEPTH - depth, 2int,
{
    match b {
        Builtin::If => as_outcome(if_spec(a)),
        Builtin::FeatureExists => as_outcome(feature_exists_spec(a)),
        Builtin::Unit => as_outcome(unit_spec(a)),
        Builtin::TypeOf => as_outcome(type_of_spec(a)),
        Builtin::Unitless => as_outcome(unitless_spec(a)),
        Builtin::Inspect => as_outcome(inspect_spec(a)),
        Builtin::VariableExists => as_outcome(variable_exists_spec(a, scope)),
        Builtin::GlobalVariableExists => as_outcome(global_variable_exists_spec(a, scope)),
        Builtin::MixinExists => as_outcome(mixin_exists_spec(a, scope)),
        Builtin::FunctionExists => as_outcome(function_exists_spec(a, scope, registry)),
        Builtin::GetFunction => as_outcome(get_function_spec(a, scope, registry)),
        Builtin::Call => call_spec(a, scope, registry, depth),
    }
}

/// A function called by its name.
pub open spec fn invoke_by_name_spec(
    name: Seq<char>,
    a: ArgsView,
    scope: Scope,
    registry: Table<Builtin>,
    depth: nat,
) -> Result<OutcomeView, (Seq<char>, Span)> {
    match resolve_spec(name, scope, registry) {
        Some(f) => invoke_spec(f, a, scope, registry, depth),
        None => Err((not_found_error(name), a.span)),
    }
}

/// The builtin that the registry holds under `name` once the builtins of
/// this module are registered.
pub open spec fn builtin_named(name: Seq<char>) -> Option<Builtin> {
    if name == "call"@ {
        Some(Builtin::Call)
    } else if name == "get-function"@ {
        Some(Builtin::GetFunction)
    } else if name == "function-exists"@ {
        Some(Builtin::FunctionExists)
    } else if name == "mixin-exists"@ {
        Some(Builtin::MixinExists)
    } else if name == "global-variable-exists"@ {
        Some(Builtin::GlobalVariableExists)
    } else if name == "variable-exists"@ {
        Some(Builtin::VariableExists)
    } else if name == "inspect"@ {
        Some(Builtin::Inspect)
    } else if name == "unitless"@ {
        Some(Builtin::Unitless)
    } else if name == "type-of"@ {
        Some(Builtin::TypeOf)
    } else if name == "unit"@ {
        Some(Builtin::Unit)
    } else if name == "feature-exists"@ {
        Some(Builtin::FeatureExists)
    } else if name == "if"@ {
        Some(Builtin::If)
    } else {
        None
    }
}

/// Whether a text is the given one.
pub fn text_is(s: &String, text: &str) -> (r: bool)
    ensures
        r == (s@ == text@),
{
    *s == String::from_str(text)
}

fn type_failure(param: &str, v: &Value, wanted: &str, span: Span) -> (e: Error)
    ensures
        e.message@ == type_error(param@, v@, wanted@),
        e.span == span,
{
    let mut message = String::from_str("$");
    message.append(param);
    message.append(": ");
    message.append(v.inspect().as_str());
    message.append(" is not ");
    message.append(wanted);
    message.append(".");
    Error::new(message, span)
}

fn not_found(name: &String, span: Span) -> (e: Error)
    ensures
        e.message@ == not_found_error(name@),
        e.span == span,
{
    let mut message = String::from_str("Function not found: ");
    message.append(name.as_str());
    Error::new(message, span)
}

fn require<'a>(args: &'a Args, index: usize, name: &str) -> (r: Result<&'a Value, Error>)
    ensures
        match r {
            Ok(v) => required(args@, index as nat, name@) == Ok::<ValueView, (Seq<char>, Span)>(
                v@,
            ),
            Err(e) => required(args@, index as nat, name@) == Err::<ValueView, (Seq<char>, Span)>(
                (e.message@, e.span),
            ),
        },
{
    match args.get(index, name) {
        Some(v) => Ok(v),
        None => {
            let mut message = String::from_str("Missing argument $");
            message.append(name);
            message.append(".");
            Err(Error::new(message, args.span))
        },
    }
}

fn require_name<'a>(args: &'a Args, param: &str) -> (r: Result<&'a String, Error>)
    ensures
        match r {
            Ok(s) => name_arg(args@, param@) == Ok::<Seq<char>, (Seq<char>, Span)>(s@),
            Err(e) => name_arg(args@, param@) == Err::<Seq<char>, (Seq<char>, Span)>(
                (e.message@, e.span),
            ),
        },
{
    match require(args, 0, param) {
        Err(e) => Err(e),
        Ok(v) => match v {
            Value::Ident(s, _) => Ok(s),
            _ => Err(type_failure(param, v, "a string", args.span)),
        },
    }
}

/// `if(condition, if-true, if-false)`: the second argument where the
/// first is true, else the third.
pub fn builtin_if(args: &Args) -> (r: Result<Value, Error>)
    ensures
        value_matches(r, if_spec(args@)),
{
    match args.max_args(3, "if") {
        Err(e) => {
            return Err(e);
        },
        Ok(_) => {},
    }
    let chosen = match require(args, 0, "condition") {
        Err(e) => {
            return Err(e);
        },
        Ok(c) => if c.is_true() {
            require(args, 1, "if-true")
        } else {
            require(args, 2, "if-false")
        },
    };
    match chosen {
        Ok(v) => Ok(v.clone()),
        Err(e) => Err(e),
    }
}

/// `feature-exists(feature)`: whether the named feature is there.
pub fn feature_exists(args: &Args) -> (r: Result<Value, Error>)
    ensures
        value_matches(r, feature_exists_spec(args@)),
{
    match args.max_args(1, "feature-exists") {
        Err(e) => {
            return Err(e);
        },
        Ok(_) => {},
    }
    match require_name(args, "feature") {
        Err(e) => Err(e),
        Ok(s) => Ok(
            Value::bool(
                text_is(s, "global-variable-shadowing") || text_is(s, "units-level-3") || text_is(
                    s,
                    "at-error",
                ),
            ),
        ),
    }
}

/// `unit(number)`: the unit of a number, as an unquoted string.
pub fn unit(args: &Args) -> (r: Result<Value, Error>)
    ensures
        value_matches(r, unit_spec(args@)),
{
    match args.max_args(1, "unit") {
        Err(e) => {
            return Err(e);
        },
        Ok(_) => {},
    }
    match require(args, 0, "number") {
        Err(e) => Err(e),
        Ok(v) => match v {
            Value::Dimension(_, u) => Ok(
                Value::Ident(String::from_str(u.as_str()), QuoteKind::Unquoted),
            ),
            _ => Err(type_failure("number", v, "a number", args.span)),
        },
    }
}

/// `type-of(value)`: the name of the value's type.
pub fn type_of(args: &Args) -> (r: Result<Value, Error>)
    ensures
        value_matches(r, type_of_spec(args@)),
{
    match args.max_args(1, "type-of") {
        Err(e) => {
            return Err(e);
        },
        Ok(_) => {},
    }
    match require(args, 0, "value") {
        Err(e) => Err(e),
        Ok(v) => Ok(Value::Ident(String::from_str(v.kind()), QuoteKind::Unquoted)),
    }
}

/// `unitless(number)`: false for a number with a unit, true for
/// everything else.
pub fn unitless(args: &Args) -> (r: Result<Value, Error>)
    ensures
        value_matches(r, unitless_spec(args@)),
{
    match args.max_args(1, "unitless") {
        Err(e) => {
            return Err(e);
        },
        Ok(_) => {},
    }
    match require(args, 0, "number") {
        Err(e) => Err(e),
        Ok(v) => match v {
            Value::Dimension(_, u) => Ok(Value::bool(*u == Unit::Unitless)),
            _ => Ok(Value::True),
        },
    }
}

/// `inspect(value)`: the value as a stylesheet would write it.
pub fn inspect(args: &Args) -> (r: Result<Value, Error>)
    ensures
        value_matches(r, inspect_spec(args@)),
{
    match args.max_args(1, "inspect") {
        Err(e) => {
            return Err(e);
        },
        Ok(_) => {},
    }
    match require(args, 0, "value") {
        Err(e) => Err(e),
        Ok(v) => Ok(Value::Ident(v.inspect(), QuoteKind::Unquoted)),
    }
}

/// `variable-exists(name)`: whether the chain of frames binds the
/// variable.
pub fn variable_exists(args: &Args, scope: &Scope) -> (r: Result<Value, Error>)
    ensures
        value_matches(r, variable_exists_spec(args@, *scope)),
{
    match args.max_args(1, "variable-exists") {
        Err(e) => {
            return Err(e);
        },
        Ok(_) => {},
    }
    match require_name(args, "name") {
        Err(e) => Err(e),
        Ok(s) => Ok(Value::bool(scope.var_exists(s))),
    }
}

/// `global-variable-exists(name)`: whether the global tier binds the
/// variable.
pub fn global_variable_exists(args: &Args, scope: &Scope) -> (r: Result<Value, Error>)
    requires
        scope.wf(),
    ensures
        value_matches(r, global_variable_exists_spec(args@, *scope)),
{
    match args.max_args(1, "global-variable-exists") {
        Err(e) => {
            return Err(e);
        },
        Ok(_) => {},
    }
    match require_name(args, "name") {
        Err(e) => Err(e),
        Ok(s) => Ok(Value::bool(scope.global_var_exists(s))),
    }
}

/// `mixin-exists(name)`: whether the chain of frames binds the mixin.
pub fn mixin_exists(args: &Args, scope: &Scope) -> (r: Result<Value, Error>)
    ensures
        value_matches(r, mixin_exists_spec(args@, *scope)),
{
    match args.max_args(2, "mixin-exists") {
        Err(e) => {
            return Err(e);
        },
        Ok(_) => {},
    }
    match require_name(args, "name") {
        Err(e) => Err(e),
        Ok(s) => Ok(Value::bool(scope.mixin_exists(s))),
    }
}

/// The function that `name` stands for: one declared in scope, or else a
/// builtin of the registry.
pub fn resolve(name: &String, scope: &Scope, registry: &Table<Builtin>) -> (r: Option<SassFunction>)
    ensures
        match r {
            Some(f) => resolve_spec(name@, *scope, *registry) == Some(f@),
            None => resolve_spec(name@, *scope, *registry).is_none(),
        },
{
    match scope.get_fn(name, Span::new(0, 0)) {
        Ok(d) => Some(SassFunction::UserDefined(d, name.clone())),
        Err(_) => match registry.get(name) {
            Some(b) => Some(SassFunction::Builtin(*b, name.clone())),
            None => None,
        },
    }
}

/// `function-exists(name)`: whether the name stands for a function, in
/// scope or in the registry.
pub fn function_exists(args: &Args, scope: &Scope, registry: &Table<Builtin>) -> (r: Result<
    Value,
    Error,
>)
    ensures
        value_matches(r, function_exists_spec(args@, *scope, *registry)),
{
    match args.max_args(2, "function-exists") {
        Err(e) => {
            return Err(e);
        },
        Ok(_) => {},
    }
    match require_name(args, "name") {
        Err(e) => Err(e),
        Ok(s) => Ok(Value::bool(scope.fn_exists(s) || registry.contains_key(s))),
    }
}

/// `get-function(name, css, module)`: the function that the name stands
/// for, as a value.
pub fn get_function(args: &Args, scope: &Scope, registry: &Table<Builtin>) -> (r: Result<
    Value,
    Error,
>)
    ensures
        value_matches(r, get_function_spec(args@, *scope, *registry)),
{
    match args.max_args(3, "get-function") {
        Err(e) => {
            return Err(e);
        },
        Ok(_) => {},
    }
    let name = match require_name(args, "name") {
        Err(e) => {
            return Err(e);
        },
        Ok(s) => s,
    };
    let css = match args.get(1, "css") {
        Some(v) => v.is_true(),
        None => false,
    };
    let has_module = match args.get(2, "module") {
        Some(v) => match v {
            Value::Ident(_, _) => true,
            Value::Null => false,
            _ => {
                return Err(type_failure("module", v, "a string", args.span));
            },
        },
        None => false,
    };
    if has_module && css {
        return Err(
            Error::from_text("$css and $module may not both be passed at once.", args.span),
        );
    }
    match resolve(name, scope, registry) {
        Some(f) => Ok(Value::Function(f)),
        None => Err(not_found(name, args.span)),
    }
}

fn as_value_outcome(r: Result<Value, Error>) -> (o: Result<Outcome, Error>)
    ensures
        forall|s: Result<ValueView, (Seq<char>, Span)>|
            value_matches(r, s) ==> outcome_matches(o, #[trigger] as_outcome(s)),
{
    match r {
        Ok(v) => Ok(Outcome::Value(v)),
        Err(e) => Err(e),
    }
}

/// `call(function, ...)`: invokes the function in the first argument on
/// the arguments that follow it.
pub fn call(args: Args, scope: &Scope, registry: &Table<Builtin>, depth: usize) -> (r: Result<
    Outcome,
    Error,
>)
    requires
        scope.wf(),
    ensures
        outcome_matches(r, call_spec(args@, *scope, *registry, depth as nat)),
    decreases MAX_CALL_DEPTH - depth, 1int,
{
    let function = match require(&args, 0, "function") {
        Err(e) => {
            return Err(e);
        },
        Ok(v) => match v {
            Value::Function(f) => f.clone(),
            _ => {
                return Err(type_failure("function", v, "a function reference", args.span));
            },
        },
    };
    invoke(&function, args.decrement(), scope, registry, depth)
}

/// Invokes a function at call depth `depth`. A declared function is
/// handed back for the evaluator to run; a builtin is run one level
/// deeper.
pub fn invoke(
    function: &SassFunction,
    args: Args,
    scope: &Scope,
    registry: &Table<Builtin>,
    depth: usize,
) -> (r: Result<Outcome, Error>)
    requires
        scope.wf(),
    ensures
        outcome_matches(r, invoke_spec(function@, args@, *scope, *registry, depth as nat)),
    decreases MAX_CALL_DEPTH - depth, 0int,
{
    if depth >= MAX_CALL_DEPTH {
        return Err(Error::from_text("Maximum call depth exceeded.", args.span));
    }
    match function {
        SassFunction::UserDefined(d, _) => Ok(Outcome::Invoke(d.clone(), args)),
        SassFunction::Builtin(b, _) => call_builtin(*b, args, scope, registry, depth + 1),
    }
}

/// Runs a builtin on its arguments.
pub fn call_builtin(
    builtin: Builtin,
    args: Args,
    scope: &Scope,
    registry: &Table<Builtin>,
    depth: usize,
) -> (r: Result<Outcome, Error>)
    requires
        scope.wf(),
    ensures
        outcome_matches(r, builtin_spec(builtin, args@, *scope, *registry, depth as nat)),
    decreases MAX_CALL_DEPTH - depth, 2int,
{
    match builtin {
        Builtin::If => as_value_outcome(builtin_if(&args)),
        Builtin::FeatureExists => as_value_outcome(feature_exists(&args)),
        Builtin::Unit => as_value_outcome(unit(&args)),
        Builtin::TypeOf => as_value_outcome(type_of(&args)),
        Builtin::Unitless => as_value_outcome(unitless(&args)),
        Builtin::Inspect => as_value_outcome(inspect(&args)),
        Builtin::VariableExists => as_value_outcome(variable_exists(&args, scope)),
        Builtin::GlobalVariableExists => as_value_outcome(global_variable_exists(&args, scope)),
        Builtin::MixinExists => as_value_outcome(mixin_exists(&args, scope)),
        Builtin::FunctionExists => as_value_outcome(function_exists(&args, scope, registry)),
        Builtin::GetFunction => as_value_outcome(get_function(&args, scope, registry)),
        Builtin::Call => call(args, scope, registry, depth),
    }
}

/// Calls the function that `name` stands for.
pub fn invoke_by_name(
    name: &String,
    args: Args,
    scope: &Scope,
    registry: &Table<Builtin>,
    depth: usize,
) -> (r: Result<Outcome, Error>)
    requires
        scope.wf(),
    ensures
        outcome_matches(r, invoke_by_name_spec(name@, args@, *scope, *registry, depth as nat)),
{
    match resolve(name, scope, registry) {
        Some(f) => invoke(&f, args, scope, registry, depth),
        None => Err(not_found(name, args.span)),
    }
}

fn bind(f: &mut Table<Builtin>, name: &str, builtin: Builtin)
    ensures
        forall|n: Seq<char>| #[trigger]
            final(f).find(n) == if n == name@ {
                Some(builtin)
            } else {
                old(f).find(n)
            },
{
    let ghost before = f.entries();
    let key = String::from_str(name);
    let ghost entry = Entry { name: key, value: builtin };
    f.insert(key, builtin);
    proof {
        assert forall|n: Seq<char>| #[trigger]
            f.find(n) == if n == name@ {
                Some(builtin)
            } else {
                find_in(before, n)
            } by {
            lemma_find_after_push(before, entry, n);
        }
    }
}

/// Registers the builtins of this module, each under its name. A name
/// that was bound before now finds the builtin.
pub fn register(f: &mut Table<Builtin>)
    ensures
        forall|n: Seq<char>| #[trigger]
            final(f).find(n) == match builtin_named(n) {
                Some(b) => Some(b),
                None => old(f).find(n),
            },
{
    bind(f, "if", Builtin::If);
    bind(f, "feature-exists", Builtin::FeatureExists);
    bind(f, "unit", Builtin::Unit);
    bind(f, "type-of", Builtin::TypeOf);
    bind(f, "unitless", Builtin::Unitless);
    bind(f, "inspect", Builtin::Inspect);
    bind(f, "variable-exists", Builtin::VariableExists);
    bind(f, "global-variable-exists", Builtin::GlobalVariableExists);
    bind(f, "mixin-exists", Builtin::MixinExists);
    bind(f, "function-exists", Builtin::FunctionExists);
    bind(f, "get-function", Builtin::GetFunction);
    bind(f, "call", Builtin::Call);
}

/// The arguments of a call with one positional argument.
pub open spec fn one_arg(v: ValueView, span: Span) -> ArgsView {
    ArgsView { positional: seq![v], named: Seq::empty(), span }
}

/// The arguments `rest` with `v` put before them.
pub open spec fn with_first(v: ValueView, rest: ArgsView) -> ArgsView {
    ArgsView { positional: seq![v] + rest.positional, named: rest.named, span: rest.span }
}

/// The unit of a number is the text of its unit, the same at every call,
/// and `unitless` is true of the number exactly where that text is empty.
pub proof fn lemma_unitless_iff_unit_empty(n: i64, u: Unit, span: Span)
    ensures
        unit_spec(one_arg(ValueView::Dimension(n, u), span)) == Ok::<
            ValueView,
            (Seq<char>, Span),
        >(ValueView::Ident(u.name_spec(), QuoteKind::Unquoted)),
        unitless_spec(one_arg(ValueView::Dimension(n, u), span)) == Ok::<
            ValueView,
            (Seq<char>, Span),
        >(bool_view(u.name_spec().len() == 0)),
{
    u.lemma_name_empty();
}

/// Whatever the arguments, where `unit` returns a text, `unitless`
/// returns whether that text is empty.
pub proof fn lemma_unit_and_unitless_agree(a: ArgsView)
    ensures
        match unit_spec(a) {
            Ok(ValueView::Ident(s, _)) => unitless_spec(a) == Ok::<ValueView, (Seq<char>, Span)>(
                bool_view(s.len() == 0),
            ),
            _ => true,
        },
{
    match required(a, 0, "number"@) {
        Ok(ValueView::Dimension(_, u)) => {
            u.lemma_name_empty();
        },
        _ => {},
    }
}

/// `type-of` of one value never fails: it returns the name of the
/// value's type, unquoted.
pub proof fn lemma_type_of_total(v: ValueView, span: Span)
    ensures
        type_of_spec(one_arg(v, span)) == Ok::<ValueView, (Seq<char>, Span)>(
            ValueView::Ident(v.kind(), QuoteKind::Unquoted),
        ),
{
}

/// `function-exists` is true of a name exactly where `get-function`
/// finds a function for it.
pub proof fn lemma_function_exists_iff_get_function(
    name: Seq<char>,
    quotes: QuoteKind,
    span: Span,
    scope: Scope,
    registry: Table<Builtin>,
)
    ensures
        function_exists_spec(one_arg(ValueView::Ident(name, quotes), span), scope, registry)
            == Ok::<ValueView, (Seq<char>, Span)>(ValueView::True) <==> get_function_spec(
            one_arg(ValueView::Ident(name, quotes), span),
            scope,
            registry,
        ).is_ok(),
{
}

/// `call` on what `get-function` found for a name comes to what calling
/// the function by that name comes to, on the same arguments, for a
/// declared function and for a builtin.
pub proof fn lemma_call_of_get_function(
    name: Seq<char>,
    quotes: QuoteKind,
    span: Span,
    rest: ArgsView,
    scope: Scope,
    registry: Table<Builtin>,
    depth: nat,
)
    ensures
        match get_function_spec(one_arg(ValueView::Ident(name, quotes), span), scope, registry) {
            Ok(f) => call_spec(with_first(f, rest), scope, registry, depth) == invoke_by_name_spec(
                name,
                rest,
                scope,
                registry,
                depth,
            ),
            Err(_) => resolve_spec(name, scope, registry).is_none(),
        },
{
    match get_function_spec(one_arg(ValueView::Ident(name, quotes), span), scope, registry) {
        Ok(f) => {
            assert(with_first(f, rest).decrement() == rest) by {
                assert((seq![f] + rest.positional).remove(0) =~= rest.positional);
            }
        },
        Err(_) => {},
    }
}

} // verus!
