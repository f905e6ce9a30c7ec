//! The dynamically typed values of SassScript.

use vstd::prelude::*;

verus! {

/// How a string was quoted where it was written.
#[derive(Clone, Copy, Debug, PartialEq, Eq, Structural)]
pub enum QuoteKind {
    Unquoted,
    Double,
    Single,
}

/// The unit of a number, or that it has none.
#[derive(Clone, Copy, Debug, PartialEq, Eq, Structural)]
pub enum Unit {
    Unitless,
    Px,
    Em,
    Rem,
    Percent,
    Deg,
    Sec,
    Ms,
}

/// The builtin functions, by the key under which the registry holds them.
#[derive(Clone, Copy, Debug, PartialEq, Eq, Structural)]
pub enum Builtin {
    If,
    FeatureExists,
    Unit,
    TypeOf,
    Unitless,
    Inspect,
    VariableExists,
    GlobalVariableExists,
    MixinExists,
    FunctionExists,
    GetFunction,
    Call,
}

/// A function that a stylesheet declared. The evaluator owns its body and
/// finds it by `body`.
#[derive(Debug, PartialEq, Eq)]
pub struct FunctionDeclaration {
    pub name: String,
    pub body: u64,
}

/// A mixin that a stylesheet declared.
#[derive(Debug, PartialEq, Eq)]
pub struct MixinDeclaration {
    pub name: String,
    pub body: u64,
}

/// A function as a value: a declaration captured from a scope, or the
/// registry key of a builtin. Each carries the name it was found under.
#[derive(Debug, PartialEq, Eq)]
pub enum SassFunction {
    UserDefined(FunctionDeclaration, String),
    Builtin(Builtin, String),
}

#[derive(Debug, PartialEq, Eq)]
pub enum Value {
    Dimension(i64, Unit),
    Ident(String, QuoteKind),
    True,
    False,
    Null,
    Function(SassFunction),
}

pub struct FunctionDeclarationView {
    pub name: Seq<char>,
    pub body: u64,
}

pub enum SassFunctionView {
    UserDefined(FunctionDeclarationView, Seq<char>),
    Builtin(Builtin, Seq<char>),
}

pub enum ValueView {
    Dimension(i64, Unit),
    Ident(Seq<char>, QuoteKind),
    True,
    False,
    Null,
    Function(SassFunctionView),
}

impl View for FunctionDeclaration {
    type V = FunctionDeclarationView;

    open spec fn view(&self) -> FunctionDeclarationView {
        FunctionDeclarationView { name: self.name@, body: self.body }
    }
}

impl View for SassFunction {
    type V = SassFunctionView;

    open spec fn view(&self) -> SassFunctionView {
        match self {
            SassFunction::UserDefined(d, n) => SassFunctionView::UserDefined(d@, n@),
            SassFunction::Builtin(b, n) => SassFunctionView::Builtin(*b, n@),
        }
    }
}

impl View for Value {
    type V = ValueView;

    open spec fn view(&self) -> ValueView {
        match self {
            Value::Dimension(n, u) => ValueView::Dimension(*n, *u),
            Value::Ident(s, q) => ValueView::Ident(s@, *q),
            Value::True => ValueView::True,
            Value::False => ValueView::False,
            Value::Null => ValueView::Null,
            Value::Function(f) => ValueView::Function(f@),
        }
    }
}

impl Clone for FunctionDeclaration {
    fn clone(&self) -> (r: Self)
        ensures
            r == *self,
    {
        FunctionDeclaration { name: self.name.clone(), body: self.body }
    }
}

impl Clone for MixinDeclaration {
    fn clone(&self) -> (r: Self)
        ensures
            r == *self,
    {
        MixinDeclaration { name: self.name.clone(), body: self.body }
    }
}

impl Clone for SassFunction {
    fn clone(&self) -> (r: Self)
        ensures
            r == *self,
    {
        match self {
            SassFunction::UserDefined(d, n) => SassFunction::UserDefined(d.clone(), n.clone()),
            SassFunction::Builtin(b, n) => SassFunction::Builtin(*b, n.clone()),
        }
    }
}

impl Clone for Value {
    fn clone(&self) -> (r: Self)
        ensures
            r == *self,
    {
        match self {
            Value::Dimension(n, u) => Value::Dimension(*n, *u),
            Value::Ident(s, q) => Value::Ident(s.clone(), *q),
            Value::True => Value::True,
            Value::False => Value::False,
            Value::Null => Value::Null,
            Value::Function(f) => Value::Function(f.clone()),
        }
    }
}

/// The decimal digit for a value below ten.
pub open spec fn digit_spec(d: nat) -> char {
    (0x30 + d) as char
}

/// A natural number in decimal, without leading zeros.
pub open spec fn digits_spec(n: nat) -> Seq<char>
    decreases n,
{
    if n < 10 {
        seq![digit_spec(n)]
    } else {
        digits_spec(n / 10).push(digit_spec(n % 10))
    }
}

/// An integer in decimal, with `-` before a negative one.
pub open spec fn decimal_spec(n: int) -> Seq<char> {
    if n < 0 {
        seq!['-'] + digits_spec((-n) as nat)
    } else {
        digits_spec(n as nat)
    }
}

/// Appends a natural number in decimal.
pub fn push_digits(buf: &mut String, n: u64)
    ensures
        final(buf)@ == old(buf)@ + digits_spec(n as nat),
    decreases n,
{
    if n >= 10 {
        push_digits(buf, n / 10);
    }
    let d: u8 = (n % 10) as u8;
    buf.push((0x30u8 + d) as char);
    proof {
        if n >= 10 {
            assert(buf@ =~= old(buf)@ + digits_spec(n as nat));
        } else {
            assert(buf@ =~= old(buf)@ + digits_spec(n as nat));
        }
    }
}

/// Appends an integer in decimal.
pub fn push_decimal(buf: &mut String, n: i64)
    ensures
        final(buf)@ == old(buf)@ + decimal_spec(n as int),
{
    if n < 0 {
        buf.push('-');
        let magnitude: u64 = ((-(n + 1)) as u64) + 1;
        push_digits(buf, magnitude);
        assert(buf@ =~= old(buf)@ + decimal_spec(n as int));
    } else {
        push_digits(buf, n as u64);
    }
}

impl Unit {
    /// The unit as it is written; empty for no unit.
    pub open spec fn name_spec(self) -> Seq<char> {
        match self {
            Unit::Unitless => ""@,
            Unit::Px => "px"@,
            Unit::Em => "em"@,
            Unit::Rem => "rem"@,
            Unit::Percent => "%"@,
            Unit::Deg => "deg"@,
            Unit::Sec => "s"@,
            Unit::Ms => "ms"@,
        }
    }

    pub fn as_str(&self) -> (r: &'static str)
        ensures
            r@ == self.name_spec(),
    {
        match self {
            Unit::Unitless => "",
            Unit::Px => "px",
            Unit::Em => "em",
            Unit::Rem => "rem",
            Unit::Percent => "%",
            Unit::Deg => "deg",
            Unit::Sec => "s",
            Unit::Ms => "ms",
        }
    }

    /// Only `Unit::Unitless` is written as the empty text.
    pub proof fn lemma_name_empty(self)
        ensures
            self.name_spec().len() == 0 <==> self == Unit::Unitless,
    {
        reveal_strlit("");
        reveal_strlit("px");
        reveal_strlit("em");
        reveal_strlit("rem");
        reveal_strlit("%");
        reveal_strlit("deg");
        reveal_strlit("s");
        reveal_strlit("ms");
    }
}

impl SassFunctionView {
    /// The name that the function was found under.
    pub open spec fn name(self) -> Seq<char> {
        match self {
            SassFunctionView::UserDefined(_, n) => n,
            SassFunctionView::Builtin(_, n) => n,
        }
    }
}

impl ValueView {
    /// Everything is true but `false` and `null`.
    pub open spec fn is_true(self) -> bool {
        !(self == ValueView::False || self == ValueView::Null)
    }

    /// The name of the value's type.
    pub open spec fn kind(self) -> Seq<char> {
        match self {
            ValueView::Dimension(_, _) => "number"@,
            ValueView::Ident(_, _) => "string"@,
            ValueView::True => "bool"@,
            ValueView::False => "bool"@,
            ValueView::Null => "null"@,
            ValueView::Function(_) => "function"@,
        }
    }

    /// The value as a stylesheet would write it.
    pub open spec fn inspect(self) -> Seq<char> {
        match self {
            ValueView::Dimension(n, u) => decimal_spec(n as int) + u.name_spec(),
            ValueView::Ident(s, q) => match q {
                QuoteKind::Unquoted => s,
                QuoteKind::Double => seq!['"'] + s + seq!['"'],
                QuoteKind::Single => seq!['\''] + s + seq!['\''],
            },
            ValueView::True => "true"@,
            ValueView::False => "false"@,
            ValueView::Null => "null"@,
            ValueView::Function(f) => "get-function(\""@ + f.name() + "\")"@,
        }
    }
}

impl SassFunction {
    pub fn name(&self) -> (r: &String)
        ensures
            r@ == self@.name(),
    {
        match self {
            SassFunction::UserDefined(_, n) => n,
            SassFunction::Builtin(_, n) => n,
        }
    }
}

impl Value {
    /// `Value::True` or `Value::False`.
    pub fn bool(b: bool) -> (r: Value)
        ensures
            r@ == bool_view(b),
    {
        if b {
            Value::True
        } else {
            Value::False
        }
    }

    pub fn is_true(&self) -> (r: bool)
        ensures
            r == self@.is_true(),
    {
        match self {
            Value::False => false,
            Value::Null => false,
            _ => true,
        }
    }

    pub fn kind(&self) -> (r: &'static str)
        ensures
            r@ == self@.kind(),
    {
        match self {
            Value::Dimension(_, _) => "number",
            Value::Ident(_, _) => "string",
            Value::True => "bool",
            Value::False => "bool",
            Value::Null => "null",
            Value::Function(_) => "function",
        }
    }

    pub fn inspect(&self) -> (r: String)
        ensures
            r@ == self@.inspect(),
    {
        match self {
            Value::Dimension(n, u) => {
                let mut buf = String::new();
                push_decimal(&mut buf, *n);
                buf.append(u.as_str());
                assert(buf@ =~= self@.inspect());
                buf
            },
            Value::Ident(s, q) => {
                let mut buf = String::new();
                match q {
                    QuoteKind::Unquoted => {
                        buf.append(s.as_str());
                    },
                    QuoteKind::Double => {
                        buf.push('"');
                        buf.append(s.as_str());
                        buf.push('"');
                    },
                    QuoteKind::Single => {
                        buf.push('\'');
                        buf.append(s.as_str());
                        buf.push('\'');
                    },
                }
                assert(buf@ =~= self@.inspect());
                buf
            },
            Value::True => String::from_str("true"),
            Value::False => String::from_str("false"),
            Value::Null => String::from_str("null"),
            Value::Function(f) => {
                let mut buf = String::from_str("get-function(\"");
                buf.append(f.name().as_str());
                buf.append("\")");
                buf
            },
        }
    }
}

pub open spec fn bool_view(b: bool) -> ValueView {
    if b {
        ValueView::True
    } else {
        ValueView::False
    }
}

} // verus!
