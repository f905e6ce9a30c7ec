//! The arguments of one call: positional ones in order, named ones, and
//! the call site they were written at.

use vstd::prelude::*;
use crate::error::Error;
use crate::span::Span;
use crate::value::{digits_spec, push_digits, Value, ValueView};

verus! {

#[derive(Debug, PartialEq, Eq)]
pub struct NamedArg {
    pub name: String,
    pub value: Value,
}

#[derive(Debug, PartialEq, Eq)]
pub struct Args {
    pub positional: Vec<Value>,
    pub named: Vec<NamedArg>,
    pub span: Span,
}

pub struct ArgsView {
    pub positional: Seq<ValueView>,
    pub named: Seq<(Seq<char>, ValueView)>,
    pub span: Span,
}

/// The value of the first named argument called `name` at or after `k`.
pub open spec fn named_from(named: Seq<(Seq<char>, ValueView)>, k: int, name: Seq<char>) -> Option<
    ValueView,
>
    decreases named.len() - k,
{
    if k < 0 || k >= named.len() {
        None
    } else if named[k].0 == name {
        Some(named[k].1)
    } else {
        named_from(named, k + 1, name)
    }
}

/// The message for a call with more than `max` arguments.
pub open spec fn arity_error(function: Seq<char>, max: nat) -> Seq<char> {
    "Only "@ + digits_spec(max) + " arguments allowed for "@ + function + "."@
}

impl ArgsView {
    pub open spec fn count(self) -> nat {
        self.positional.len() + self.named.len()
    }

    /// The argument in slot `index`, or else the one passed as `name`.
    pub open spec fn arg(self, index: nat, name: Seq<char>) -> Option<ValueView> {
        if index < self.positional.len() {
            Some(self.positional[index as int])
        } else {
            named_from(self.named, 0, name)
        }
    }

    /// The arguments without the first positional slot.
    pub open spec fn decrement(self) -> ArgsView {
        if self.positional.len() > 0 {
            ArgsView {
                positional: self.positional.remove(0),
                named: self.named,
                span: self.span,
            }
        } else {
            self
        }
    }
}

impl View for Args {
    type V = ArgsView;

    open spec fn view(&self) -> ArgsView {
        ArgsView {
            positional: Seq::new(self.positional@.len(), |i: int| self.positional@[i]@),
            named: Seq::new(
                self.named@.len(),
                |i: int| (self.named@[i].name@, self.named@[i].value@),
            ),
            span: self.span,
        }
    }
}

impl Args {
    pub fn new(positional: Vec<Value>, named: Vec<NamedArg>, span: Span) -> (r: Args)
        ensures
            r.positional == positional,
            r.named == named,
            r.span == span,
    {
        Args { positional, named, span }
    }

    /// Fails where more than `max` arguments were passed to `function`.
    pub fn max_args(&self, max: usize, function: &str) -> (r: Result<(), Error>)
        ensures
            match r {
                Ok(_) => self@.count() <= max,
                Err(e) => self@.count() > max && e.message@ == arity_error(function@, max as nat)
                    && e.span == self.span,
            },
    {
        if self.positional.len() > max || self.named.len() > max - self.positional.len() {
            let mut message = String::from_str("Only ");
            push_digits(&mut message, max as u64);
            message.append(" arguments allowed for ");
            message.append(function);
            message.append(".");
            Err(Error::new(message, self.span))
        } else {
            Ok(())
        }
    }

    /// The argument in slot `index`, or else the one passed as `name`.
    pub fn get(&self, index: usize, name: &str) -> (r: Option<&Value>)
        ensures
            match r {
                Some(v) => self@.arg(index as nat, name@) == Some(v@),
                None => self@.arg(index as nat, name@).is_none(),
            },
    {
        if index < self.positional.len() {
            return Some(&self.positional[index]);
        }
        let wanted = String::from_str(name);
        let mut k: usize = 0;
        while k < self.named.len()
            invariant
                k <= self.named@.len(),
                index >= self.positional@.len(),
                wanted@ == name@,
                named_from(self@.named, 0, name@) == named_from(self@.named, k as int, name@),
            decreases self.named@.len() - k,
        {
            assert(self@.named[k as int] == (
                self.named@[k as int].name@,
                self.named@[k as int].value@,
            ));
            if self.named[k].name == wanted {
                return Some(&self.named[k].value);
            }
            k = k + 1;
        }
        None
    }

    /// Drops the first positional slot.
    pub fn decrement(self) -> (r: Args)
        ensures
            r@ == self@.decrement(),
    {
        let mut rest = self;
        if rest.positional.len() > 0 {
            rest.positional.remove(0);
            assert(rest@.positional =~= self@.positional.remove(0));
            assert(rest@.named =~= self@.named);
        }
        rest
    }
}

} // verus!
