//! The chain of nested frames in which names are looked up, innermost
//! first, down to the global tier.

use vstd::prelude::*;
use crate::error::Error;
use crate::span::Span;
use crate::table::{chain_find, chain_get, Entry, Table};
use crate::value::{FunctionDeclaration, MixinDeclaration, Value};

verus! {

pub struct Scope {
    vars: Vec<Table<Value>>,
    mixins: Vec<Table<MixinDeclaration>>,
    functions: Vec<Table<FunctionDeclaration>>,
}

impl Scope {
    /// The variables of each frame; the global tier is first and the
    /// innermost frame last.
    pub closed spec fn var_frames(&self) -> Seq<Table<Value>> {
        self.vars@
    }

    pub closed spec fn mixin_frames(&self) -> Seq<Table<MixinDeclaration>> {
        self.mixins@
    }

    pub closed spec fn fn_frames(&self) -> Seq<Table<FunctionDeclaration>> {
        self.functions@
    }

    /// The global tier is there, and every frame holds all three
    /// namespaces.
    pub open spec fn wf(&self) -> bool {
        self.var_frames().len() >= 1 && self.mixin_frames().len() == self.var_frames().len()
            && self.fn_frames().len() == self.var_frames().len()
    }

    pub open spec fn find_var(&self, name: Seq<char>) -> Option<Value> {
        chain_find(self.var_frames(), name)
    }

    pub open spec fn find_global_var(&self, name: Seq<char>) -> Option<Value> {
        self.var_frames()[0].find(name)
    }

    pub open spec fn find_mixin(&self, name: Seq<char>) -> Option<MixinDeclaration> {
        chain_find(self.mixin_frames(), name)
    }

    pub open spec fn find_fn(&self, name: Seq<char>) -> Option<FunctionDeclaration> {
        chain_find(self.fn_frames(), name)
    }

    /// A scope of the global tier alone, with nothing bound.
    pub fn new() -> (r: Scope)
        ensures
            r.wf(),
            r.var_frames().len() == 1,
            r.var_frames()[0].entries().len() == 0,
            r.mixin_frames()[0].entries().len() == 0,
            r.fn_frames()[0].entries().len() == 0,
    {
        let mut vars = Vec::new();
        vars.push(Table::new());
        let mut mixins = Vec::new();
        mixins.push(Table::new());
        let mut functions = Vec::new();
        functions.push(Table::new());
        Scope { vars, mixins, functions }
    }

    /// Enters a nested block: an empty frame becomes the innermost.
    pub fn enter(&mut self)
        requires
            old(self).wf(),
        ensures
            final(self).wf(),
            final(self).var_frames().drop_last() == old(self).var_frames(),
            final(self).mixin_frames().drop_last() == old(self).mixin_frames(),
            final(self).fn_frames().drop_last() == old(self).fn_frames(),
            final(self).var_frames().last().entries().len() == 0,
            final(self).mixin_frames().last().entries().len() == 0,
            final(self).fn_frames().last().entries().len() == 0,
    {
        self.vars.push(Table::new());
        self.mixins.push(Table::new());
        self.functions.push(Table::new());
        proof {
            assert(self.vars@.drop_last() =~= old(self).vars@);
            assert(self.mixins@.drop_last() =~= old(self).mixins@);
            assert(self.functions@.drop_last() =~= old(self).functions@);
        }
    }

    /// Leaves the innermost frame. The global tier is never left.
    pub fn exit(&mut self)
        requires
            old(self).wf(),
        ensures
            final(self).wf(),
            old(self).var_frames().len() > 1 ==> final(self).var_frames() == old(
                self).var_frames().drop_last() && final(self).mixin_frames() == old(
                self).mixin_frames().drop_last() && final(self).fn_frames() == old(
                self).fn_frames().drop_last(),
            old(self).var_frames().len() == 1 ==> final(self).var_frames() == old(
                self).var_frames() && final(self).mixin_frames() == old(self).mixin_frames()
                && final(self).fn_frames() == old(self).fn_frames(),
    {
        if self.vars.len() > 1 {
            self.vars.pop();
            self.mixins.pop();
            self.functions.pop();
            proof {
                assert(self.vars@ =~= old(self).vars@.drop_last());
                assert(self.mixins@ =~= old(self).mixins@.drop_last());
                assert(self.functions@ =~= old(self).functions@.drop_last());
            }
        }
    }

    /// Binds a variable in the innermost frame.
    pub fn insert_var(&mut self, name: String, value: Value)
        requires
            old(self).wf(),
        ensures
            final(self).wf(),
            final(self).mixin_frames() == old(self).mixin_frames(),
            final(self).fn_frames() == old(self).fn_frames(),
            final(self).var_frames().len() == old(self).var_frames().len(),
            final(self).var_frames().drop_last() == old(self).var_frames().drop_last(),
            final(self).var_frames().last().entries() == old(
                self).var_frames().last().entries().push(Entry { name, value }),
    {
        match self.vars.pop() {
            Some(top) => {
                let mut top = top;
                top.insert(name, value);
                self.vars.push(top);
                proof {
                    assert(self.vars@.drop_last() =~= old(self).vars@.drop_last());
                }
            },
            None => {},
        }
    }

    /// Binds a variable in the global tier, whatever the depth of the
    /// chain.
    pub fn insert_global_var(&mut self, name: String, value: Value)
        requires
            old(self).wf(),
        ensures
            final(self).wf(),
            final(self).mixin_frames() == old(self).mixin_frames(),
            final(self).fn_frames() == old(self).fn_frames(),
            final(self).var_frames().len() == old(self).var_frames().len(),
            forall|i: int|
                1 <= i < old(self).var_frames().len() ==> final(self).var_frames()[i] == old(
                    self).var_frames()[i],
            final(self).var_frames()[0].entries() == old(self).var_frames()[0].entries().push(
                Entry { name, value },
            ),
    {
        let mut bottom = self.vars.remove(0);
        bottom.insert(name, value);
        self.vars.insert(0, bottom);
    }

    /// Binds a mixin in the innermost frame.
    pub fn insert_mixin(&mut self, name: String, mixin: MixinDeclaration)
        requires
            old(self).wf(),
        ensures
            final(self).wf(),
            final(self).var_frames() == old(self).var_frames(),
            final(self).fn_frames() == old(self).fn_frames(),
            final(self).mixin_frames().len() == old(self).mixin_frames().len(),
            final(self).mixin_frames().drop_last() == old(self).mixin_frames().drop_last(),
            final(self).mixin_frames().last().entries() == old(
                self).mixin_frames().last().entries().push(Entry { name, value: mixin }),
    {
        match self.mixins.pop() {
            Some(top) => {
                let mut top = top;
                top.insert(name, mixin);
                self.mixins.push(top);
                proof {
                    assert(self.mixins@.drop_last() =~= old(self).mixins@.drop_last());
                }
            },
            None => {},
        }
    }

    /// Binds a function in the innermost frame.
    pub fn insert_fn(&mut self, name: String, function: FunctionDeclaration)
        requires
            old(self).wf(),
        ensures
            final(self).wf(),
            final(self).var_frames() == old(self).var_frames(),
            final(self).mixin_frames() == old(self).mixin_frames(),
            final(self).fn_frames().len() == old(self).fn_frames().len(),
            final(self).fn_frames().drop_last() == old(self).fn_frames().drop_last(),
            final(self).fn_frames().last().entries() == old(
                self).fn_frames().last().entries().push(Entry { name, value: function }),
    {
        match self.functions.pop() {
            Some(top) => {
                let mut top = top;
                top.insert(name, function);
                self.functions.push(top);
                proof {
                    assert(self.functions@.drop_last() =~= old(self).functions@.drop_last());
                }
            },
            None => {},
        }
    }

    pub fn var_exists(&self, name: &String) -> (r: bool)
        ensures
            r == self.find_var(name@).is_some(),
    {
        chain_get(&self.vars, name).is_some()
    }

    /// Whether the global tier itself binds the variable.
    pub fn global_var_exists(&self, name: &String) -> (r: bool)
        requires
            self.wf(),
        ensures
            r == self.find_global_var(name@).is_some(),
    {
        self.vars[0].contains_key(name)
    }

    pub fn mixin_exists(&self, name: &String) -> (r: bool)
        ensures
            r == self.find_mixin(name@).is_some(),
    {
        chain_get(&self.mixins, name).is_some()
    }

    pub fn fn_exists(&self, name: &String) -> (r: bool)
        ensures
            r == self.find_fn(name@).is_some(),
    {
        chain_get(&self.functions, name).is_some()
    }

    /// The declaration that `name` finds; `span` is blamed where it finds
    /// none.
    pub fn get_fn(&self, name: &String, span: Span) -> (r: Result<FunctionDeclaration, Error>)
        ensures
            match r {
                Ok(d) => self.find_fn(name@) == Some(d),
                Err(e) => self.find_fn(name@).is_none() && e.message@ == "Undefined function."@
                    && e.span == span,
            },
    {
        match chain_get(&self.functions, name) {
            Some(d) => Ok(d.clone()),
            None => Err(Error::from_text("Undefined function.", span)),
        }
    }
}

} // verus!
