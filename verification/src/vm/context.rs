//! The state of one evaluation: the variables and the value stack.

use vstd::prelude::*;
use vstd::string::StringExecFns;
use crate::vm::object::ValueMap;
use crate::vm::value::{lemma_views_of, lemma_views_of_push, views_of, Value, ValueView};

verus! {

/// The variables that a program reads, and the stack that it works on.
pub struct RuntimeContext {
    pub heap: ValueMap,
    pub value_stack: Vec<Value>,
}

impl RuntimeContext {
    /// The variables, by name.
    pub open spec fn variables(&self) -> Map<Seq<char>, ValueView> {
        self.heap@
    }

    /// The stack, bottom first.
    pub open spec fn stack(&self) -> Seq<ValueView> {
        views_of(self.value_stack@)
    }

    /// A context with no variables and an empty stack.
    pub fn new() -> (r: Self)
        ensures
            r.variables() == Map::<Seq<char>, ValueView>::empty(),
            r.stack() == Seq::<ValueView>::empty(),
    {
        RuntimeContext { heap: ValueMap::new(), value_stack: Vec::new() }
    }

    /// Empties the stack.
    pub fn reset_stack(&mut self)
        ensures
            final(self).stack() == Seq::<ValueView>::empty(),
            final(self).variables() == old(self).variables(),
    {
        self.value_stack.clear();
    }

    /// Binds the builtin functions under their names.
    pub fn inject_functions(&mut self)
        ensures
            final(self).variables() == old(self).variables().insert(
                "SUM"@,
                ValueView::Function("sum"@),
            ).insert("COUNT"@, ValueView::Function("count"@)),
            final(self).stack() == old(self).stack(),
    {
        self.set(String::from_str("SUM"), Value::Function(String::from_str("sum")));
        self.set(String::from_str("COUNT"), Value::Function(String::from_str("count")));
    }

    /// The value of a variable, if it is bound.
    pub fn get(&self, key: &String) -> (r: Option<&Value>)
        ensures
            r matches Some(v) ==> self.variables().contains_key(key@) && v@
                == self.variables()[key@],
            r is None ==> !self.variables().contains_key(key@),
    {
        self.heap.get(key.as_str())
    }

    /// Whether a variable is bound.
    pub fn has(&self, key: &String) -> (r: bool)
        ensures
            r == self.variables().contains_key(key@),
    {
        self.heap.contains_key(key.as_str())
    }

    /// Binds a variable, replacing an earlier binding.
    pub fn set(&mut self, key: String, value: Value)
        ensures
            final(self).variables() == old(self).variables().insert(key@, value@),
            final(self).stack() == old(self).stack(),
    {
        self.heap.insert(key, value);
    }

    /// Takes the top of the stack.
    pub fn pop(&mut self) -> (r: Option<Value>)
        ensures
            final(self).variables() == old(self).variables(),
            r matches Some(v) ==> old(self).stack().len() > 0 && v@ == old(self).stack().last()
                && final(self).stack() == old(self).stack().drop_last(),
            r is None ==> old(self).stack().len() == 0 && final(self).stack() == old(self).stack(),
    {
        proof {
            lemma_views_of(self.value_stack@);
        }
        let r = self.value_stack.pop();
        proof {
            lemma_views_of(self.value_stack@);
            if r is Some {
                assert(self.stack() =~= old(self).stack().drop_last());
            }
        }
        r
    }

    /// Puts a value on top of the stack.
    pub fn push(&mut self, value: Value)
        ensures
            final(self).variables() == old(self).variables(),
            final(self).stack() == old(self).stack().push(value@),
    {
        proof {
            lemma_views_of_push(self.value_stack@, value);
        }
        self.value_stack.push(value);
    }
}

} // verus!
