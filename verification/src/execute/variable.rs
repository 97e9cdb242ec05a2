//! A table of variables with their types, one entry to a name.

use vstd::prelude::*;
use crate::share::text::same_text;
use crate::types::types::FormulaValueType;

verus! {

/// The name of a variable.
#[derive(Debug, PartialEq)]
pub struct Identifier(pub String);

/// A variable: its name, the type of its value and its declared type.
#[derive(Debug, PartialEq)]
pub struct Variable {
    pub name: Identifier,
    pub value: FormulaValueType,
    pub type_: FormulaValueType,
}

/// What a variable is, with its name as a sequence of characters.
pub struct VariableView {
    pub name: Seq<char>,
    pub value: FormulaValueType,
    pub type_: FormulaValueType,
}

impl View for Variable {
    type V = VariableView;

    open spec fn view(&self) -> VariableView {
        VariableView { name: self.name.0@, value: self.value, type_: self.type_ }
    }
}

/// The variables of a program, in the order in which their names came.
#[derive(Debug, PartialEq)]
pub struct VariableTable {
    pub variables: Vec<Variable>,
}

impl View for VariableTable {
    type V = Seq<VariableView>;

    open spec fn view(&self) -> Seq<VariableView> {
        self.variables@.map_values(|v: Variable| v@)
    }
}

/// The place of the first variable of the given name.
pub open spec fn position(variables: Seq<VariableView>, name: Seq<char>) -> Option<int>
    decreases variables.len(),
{
    if variables.len() == 0 {
        None
    } else {
        match position(variables.drop_last(), name) {
            Some(i) => Some(i),
            None => if variables.last().name == name {
                Some(variables.len() - 1)
            } else {
                None
            },
        }
    }
}

/// The table with a variable added: it takes the place of the first
/// variable of its name, or stands behind the others where there is none.
pub open spec fn added(variables: Seq<VariableView>, variable: VariableView) -> Seq<VariableView> {
    match position(variables, variable.name) {
        Some(i) => variables.update(i, variable),
        None => variables.push(variable),
    }
}

/// The place of a name is within the table and holds that name, and no
/// place before it does.
pub proof fn lemma_position(variables: Seq<VariableView>, name: Seq<char>)
    ensures
        match position(variables, name) {
            Some(i) => 0 <= i < variables.len() && variables[i].name == name && forall|j: int|
                0 <= j < i ==> (#[trigger] variables[j]).name != name,
            None => forall|j: int|
                0 <= j < variables.len() ==> (#[trigger] variables[j]).name != name,
        },
    decreases variables.len(),
{
    if variables.len() > 0 {
        lemma_position(variables.drop_last(), name);
        assert forall|j: int| 0 <= j < variables.len() - 1 implies variables.drop_last()[j]
            == variables[j] by {}
    }
}

/// A name that stands at `i` and at no place before has the place `i`.
pub proof fn lemma_position_found(variables: Seq<VariableView>, name: Seq<char>, i: int)
    requires
        0 <= i < variables.len(),
        variables[i].name == name,
        forall|j: int| 0 <= j < i ==> (#[trigger] variables[j]).name != name,
    ensures
        position(variables, name) == Some(i),
    decreases variables.len(),
{
    lemma_position(variables.drop_last(), name);
    if i < variables.len() - 1 {
        assert(variables.drop_last()[i] == variables[i]);
        assert forall|j: int| 0 <= j < i implies (#[trigger] variables.drop_last()[j]).name
            != name by {
            assert(variables.drop_last()[j] == variables[j]);
        }
        lemma_position_found(variables.drop_last(), name, i);
    } else {
        match position(variables.drop_last(), name) {
            Some(k) => {
                assert(variables.drop_last()[k] == variables[k]);
            },
            None => {},
        }
    }
}

impl VariableTable {
    /// A table without variables.
    pub fn new() -> (r: Self)
        ensures
            r@ == Seq::<VariableView>::empty(),
    {
        let r = Self { variables: Vec::new() };
        assert(r@ =~= Seq::<VariableView>::empty());
        r
    }

    /// The place of the first variable of the given name.
    fn find(&self, name: &str) -> (r: Option<usize>)
        ensures
            match r {
                Some(i) => position(self@, name@) == Some(i as int) && i < self.variables.len(),
                None => position(self@, name@) is None,
            },
    {
        let mut i: usize = 0;
        while i < self.variables.len()
            invariant
                i <= self.variables.len(),
                forall|j: int| 0 <= j < i ==> (#[trigger] self@[j]).name != name@,
            decreases self.variables.len() - i,
        {
            if same_text(self.variables[i].name.0.as_str(), name) {
                proof {
                    lemma_position_found(self@, name@, i as int);
                }
                return Some(i);
            }
            i = i + 1;
        }
        proof {
            lemma_position(self@, name@);
        }
        None
    }

    /// Adds a variable: where the table holds one of its name, the variable
    /// takes its place, else it comes last.
    pub fn add_variable(&mut self, variable: Variable)
        ensures
            final(self)@ == added(old(self)@, variable@),
    {
        match self.find(variable.name.0.as_str()) {
            Some(i) => {
                self.variables.set(i, variable);
                assert(self@ =~= old(self)@.update(i as int, variable@));
            },
            None => {
                self.variables.push(variable);
                assert(self@ =~= old(self)@.push(variable@));
            },
        }
    }

    /// The first variable of the given name, if the table holds one.
    pub fn get_variable(&self, name: &str) -> (r: Option<&Variable>)
        ensures
            match r {
                Some(v) => position(self@, name@) matches Some(i) && v@ == self@[i],
                None => position(self@, name@) is None,
            },
    {
        match self.find(name) {
            Some(i) => Some(&self.variables[i]),
            None => None,
        }
    }
}

} // verus!
