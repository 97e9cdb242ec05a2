//! The variables that a compiled formula reads.

use vstd::prelude::*;
use crate::share::operator::{program_view, OperatorCode, OperatorView};
use crate::share::text::same_text;

verus! {

/// `name` is the name of a builtin function.
pub open spec fn is_builtin_name(name: Seq<char>) -> bool {
    name == "SUM"@ || name == "COUNT"@
}

/// The names that the program loads, in the order of the instructions and
/// as often as they occur, without the names of the builtins.
pub open spec fn dependencies_of(codes: Seq<OperatorView>) -> Seq<Seq<char>>
    decreases codes.len(),
{
    if codes.len() == 0 {
        Seq::empty()
    } else {
        let before = dependencies_of(codes.drop_last());
        match codes.last() {
            OperatorView::LoadIdentifier(name) => if is_builtin_name(name) {
                before
            } else {
                before.push(name)
            },
            _ => before,
        }
    }
}

/// The texts of a vector of strings.
pub open spec fn texts(names: Seq<String>) -> Seq<Seq<char>> {
    names.map_values(|s: String| s@)
}

/// Every name that the program loads and that is no builtin is among its
/// dependencies.
pub proof fn lemma_dependencies_complete(codes: Seq<OperatorView>, i: int)
    requires
        0 <= i < codes.len(),
        codes[i] is LoadIdentifier,
        !is_builtin_name(codes[i]->LoadIdentifier_0),
    ensures
        dependencies_of(codes).contains(codes[i]->LoadIdentifier_0),
    decreases codes.len(),
{
    let name = codes[i]->LoadIdentifier_0;
    let before = dependencies_of(codes.drop_last());
    if i == codes.len() - 1 {
        assert(before.push(name).last() == name);
    } else {
        lemma_dependencies_complete(codes.drop_last(), i);
        let k = choose|k: int| 0 <= k < before.len() && before[k] == name;
        assert(dependencies_of(codes)[k] == name);
    }
}

/// Every dependency is a name that the program loads and that is no builtin.
pub proof fn lemma_dependencies_sound(codes: Seq<OperatorView>, name: Seq<char>)
    requires
        dependencies_of(codes).contains(name),
    ensures
        !is_builtin_name(name),
        codes.contains(OperatorView::LoadIdentifier(name)),
    decreases codes.len(),
{
    if codes.len() > 0 {
        let before = dependencies_of(codes.drop_last());
        let k = choose|k: int| 0 <= k < dependencies_of(codes).len() && dependencies_of(codes)[k]
            == name;
        if k < before.len() {
            assert(before[k] == name);
            lemma_dependencies_sound(codes.drop_last(), name);
            let j = choose|j: int|
                0 <= j < codes.drop_last().len() && codes.drop_last()[j]
                    == OperatorView::LoadIdentifier(name);
            assert(codes[j] == OperatorView::LoadIdentifier(name));
        } else {
            assert(codes[codes.len() - 1] == OperatorView::LoadIdentifier(name));
        }
    }
}

/// The variables that the host must bind before the program runs.
pub fn get_dependencies(codes: &Vec<OperatorCode>) -> (r: Vec<String>)
    ensures
        texts(r@) == dependencies_of(program_view(codes@)),
{
    let mut names: Vec<String> = Vec::new();
    let mut i: usize = 0;
    let ghost ops = program_view(codes@);
    assert(ops.take(0) =~= Seq::<OperatorView>::empty());
    assert(texts(names@) =~= Seq::<Seq<char>>::empty());
    while i < codes.len()
        invariant
            i <= codes.len(),
            ops == program_view(codes@),
            texts(names@) == dependencies_of(ops.take(i as int)),
        decreases codes.len() - i,
    {
        proof {
            assert(ops.take(i + 1).drop_last() =~= ops.take(i as int));
            assert(ops.take(i + 1).last() == codes@[i as int]@);
        }
        let ghost before = names@;
        match &codes[i] {
            OperatorCode::LoadIdentifier(name) => {
                if !(same_text(name.as_str(), "SUM") || same_text(name.as_str(), "COUNT")) {
                    names.push(name.clone());
                    assert(texts(names@) =~= texts(before).push(name@));
                }
            },
            _ => {},
        }
        i = i + 1;
    }
    assert(ops.take(codes.len() as int) =~= ops);
    names
}

} // verus!
