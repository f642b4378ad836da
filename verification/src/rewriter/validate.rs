//! Checking the modules that a rewritten entry file refers to against the
//! modules that the package holds.
use vstd::prelude::*;
use crate::text::{copy_chars, list_contains, list_contains_before, views};

verus! {

/// The names of the modules of `refs` that are not among `present`, each
/// once, in the order of their first reference.
pub open spec fn missing_of(refs: Seq<Seq<char>>, present: Seq<Seq<char>>) -> Seq<Seq<char>>
    decreases refs.len(),
{
    if refs.len() == 0 {
        Seq::empty()
    } else {
        let rest = missing_of(refs.drop_last(), present);
        let name = refs.last();
        if refs.drop_last().contains(name) || present.contains(name) {
            rest
        } else {
            rest.push(name)
        }
    }
}

/// The names of the modules of `refs` that are not among `present`, each
/// once, in the order of their first reference.
pub fn missing_modules(refs: &Vec<Vec<char>>, present: &Vec<Vec<char>>) -> (missing: Vec<
    Vec<char>,
>)
    ensures
        views(missing@) == missing_of(views(refs@), views(present@)),
{
    let mut missing: Vec<Vec<char>> = Vec::new();
    let mut i: usize = 0;
    while i < refs.len()
        invariant
            i <= refs.len(),
            views(missing@) == missing_of(views(refs@).take(i as int), views(present@)),
        decreases refs.len() - i,
    {
        let ghost before = views(missing@);
        assert(views(refs@).take(i + 1).drop_last() =~= views(refs@).take(i as int));
        if !list_contains_before(refs, i, &refs[i]) && !list_contains(present, &refs[i]) {
            missing.push(copy_chars(&refs[i]));
            assert(views(missing@) =~= before.push(refs@[i as int]@));
        }
        i += 1;
    }
    assert(views(refs@).take(refs.len() as int) =~= views(refs@));
    missing
}

/// A module that is reported missing was referred to and is not present.
pub proof fn lemma_missing_is_referenced(
    refs: Seq<Seq<char>>,
    present: Seq<Seq<char>>,
    name: Seq<char>,
)
    ensures
        missing_of(refs, present).contains(name) <==> refs.contains(name) && !present.contains(
            name,
        ),
    decreases refs.len(),
{
    if refs.len() > 0 {
        let init = refs.drop_last();
        let last = refs.last();
        lemma_missing_is_referenced(init, present, name);
        crate::text::lemma_push_contains(missing_of(init, present), last);
        assert(refs[refs.len() - 1] == last);
        if init.contains(name) {
            let i = choose|i: int| 0 <= i < init.len() && init[i] == name;
            assert(refs[i] == name);
        }
        if refs.contains(name) {
            let i = choose|i: int| 0 <= i < refs.len() && refs[i] == name;
            if i < refs.len() - 1 {
                assert(init[i] == name);
            }
        }
    }
}

} // verus!
