//! Searching: several conditions, each of which a search may have, of which all or any have to
//! hold.
use vstd::prelude::*;

verus! {

/// What the conditions of a search come to, each where the search has it: all of them hold or,
/// where any is enough, one does. A search without conditions finds everything.
pub open spec fn combined(conditions: Seq<Option<bool>>, any: bool) -> bool {
    if forall|i: int| 0 <= i < conditions.len() ==> (#[trigger] conditions[i]) is None {
        true
    } else if any {
        exists|i: int| 0 <= i < conditions.len() && #[trigger] conditions[i] == Some(true)
    } else {
        forall|i: int| 0 <= i < conditions.len() ==> #[trigger] conditions[i] != Some(false)
    }
}

/// What the conditions of a search come to.
pub fn combine(conditions: &Vec<Option<bool>>, any: bool) -> (r: bool)
    ensures
        r == combined(conditions@, any),
{
    let mut some = false;
    let mut held = false;
    let mut failed = false;
    let mut i: usize = 0;
    while i < conditions.len()
        invariant
            i <= conditions.len(),
            some == !(forall|j: int| 0 <= j < i ==> (#[trigger] conditions@[j]) is None),
            held == (exists|j: int| 0 <= j < i && #[trigger] conditions@[j] == Some(true)),
            failed == (exists|j: int| 0 <= j < i && #[trigger] conditions@[j] == Some(false)),
        decreases conditions.len() - i,
    {
        let ghost old_held = held;
        let ghost old_failed = failed;
        match conditions[i] {
            Some(true) => {
                some = true;
                held = true;
            },
            Some(false) => {
                some = true;
                failed = true;
            },
            None => {},
        }
        proof {
            let now = conditions@[i as int];
            assert(now is Some ==> !(forall|j: int|
                0 <= j < i + 1 ==> (#[trigger] conditions@[j]) is None));
            if old_held {
                let j = choose|j: int| 0 <= j < i && #[trigger] conditions@[j] == Some(true);
                assert(0 <= j < i + 1 && conditions@[j] == Some(true));
            }
            if old_failed {
                let j = choose|j: int| 0 <= j < i && #[trigger] conditions@[j] == Some(false);
                assert(0 <= j < i + 1 && conditions@[j] == Some(false));
            }
        }
        i = i + 1;
    }
    if !some {
        true
    } else if any {
        held
    } else {
        !failed
    }
}

/// A search without conditions finds everything; what a search for all conditions finds, a search
/// for any of them finds too.
pub proof fn any_finds_what_all_find(conditions: Seq<Option<bool>>)
    ensures
        (forall|i: int| 0 <= i < conditions.len() ==> (#[trigger] conditions[i]) is None)
            ==> combined(conditions, false) && combined(conditions, true),
        combined(conditions, false) ==> combined(conditions, true),
{
    if combined(conditions, false) && exists|i: int|
        0 <= i < conditions.len() && (#[trigger] conditions[i]) is Some {
        let i = choose|i: int| 0 <= i < conditions.len() && (#[trigger] conditions[i]) is Some;
        assert(conditions[i] != Some(false));
        assert(conditions[i] == Some(true));
    }
}

} // verus!
