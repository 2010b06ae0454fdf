//! What a filter lets through.

use vstd::prelude::*;

verus! {

/// What a filter lets through passes its test.
pub proof fn lemma_filtered_are_chosen<A>(s: Seq<A>, chosen: spec_fn(A) -> bool, index: int)
    requires
        0 <= index < s.filter(chosen).len(),
    ensures
        chosen(s.filter(chosen)[index]),
    decreases s.len(),
{
    reveal(Seq::filter);
    if s.len() > 0 {
        let head = s.drop_last();
        if index < head.filter(chosen).len() {
            lemma_filtered_are_chosen(head, chosen, index);
        }
    }
}

/// What a filter lets through was there before.
pub proof fn lemma_filtered_are_there<A>(s: Seq<A>, chosen: spec_fn(A) -> bool, index: int)
    requires
        0 <= index < s.filter(chosen).len(),
    ensures
        s.contains(s.filter(chosen)[index]),
    decreases s.len(),
{
    reveal(Seq::filter);
    if s.len() > 0 {
        let head = s.drop_last();
        if index < head.filter(chosen).len() {
            lemma_filtered_are_there(head, chosen, index);
            let i = choose|i: int| 0 <= i < head.len() && head[i] == head.filter(chosen)[index];
            assert(s[i] == s.filter(chosen)[index]);
        } else {
            assert(s[s.len() - 1] == s.filter(chosen)[index]);
        }
    }
}

/// What passes its test is let through by a filter.
pub proof fn lemma_filter_keeps<A>(s: Seq<A>, chosen: spec_fn(A) -> bool, index: int)
    requires
        0 <= index < s.len(),
        chosen(s[index]),
    ensures
        s.filter(chosen).contains(s[index]),
    decreases s.len(),
{
    reveal(Seq::filter);
    let head = s.drop_last();
    let kept = s.filter(chosen);
    if index < head.len() {
        lemma_filter_keeps(head, chosen, index);
        let i = choose|i: int|
            0 <= i < head.filter(chosen).len() && head.filter(chosen)[i] == s[index];
        assert(kept[i] == s[index]);
    } else {
        assert(kept.last() == s[index]);
        assert(kept[kept.len() - 1] == s[index]);
    }
}

} // verus!
