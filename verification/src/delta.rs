//! The delta computer: membership unions and default-group lookup.

use vstd::prelude::*;

use crate::membership::{spec_set_insert, MembershipMap, MembershipSet};

verus! {

/// The view of a list of id strings.
pub open spec fn strs_view(v: Seq<String>) -> Seq<Seq<char>> {
    v.map_values(|s: String| s@)
}

/// Merging an addition list into a membership set, left to right; an id
/// already present is left where it is.
pub open spec fn spec_merge(s: Seq<Seq<char>>, l: Seq<Seq<char>>) -> Seq<Seq<char>>
    decreases l.len(),
{
    if l.len() == 0 {
        s
    } else {
        spec_set_insert(spec_merge(s, l.drop_last()), l.last())
    }
}

/// What the merge holds: exactly the ids of either side.
pub proof fn lemma_merge_elements(s: Seq<Seq<char>>, l: Seq<Seq<char>>)
    ensures
        forall|x: Seq<char>|
            #[trigger] spec_merge(s, l).contains(x) <==> s.contains(x) || l.contains(x),
    decreases l.len(),
{
    if l.len() == 0 {
        assert forall|x: Seq<char>| #[trigger]
            spec_merge(s, l).contains(x) <==> s.contains(x) || l.contains(x) by {
            assert(!l.contains(x));
        }
    } else {
        lemma_merge_elements(s, l.drop_last());
        let prev = spec_merge(s, l.drop_last());
        assert forall|x: Seq<char>| #[trigger]
            spec_merge(s, l).contains(x) <==> s.contains(x) || l.contains(x) by {
            if spec_merge(s, l).contains(x) {
                if !prev.contains(x) {
                    let k = choose|k: int|
                        0 <= k < spec_merge(s, l).len() && spec_merge(s, l)[k] == x;
                    assert(x == l.last());
                    assert(l.contains(l.last()));
                }
                if prev.contains(x) && !s.contains(x) {
                    assert(l.drop_last().contains(x));
                    let k = choose|k: int| 0 <= k < l.drop_last().len() && l.drop_last()[k] == x;
                    assert(l[k] == x);
                }
            }
            if s.contains(x) || l.contains(x) {
                if s.contains(x) || l.drop_last().contains(x) {
                    assert(prev.contains(x));
                    let k = choose|k: int| 0 <= k < prev.len() && prev[k] == x;
                    if spec_merge(s, l) == prev.push(l.last()) {
                        assert(prev.push(l.last())[k] == x);
                    }
                    assert(spec_merge(s, l).contains(x));
                } else {
                    assert(l.contains(x));
                    let k = choose|k: int| 0 <= k < l.len() && l[k] == x;
                    assert(k == l.len() - 1) by {
                        if k < l.len() - 1 {
                            assert(l.drop_last()[k] == x);
                        }
                    }
                    assert(x == l.last());
                    if prev.contains(x) {
                    } else {
                        assert(prev.push(x).contains(x)) by {
                            assert(prev.push(x)[prev.len() as int] == x);
                        }
                    }
                }
            }
        }
    }
}

/// Merging ids that are all already present changes nothing.
pub proof fn lemma_merge_noop(s: Seq<Seq<char>>, l: Seq<Seq<char>>)
    requires
        forall|k: int| 0 <= k < l.len() ==> s.contains(#[trigger] l[k]),
    ensures
        spec_merge(s, l) == s,
    decreases l.len(),
{
    if l.len() > 0 {
        assert forall|k: int| 0 <= k < l.drop_last().len() implies s.contains(
            #[trigger] l.drop_last()[k],
        ) by {
            assert(l.drop_last()[k] == l[k]);
        }
        lemma_merge_noop(s, l.drop_last());
        assert(s.contains(l[l.len() - 1]));
    }
}

/// Merging the same addition list twice gives what merging it once
/// gives: the union is idempotent.
pub proof fn lemma_merge_idempotent(s: Seq<Seq<char>>, l: Seq<Seq<char>>)
    ensures
        spec_merge(spec_merge(s, l), l) == spec_merge(s, l),
{
    let m = spec_merge(s, l);
    lemma_merge_elements(s, l);
    assert forall|k: int| 0 <= k < l.len() implies m.contains(#[trigger] l[k]) by {
        assert(l.contains(l[k]));
    }
    lemma_merge_noop(m, l);
}

/// Merging a concatenation merges the parts in turn.
pub proof fn lemma_merge_concat(s: Seq<Seq<char>>, a: Seq<Seq<char>>, b: Seq<Seq<char>>)
    ensures
        spec_merge(s, a + b) == spec_merge(spec_merge(s, a), b),
    decreases b.len(),
{
    if b.len() == 0 {
        assert(a + b =~= a);
    } else {
        lemma_merge_concat(s, a, b.drop_last());
        assert((a + b).drop_last() =~= a + b.drop_last());
        assert((a + b).last() == b.last());
    }
}

/// The idempotent union of DeltaComputer: every addition not yet present
/// is appended, in order; additions already present are no-ops.
pub fn merge_project(existing: MembershipSet, additions: &Vec<String>) -> (r: MembershipSet)
    requires
        existing.inv(),
    ensures
        r.inv(),
        r@ == spec_merge(existing@, strs_view(additions@)),
{
    let ghost s0 = existing@;
    let ghost l = strs_view(additions@);
    let mut r = existing;
    let mut i: usize = 0;
    while i < additions.len()
        invariant
            r.inv(),
            l == strs_view(additions@),
            0 <= i <= additions@.len(),
            r@ == spec_merge(s0, l.take(i as int)),
        decreases additions@.len() - i,
    {
        r.insert(additions[i].clone());
        proof {
            assert(l.take(i + 1).drop_last() =~= l.take(i as int));
            assert(l.take(i + 1).last() == additions@[i as int]@);
        }
        i += 1;
    }
    proof {
        assert(l.take(additions@.len() as int) =~= l);
    }
    r
}

/// The id of the last group whose display name is the literal
/// `"default"`; empty when there is none.
pub open spec fn spec_default_group(s: Seq<(Seq<char>, Seq<char>)>) -> Seq<char>
    decreases s.len(),
{
    if s.len() == 0 {
        Seq::empty()
    } else if s.last().1 == "default"@ {
        s.last().0
    } else {
        spec_default_group(s.drop_last())
    }
}

/// When no entry is named `"default"`, the marker is empty.
pub proof fn lemma_default_group_absent(s: Seq<(Seq<char>, Seq<char>)>)
    requires
        forall|k: int| 0 <= k < s.len() ==> (#[trigger] s[k]).1 != "default"@,
    ensures
        spec_default_group(s) == Seq::<char>::empty(),
    decreases s.len(),
{
    if s.len() > 0 {
        assert forall|k: int| 0 <= k < s.drop_last().len() implies (
        #[trigger] s.drop_last()[k]).1 != "default"@ by {
            assert(s.drop_last()[k] == s[k]);
        }
        lemma_default_group_absent(s.drop_last());
    }
}

/// When some entry is named `"default"`, the marker is the id of the
/// last such entry.
pub proof fn lemma_default_group_present(s: Seq<(Seq<char>, Seq<char>)>, k: int)
    requires
        0 <= k < s.len(),
        s[k].1 == "default"@,
        forall|j: int| k < j < s.len() ==> (#[trigger] s[j]).1 != "default"@,
    ensures
        spec_default_group(s) == s[k].0,
    decreases s.len(),
{
    if k == s.len() - 1 {
    } else {
        assert forall|j: int| k < j < s.drop_last().len() implies (
        #[trigger] s.drop_last()[j]).1 != "default"@ by {
            assert(s.drop_last()[j] == s[j]);
        }
        assert(s.drop_last()[k] == s[k]);
        lemma_default_group_present(s.drop_last(), k);
    }
}

/// Scans a group map for the entry whose display name is `"default"`
/// and returns its id; the empty string when no entry matches (a
/// degraded, non-fatal state for the caller, not an error).
pub fn resolve_default_group(groups: &MembershipMap) -> (r: String)
    ensures
        r@ == spec_default_group(groups@),
        (forall|k: int| 0 <= k < groups@.len() ==> (#[trigger] groups@[k]).1 != "default"@) ==> r@
            == Seq::<char>::empty(),
        forall|k: int|
            0 <= k < groups@.len() && (#[trigger] groups@[k]).1 == "default"@ && (forall|j: int|
                k < j < groups@.len() ==> (#[trigger] groups@[j]).1 != "default"@) ==> r@
                == groups@[k].0,
{
    let mut out = String::new();
    let mut i: usize = 0;
    while i < groups.entries.len()
        invariant
            0 <= i <= groups.entries@.len(),
            out@ == spec_default_group(groups@.take(i as int)),
        decreases groups.entries@.len() - i,
    {
        let pair = &groups.entries[i];
        if crate::value::str_eq(&pair.1, "default") {
            out = pair.0.clone();
        }
        proof {
            assert(groups@.take(i + 1).drop_last() =~= groups@.take(i as int));
            assert(groups@.take(i + 1).last() == groups@[i as int]);
            assert(groups@[i as int] == (groups.entries@[i as int].0@, groups.entries@[i as int].1@));
        }
        i += 1;
    }
    proof {
        assert(groups@.take(groups@.len() as int) =~= groups@);
        if forall|k: int| 0 <= k < groups@.len() ==> (#[trigger] groups@[k]).1 != "default"@ {
            lemma_default_group_absent(groups@);
        }
        assert forall|k: int|
            0 <= k < groups@.len() && (#[trigger] groups@[k]).1 == "default"@ && (forall|j: int|
                k < j < groups@.len() ==> (#[trigger] groups@[j]).1 != "default"@) implies out@
            == groups@[k].0 by {
            lemma_default_group_present(groups@, k);
        }
    }
    out
}

} // verus!
