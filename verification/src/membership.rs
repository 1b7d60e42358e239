//! Normalized membership collections.
//!
//! Whatever shape a metadata document used, membership comes out of the
//! codec as one of two canonical collections: a set of string ids
//! (insertion order kept, no duplicates) or a map from id to display
//! name (keys unique).

use vstd::prelude::*;

use crate::value::string_eq;

verus! {

/// Inserting into a membership set: a no-op when the id is present.
pub open spec fn spec_set_insert(s: Seq<Seq<char>>, x: Seq<char>) -> Seq<Seq<char>> {
    if s.contains(x) {
        s
    } else {
        s.push(x)
    }
}

/// A set of membership ids, insertion order kept.
#[derive(Debug, Clone)]
pub struct MembershipSet {
    pub ids: Vec<String>,
}

impl View for MembershipSet {
    type V = Seq<Seq<char>>;

    open spec fn view(&self) -> Seq<Seq<char>> {
        self.ids@.map_values(|s: String| s@)
    }
}

impl MembershipSet {
    /// No id occurs twice.
    pub open spec fn inv(self) -> bool {
        forall|i: int, j: int| 0 <= i < j < self@.len() ==> self@[i] != self@[j]
    }

    /// The empty membership set.
    pub fn new() -> (r: MembershipSet)
        ensures
            r@ == Seq::<Seq<char>>::empty(),
            r.inv(),
    {
        let r = MembershipSet { ids: Vec::new() };
        proof {
            assert(r@ =~= Seq::<Seq<char>>::empty());
        }
        r
    }

    /// How many ids the set holds.
    pub fn len(&self) -> (r: usize)
        ensures
            r == self@.len(),
    {
        self.ids.len()
    }

    /// Whether `id` is a member.
    pub fn contains(&self, id: &String) -> (r: bool)
        ensures
            r == self@.contains(id@),
    {
        let mut i: usize = 0;
        while i < self.ids.len()
            invariant
                0 <= i <= self.ids@.len(),
                forall|j: int| 0 <= j < i ==> self@[j] != id@,
            decreases self.ids@.len() - i,
        {
            if string_eq(&self.ids[i], id) {
                proof {
                    assert(self@[i as int] == id@);
                }
                return true;
            }
            i += 1;
        }
        proof {
            assert forall|j: int| 0 <= j < self@.len() implies self@[j] != id@ by {}
        }
        false
    }

    /// Adds `id`; a no-op when it is already a member.
    pub fn insert(&mut self, id: String)
        requires
            old(self).inv(),
        ensures
            final(self).inv(),
            final(self)@ == spec_set_insert(old(self)@, id@),
    {
        if !self.contains(&id) {
            let ghost before = self@;
            self.ids.push(id);
            proof {
                assert(self@ =~= before.push(id@));
            }
        }
    }
}

/// Inserting into a membership map: the value under an existing key is
/// replaced in place; a new key goes to the end.
pub open spec fn spec_map_insert(
    s: Seq<(Seq<char>, Seq<char>)>,
    k: Seq<char>,
    v: Seq<char>,
) -> Seq<(Seq<char>, Seq<char>)>
    decreases s.len(),
{
    if s.len() == 0 {
        seq![(k, v)]
    } else if s[0].0 == k {
        seq![(k, v)] + s.drop_first()
    } else {
        seq![s[0]] + spec_map_insert(s.drop_first(), k, v)
    }
}

/// A map from membership id to display name, insertion order kept.
#[derive(Debug, Clone)]
pub struct MembershipMap {
    pub entries: Vec<(String, String)>,
}

impl View for MembershipMap {
    type V = Seq<(Seq<char>, Seq<char>)>;

    open spec fn view(&self) -> Seq<(Seq<char>, Seq<char>)> {
        self.entries@.map_values(|e: (String, String)| (e.0@, e.1@))
    }
}

/// Skipping entries whose keys all differ from `k` moves the insertion
/// point past them.
proof fn lemma_map_insert_skip(s: Seq<(Seq<char>, Seq<char>)>, k: Seq<char>, v: Seq<char>, i: int)
    requires
        0 <= i <= s.len(),
        forall|j: int| 0 <= j < i ==> (#[trigger] s[j]).0 != k,
    ensures
        spec_map_insert(s, k, v) == s.take(i) + spec_map_insert(s.skip(i), k, v),
    decreases i,
{
    if i == 0 {
        assert(s.skip(0) =~= s);
        assert(s.take(0) + spec_map_insert(s, k, v) =~= spec_map_insert(s, k, v));
    } else {
        assert(s.len() > 0 && s[0].0 != k);
        lemma_map_insert_skip(s.drop_first(), k, v, i - 1);
        assert(s.drop_first().skip(i - 1) =~= s.skip(i));
        assert(s.drop_first().take(i - 1) =~= s.take(i).drop_first());
        assert(seq![s[0]] + (s.take(i).drop_first() + spec_map_insert(s.skip(i), k, v)) =~= s.take(
            i,
        ) + spec_map_insert(s.skip(i), k, v));
    }
}

impl MembershipMap {
    /// No key occurs twice.
    pub open spec fn inv(self) -> bool {
        forall|i: int, j: int| 0 <= i < j < self@.len() ==> (#[trigger] self@[i]).0 != (
        #[trigger] self@[j]).0
    }

    /// The empty membership map.
    pub fn new() -> (r: MembershipMap)
        ensures
            r@ == Seq::<(Seq<char>, Seq<char>)>::empty(),
            r.inv(),
    {
        let r = MembershipMap { entries: Vec::new() };
        proof {
            assert(r@ =~= Seq::<(Seq<char>, Seq<char>)>::empty());
        }
        r
    }

    /// How many entries the map holds.
    pub fn len(&self) -> (r: usize)
        ensures
            r == self@.len(),
    {
        self.entries.len()
    }

    /// Binds `key` to `name`, replacing the previous binding if any.
    pub fn insert(&mut self, key: String, name: String)
        requires
            old(self).inv(),
        ensures
            final(self).inv(),
            final(self)@ == spec_map_insert(old(self)@, key@, name@),
    {
        let ghost s = self@;
        let mut i: usize = 0;
        while i < self.entries.len()
            invariant
                self@ == s,
                s == old(self)@,
                0 <= i <= self.entries@.len(),
                forall|j: int| 0 <= j < i ==> (#[trigger] s[j]).0 != key@,
                forall|a: int, b: int| 0 <= a < b < s.len() ==> (#[trigger] s[a]).0 != (
                #[trigger] s[b]).0,
            decreases self.entries@.len() - i,
        {
            if string_eq(&self.entries[i].0, &key) {
                proof {
                    lemma_map_insert_skip(s, key@, name@, i as int);
                    assert(s.skip(i as int)[0] == s[i as int]);
                    assert(s[i as int].0 == key@);
                }
                let _prev = self.entries.remove(i);
                self.entries.insert(i, (key, name));
                proof {
                    assert(self@ =~= s.update(i as int, (key@, name@)));
                    assert(spec_map_insert(s.skip(i as int), key@, name@) =~= seq![
                        (key@, name@),
                    ] + s.skip(i as int).drop_first());
                    assert(self@ =~= s.take(i as int) + spec_map_insert(
                        s.skip(i as int),
                        key@,
                        name@,
                    ));
                    assert forall|a: int, b: int| 0 <= a < b < self@.len() implies (
                    #[trigger] self@[a]).0 != (#[trigger] self@[b]).0 by {
                        assert(s[a].0 != s[b].0);
                        assert(self@[a].0 == s[a].0);
                        assert(self@[b].0 == s[b].0);
                    }
                }
                return ;
            }
            i += 1;
        }
        proof {
            lemma_map_insert_skip(s, key@, name@, s.len() as int);
        }
        self.entries.push((key, name));
        proof {
            assert(s.skip(s.len() as int) =~= Seq::<(Seq<char>, Seq<char>)>::empty());
            assert(spec_map_insert(s.skip(s.len() as int), key@, name@) =~= seq![(key@, name@)]);
            assert(self@ =~= s.take(s.len() as int) + seq![(key@, name@)]);
            assert(self@ =~= s.push((key@, name@)));
            assert forall|a: int, b: int| 0 <= a < b < self@.len() implies (
            #[trigger] self@[a]).0 != (#[trigger] self@[b]).0 by {
                assert(old(self)@ == s);
                if b < s.len() {
                    assert(s[a].0 != s[b].0);
                    assert(self@[a].0 == s[a].0);
                    assert(self@[b].0 == s[b].0);
                } else {
                    assert(s[a].0 != key@);
                }
            }
        }
    }
}

} // verus!
