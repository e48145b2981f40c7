//! Small association maps backing the provider cache: one keyed by numeric
//! mod ids, one keyed by slugs. Both are viewed as mathematical maps and
//! support only lookup and insert-or-overwrite — cache state is never
//! deleted.

use vstd::prelude::*;

verus! {

/// The map denoted by an entry list; later entries win.
pub open spec fn entries_map<V>(s: Seq<(u32, V)>) -> Map<u32, V>
    decreases s.len(),
{
    if s.len() == 0 {
        Map::empty()
    } else {
        entries_map(s.drop_last()).insert(s.last().0, s.last().1)
    }
}

/// The map denoted by a slug-keyed entry list, keyed by the slug's
/// character sequence.
pub open spec fn slug_entries_map(s: Seq<(String, u32)>) -> Map<Seq<char>, u32>
    decreases s.len(),
{
    if s.len() == 0 {
        Map::empty()
    } else {
        slug_entries_map(s.drop_last()).insert(s.last().0@, s.last().1)
    }
}

proof fn lemma_entries_map_dom_k<V>(s: Seq<(u32, V)>, k: u32)
    ensures
        entries_map(s).contains_key(k) <==> exists|i: int|
            0 <= i < s.len() && (#[trigger] s[i]).0 == k,
    decreases s.len(),
{
    if s.len() > 0 {
        lemma_entries_map_dom_k(s.drop_last(), k);
        if s.last().0 == k {
            assert(s[s.len() - 1].0 == k);
        } else {
            if entries_map(s).contains_key(k) {
                let i = choose|i: int|
                    0 <= i < s.drop_last().len() && (#[trigger] s.drop_last()[i]).0 == k;
                assert(s[i].0 == k);
            }
            if exists|i: int| 0 <= i < s.len() && (#[trigger] s[i]).0 == k {
                let i = choose|i: int| 0 <= i < s.len() && (#[trigger] s[i]).0 == k;
                assert(i < s.len() - 1);
                assert(s.drop_last()[i].0 == k);
            }
        }
    }
}

proof fn lemma_entries_map_dom<V>(s: Seq<(u32, V)>)
    ensures
        forall|k: u32|
            entries_map(s).contains_key(k) <==> exists|i: int|
                0 <= i < s.len() && (#[trigger] s[i]).0 == k,
{
    assert forall|k: u32|
        entries_map(s).contains_key(k) <==> exists|i: int|
            0 <= i < s.len() && (#[trigger] s[i]).0 == k by {
        lemma_entries_map_dom_k(s, k);
    }
}

proof fn lemma_entries_map_val<V>(s: Seq<(u32, V)>, i: int)
    requires
        0 <= i < s.len(),
        forall|j: int| i < j < s.len() ==> (#[trigger] s[j]).0 != s[i].0,
    ensures
        entries_map(s).contains_key(s[i].0),
        entries_map(s)[s[i].0] == s[i].1,
    decreases s.len(),
{
    if i == s.len() - 1 {
    } else {
        assert(s.drop_last()[i] == s[i]);
        lemma_entries_map_val(s.drop_last(), i);
        assert(s.last().0 != s[i].0);
    }
}

proof fn lemma_slug_entries_map_dom_k(s: Seq<(String, u32)>, k: Seq<char>)
    ensures
        slug_entries_map(s).contains_key(k) <==> exists|i: int|
            0 <= i < s.len() && (#[trigger] s[i]).0@ == k,
    decreases s.len(),
{
    if s.len() > 0 {
        lemma_slug_entries_map_dom_k(s.drop_last(), k);
        if s.last().0@ == k {
            assert(s[s.len() - 1].0@ == k);
        } else {
            if slug_entries_map(s).contains_key(k) {
                let i = choose|i: int|
                    0 <= i < s.drop_last().len() && (#[trigger] s.drop_last()[i]).0@ == k;
                assert(s[i].0@ == k);
            }
            if exists|i: int| 0 <= i < s.len() && (#[trigger] s[i]).0@ == k {
                let i = choose|i: int| 0 <= i < s.len() && (#[trigger] s[i]).0@ == k;
                assert(i < s.len() - 1);
                assert(s.drop_last()[i].0@ == k);
            }
        }
    }
}

proof fn lemma_slug_entries_map_dom(s: Seq<(String, u32)>)
    ensures
        forall|k: Seq<char>|
            slug_entries_map(s).contains_key(k) <==> exists|i: int|
                0 <= i < s.len() && (#[trigger] s[i]).0@ == k,
{
    assert forall|k: Seq<char>|
        slug_entries_map(s).contains_key(k) <==> exists|i: int|
            0 <= i < s.len() && (#[trigger] s[i]).0@ == k by {
        lemma_slug_entries_map_dom_k(s, k);
    }
}

proof fn lemma_slug_entries_map_val(s: Seq<(String, u32)>, i: int)
    requires
        0 <= i < s.len(),
        forall|j: int| i < j < s.len() ==> (#[trigger] s[j]).0@ != s[i].0@,
    ensures
        slug_entries_map(s).contains_key(s[i].0@),
        slug_entries_map(s)[s[i].0@] == s[i].1,
    decreases s.len(),
{
    if i == s.len() - 1 {
    } else {
        assert(s.drop_last()[i] == s[i]);
        lemma_slug_entries_map_val(s.drop_last(), i);
        assert(s.last().0@ != s[i].0@);
    }
}

proof fn lemma_entries_map_update<V>(s: Seq<(u32, V)>, i: int, v: V)
    requires
        0 <= i < s.len(),
        forall|j: int| i < j < s.len() ==> (#[trigger] s[j]).0 != s[i].0,
    ensures
        entries_map(s.update(i, (s[i].0, v))) == entries_map(s).insert(s[i].0, v),
    decreases s.len(),
{
    let k = s[i].0;
    let t = s.update(i, (k, v));
    if i == s.len() - 1 {
        assert(t.drop_last() =~= s.drop_last());
        assert(t.last() == (k, v));
        assert(entries_map(t) =~= entries_map(s).insert(k, v));
    } else {
        assert(s.drop_last()[i] == s[i]);
        lemma_entries_map_update(s.drop_last(), i, v);
        assert(t.drop_last() =~= s.drop_last().update(i, (k, v)));
        assert(t.last() == s.last());
        assert(s.last().0 != k);
        assert(entries_map(t) =~= entries_map(s).insert(k, v)) by {
            assert(entries_map(t) == entries_map(s.drop_last()).insert(k, v).insert(
                s.last().0,
                s.last().1,
            ));
        }
    }
}

proof fn lemma_slug_entries_map_update(s: Seq<(String, u32)>, i: int, key: String, v: u32)
    requires
        0 <= i < s.len(),
        key@ == s[i].0@,
        forall|j: int| i < j < s.len() ==> (#[trigger] s[j]).0@ != s[i].0@,
    ensures
        slug_entries_map(s.update(i, (key, v))) == slug_entries_map(s).insert(s[i].0@, v),
    decreases s.len(),
{
    let k = s[i].0@;
    let t = s.update(i, (key, v));
    if i == s.len() - 1 {
        assert(t.drop_last() =~= s.drop_last());
        assert(t.last() == (key, v));
        assert(slug_entries_map(t) =~= slug_entries_map(s).insert(k, v));
    } else {
        assert(s.drop_last()[i] == s[i]);
        lemma_slug_entries_map_update(s.drop_last(), i, key, v);
        assert(t.drop_last() =~= s.drop_last().update(i, (key, v)));
        assert(t.last() == s.last());
        assert(s.last().0@ != k);
        assert(slug_entries_map(t) =~= slug_entries_map(s).insert(k, v)) by {
            assert(slug_entries_map(t) == slug_entries_map(s.drop_last()).insert(k, v).insert(
                s.last().0@,
                s.last().1,
            ));
        }
    }
}

proof fn lemma_entries_map_push<V>(s: Seq<(u32, V)>, k: u32, v: V)
    ensures
        entries_map(s.push((k, v))) == entries_map(s).insert(k, v),
{
    assert(s.push((k, v)).drop_last() =~= s);
}

proof fn lemma_slug_entries_map_push(s: Seq<(String, u32)>, key: String, v: u32)
    ensures
        slug_entries_map(s.push((key, v))) == slug_entries_map(s).insert(key@, v),
{
    assert(s.push((key, v)).drop_last() =~= s);
}

proof fn lemma_entries_map_len<V>(s: Seq<(u32, V)>)
    requires
        forall|i: int, j: int| 0 <= i < j < s.len() ==> (#[trigger] s[i]).0 != (#[trigger] s[j]).0,
    ensures
        entries_map(s).dom().finite(),
        entries_map(s).dom().len() == s.len(),
    decreases s.len(),
{
    if s.len() == 0 {
        assert(entries_map(s).dom() =~= Set::<u32>::empty());
    } else {
        let pre = s.drop_last();
        assert(forall|i: int| 0 <= i < pre.len() ==> pre[i] == s[i]);
        lemma_entries_map_len(pre);
        lemma_entries_map_dom(pre);
        assert(!entries_map(pre).contains_key(s.last().0));
        assert(entries_map(s).dom() =~= entries_map(pre).dom().insert(s.last().0));
    }
}

proof fn lemma_slug_entries_map_len(s: Seq<(String, u32)>)
    requires
        forall|i: int, j: int|
            0 <= i < j < s.len() ==> (#[trigger] s[i]).0@ != (#[trigger] s[j]).0@,
    ensures
        slug_entries_map(s).dom().finite(),
        slug_entries_map(s).dom().len() == s.len(),
    decreases s.len(),
{
    if s.len() == 0 {
        assert(slug_entries_map(s).dom() =~= Set::<Seq<char>>::empty());
    } else {
        let pre = s.drop_last();
        assert(forall|i: int| 0 <= i < pre.len() ==> pre[i] == s[i]);
        lemma_slug_entries_map_len(pre);
        lemma_slug_entries_map_dom(pre);
        assert(!slug_entries_map(pre).contains_key(s.last().0@));
        assert(slug_entries_map(s).dom() =~= slug_entries_map(pre).dom().insert(s.last().0@));
    }
}

/// An insert-only map from mod ids to values.
pub struct IdMap<V> {
    entries: Vec<(u32, V)>,
}

impl<V> View for IdMap<V> {
    type V = Map<u32, V>;

    closed spec fn view(&self) -> Map<u32, V> {
        entries_map(self.entries@)
    }
}

impl<V> IdMap<V> {
    /// Each key occurs at most once in the entry list.
    pub closed spec fn wf(&self) -> bool {
        forall|i: int, j: int|
            0 <= i < j < self.entries@.len() ==> (#[trigger] self.entries@[i]).0 != (
            #[trigger] self.entries@[j]).0
    }

    pub fn new() -> (r: Self)
        ensures
            r.wf(),
            r@ == Map::<u32, V>::empty(),
    {
        IdMap { entries: Vec::new() }
    }

    pub fn contains(&self, k: u32) -> (r: bool)
        ensures
            r == self@.contains_key(k),
    {
        let n = self.entries.len();
        let mut i: usize = 0;
        while i < n
            invariant
                0 <= i <= n == self.entries@.len(),
                forall|t: int| 0 <= t < i ==> (#[trigger] self.entries@[t]).0 != k,
            decreases n - i,
        {
            if self.entries[i].0 == k {
                proof {
                    lemma_entries_map_dom(self.entries@);
                    assert(self.entries@[i as int].0 == k);
                }
                return true;
            }
            i = i + 1;
        }
        proof {
            lemma_entries_map_dom(self.entries@);
        }
        false
    }

    pub fn get(&self, k: u32) -> (r: Option<&V>)
        requires
            self.wf(),
        ensures
            match r {
                Some(v) => self@.contains_key(k) && *v == self@[k],
                None => !self@.contains_key(k),
            },
    {
        proof {
            lemma_entries_map_dom(self.entries@);
        }
        let n = self.entries.len();
        let mut i: usize = 0;
        while i < n
            invariant
                0 <= i <= n == self.entries@.len(),
                self.wf(),
                forall|t: int| 0 <= t < i ==> (#[trigger] self.entries@[t]).0 != k,
            decreases n - i,
        {
            if self.entries[i].0 == k {
                proof {
                    lemma_entries_map_val(self.entries@, i as int);
                }
                return Some(&self.entries[i].1);
            }
            i = i + 1;
        }
        None
    }

    pub fn insert(&mut self, k: u32, v: V)
        requires
            old(self).wf(),
        ensures
            final(self).wf(),
            final(self)@ == old(self)@.insert(k, v),
    {
        let n = self.entries.len();
        let mut i: usize = 0;
        while i < n
            invariant
                0 <= i <= n == self.entries@.len(),
                self.wf(),
                self == old(self),
                forall|t: int| 0 <= t < i ==> (#[trigger] self.entries@[t]).0 != k,
            decreases n - i,
        {
            if self.entries[i].0 == k {
                proof {
                    lemma_entries_map_update(self.entries@, i as int, v);
                }
                self.entries[i] = (k, v);
                return ;
            }
            i = i + 1;
        }
        proof {
            lemma_entries_map_push(self.entries@, k, v);
        }
        self.entries.push((k, v));
    }

    /// The keys currently present, each exactly once.
    pub fn keys(&self) -> (r: Vec<u32>)
        requires
            self.wf(),
        ensures
            forall|t: int| 0 <= t < r@.len() ==> self@.contains_key(#[trigger] r@[t]),
            forall|k: u32| self@.contains_key(k) ==> r@.contains(k),
            forall|i: int, j: int| 0 <= i < j < r@.len() ==> r@[i] != r@[j],
    {
        proof {
            lemma_entries_map_dom(self.entries@);
        }
        let n = self.entries.len();
        let mut out: Vec<u32> = Vec::new();
        let mut i: usize = 0;
        while i < n
            invariant
                0 <= i <= n == self.entries@.len(),
                self.wf(),
                out@.len() == i,
                forall|t: int| 0 <= t < i ==> out@[t] == (#[trigger] self.entries@[t]).0,
            decreases n - i,
        {
            out.push(self.entries[i].0);
            i = i + 1;
        }
        proof {
            assert forall|k: u32| self@.contains_key(k) implies out@.contains(k) by {
                let t = choose|t: int| 0 <= t < self.entries@.len() && (#[trigger] self.entries@[t]).0 == k;
                assert(out@[t] == k);
            }
            assert forall|t: int| 0 <= t < out@.len() implies self@.contains_key(#[trigger] out@[t]) by {
                assert(self.entries@[t].0 == out@[t]);
            }
            assert forall|i: int, j: int| 0 <= i < j < out@.len() implies out@[i] != out@[j] by {
                assert(self.entries@[i].0 != self.entries@[j].0);
            }
        }
        out
    }

    pub fn len(&self) -> (r: usize)
        requires
            self.wf(),
        ensures
            r == self@.len(),
    {
        proof {
            lemma_entries_map_len(self.entries@);
        }
        self.entries.len()
    }
}

/// An insert-only map from slugs to mod ids.
pub struct SlugMap {
    entries: Vec<(String, u32)>,
}

impl View for SlugMap {
    type V = Map<Seq<char>, u32>;

    closed spec fn view(&self) -> Map<Seq<char>, u32> {
        slug_entries_map(self.entries@)
    }
}

impl SlugMap {
    /// Each slug occurs at most once in the entry list.
    pub closed spec fn wf(&self) -> bool {
        forall|i: int, j: int|
            0 <= i < j < self.entries@.len() ==> (#[trigger] self.entries@[i]).0@ != (
            #[trigger] self.entries@[j]).0@
    }

    pub fn new() -> (r: Self)
        ensures
            r.wf(),
            r@ == Map::<Seq<char>, u32>::empty(),
    {
        SlugMap { entries: Vec::new() }
    }

    pub fn get(&self, k: &String) -> (r: Option<u32>)
        requires
            self.wf(),
        ensures
            match r {
                Some(v) => self@.contains_key(k@) && v == self@[k@],
                None => !self@.contains_key(k@),
            },
    {
        proof {
            lemma_slug_entries_map_dom(self.entries@);
        }
        let n = self.entries.len();
        let mut i: usize = 0;
        while i < n
            invariant
                0 <= i <= n == self.entries@.len(),
                self.wf(),
                forall|t: int| 0 <= t < i ==> (#[trigger] self.entries@[t]).0@ != k@,
            decreases n - i,
        {
            if self.entries[i].0.eq(k) {
                proof {
                    lemma_slug_entries_map_val(self.entries@, i as int);
                }
                return Some(self.entries[i].1);
            }
            i = i + 1;
        }
        None
    }

    pub fn insert(&mut self, k: String, v: u32)
        requires
            old(self).wf(),
        ensures
            final(self).wf(),
            final(self)@ == old(self)@.insert(k@, v),
    {
        let n = self.entries.len();
        let mut i: usize = 0;
        while i < n
            invariant
                0 <= i <= n == self.entries@.len(),
                self.wf(),
                self == old(self),
                forall|t: int| 0 <= t < i ==> (#[trigger] self.entries@[t]).0@ != k@,
            decreases n - i,
        {
            if self.entries[i].0.eq(&k) {
                proof {
                    lemma_slug_entries_map_update(self.entries@, i as int, k, v);
                }
                self.entries[i] = (k, v);
                return ;
            }
            i = i + 1;
        }
        proof {
            lemma_slug_entries_map_push(self.entries@, k, v);
        }
        self.entries.push((k, v));
    }

    /// The slugs currently present, each exactly once.
    pub fn keys(&self) -> (r: Vec<String>)
        requires
            self.wf(),
        ensures
            forall|t: int| 0 <= t < r@.len() ==> self@.contains_key((#[trigger] r@[t])@),
            forall|k: Seq<char>| self@.contains_key(k) ==> url_seq_present(r@, k),
            forall|i: int, j: int| 0 <= i < j < r@.len() ==> r@[i]@ != r@[j]@,
    {
        proof {
            lemma_slug_entries_map_dom(self.entries@);
        }
        let n = self.entries.len();
        let mut out: Vec<String> = Vec::new();
        let mut i: usize = 0;
        while i < n
            invariant
                0 <= i <= n == self.entries@.len(),
                self.wf(),
                out@.len() == i,
                forall|t: int| 0 <= t < i ==> out@[t]@ == (#[trigger] self.entries@[t]).0@,
            decreases n - i,
        {
            out.push(self.entries[i].0.clone());
            i = i + 1;
        }
        proof {
            assert forall|k: Seq<char>| self@.contains_key(k) implies url_seq_present(out@, k) by {
                let t = choose|t: int|
                    0 <= t < self.entries@.len() && (#[trigger] self.entries@[t]).0@ == k;
                assert(out@[t]@ == k);
            }
            assert forall|t: int| 0 <= t < out@.len() implies self@.contains_key(
                (#[trigger] out@[t])@,
            ) by {
                assert(self.entries@[t].0@ == out@[t]@);
            }
            assert forall|i: int, j: int| 0 <= i < j < out@.len() implies out@[i]@ != out@[j]@ by {
                assert(self.entries@[i].0@ != self.entries@[j].0@);
            }
        }
        out
    }

    pub fn len(&self) -> (r: usize)
        requires
            self.wf(),
        ensures
            r == self@.len(),
    {
        proof {
            lemma_slug_entries_map_len(self.entries@);
        }
        self.entries.len()
    }
}

/// Whether some string in the list reads exactly `k`.
pub open spec fn url_seq_present(v: Seq<String>, k: Seq<char>) -> bool {
    exists|i: int| 0 <= i < v.len() && (#[trigger] v[i])@ == k
}

} // verus!
