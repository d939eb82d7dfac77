use vstd::prelude::*;

verus! {

/// The map that a list of (name, text) entries describes; a later entry for
/// a name overrides an earlier one.
pub open spec fn entries_map(s: Seq<(String, String)>) -> Map<Seq<char>, Seq<char>>
    decreases s.len(),
{
    if s.len() == 0 {
        Map::empty()
    } else {
        entries_map(s.drop_last()).insert(s.last().0@, s.last().1@)
    }
}

/// No two entries carry the same name.
pub open spec fn names_unique(s: Seq<(String, String)>) -> bool {
    forall|i: int, j: int|
        0 <= i < j < s.len() ==> #[trigger] s[i].0@ != #[trigger] s[j].0@
}

/// A name is mapped exactly when some entry carries it, and with unique names
/// it is mapped to that entry's text.
pub proof fn lemma_entries_map_lookup(s: Seq<(String, String)>, k: Seq<char>)
    requires
        names_unique(s),
    ensures
        entries_map(s).contains_key(k) <==> exists|i: int| 0 <= i < s.len() && s[i].0@ == k,
        forall|i: int| 0 <= i < s.len() && s[i].0@ == k ==> entries_map(s)[k] == s[i].1@,
    decreases s.len(),
{
    if s.len() > 0 {
        let t = s.drop_last();
        assert(names_unique(t)) by {
            assert forall|i: int, j: int| 0 <= i < j < t.len() implies t[i].0@ != t[j].0@ by {
                assert(t[i] == s[i] && t[j] == s[j]);
            }
        }
        lemma_entries_map_lookup(t, k);
        if entries_map(s).contains_key(k) && k != s.last().0@ {
            let i = choose|i: int| 0 <= i < t.len() && t[i].0@ == k;
            assert(s[i] == t[i]);
        }
        if exists|i: int| 0 <= i < s.len() && s[i].0@ == k {
            let i = choose|i: int| 0 <= i < s.len() && s[i].0@ == k;
            if i < t.len() {
                assert(t[i] == s[i]);
            }
        }
        assert forall|i: int| 0 <= i < s.len() && s[i].0@ == k implies entries_map(s)[k]
            == s[i].1@ by {
            if i < t.len() {
                assert(t[i] == s[i]);
                assert(s[i].0@ != s[s.len() - 1].0@);
            }
        }
    }
}

/// The joined texts of a set of named resources: a finite map from name to
/// text, filled at most once per name.
pub struct ResourceBundle {
    entries: Vec<(String, String)>,
}

impl ResourceBundle {
    pub closed spec fn view(&self) -> Map<Seq<char>, Seq<char>> {
        entries_map(self.entries@)
    }

    pub closed spec fn wf(&self) -> bool {
        names_unique(self.entries@)
    }

    pub fn new() -> (r: ResourceBundle)
        ensures
            r.wf(),
            r@ == Map::<Seq<char>, Seq<char>>::empty(),
    {
        ResourceBundle { entries: Vec::new() }
    }

    fn find(&self, name: &String) -> (r: Option<usize>)
        requires
            self.wf(),
        ensures
            r is None <==> !self@.contains_key(name@),
            r matches Some(i) ==> i < self.entries@.len() && self.entries@[i as int].0@ == name@,
    {
        proof {
            lemma_entries_map_lookup(self.entries@, name@);
        }
        let mut i: usize = 0;
        while i < self.entries.len()
            invariant
                i <= self.entries@.len(),
                names_unique(self.entries@),
                forall|j: int| 0 <= j < i ==> self.entries@[j].0@ != name@,
            decreases self.entries@.len() - i,
        {
            if self.entries[i].0 == *name {
                proof {
                    lemma_entries_map_lookup(self.entries@, name@);
                }
                assert(self.entries@[i as int].0@ == name@);
                return Some(i);
            }
            i = i + 1;
        }
        None
    }

    /// Whether a text is held under `name`.
    pub fn contains(&self, name: &String) -> (r: bool)
        requires
            self.wf(),
        ensures
            r == self@.contains_key(name@),
    {
        self.find(name).is_some()
    }

    /// The text held under `name`, if any.
    pub fn get(&self, name: &String) -> (r: Option<String>)
        requires
            self.wf(),
        ensures
            r is None <==> !self@.contains_key(name@),
            r matches Some(t) ==> self@[name@] == t@,
    {
        proof {
            lemma_entries_map_lookup(self.entries@, name@);
        }
        match self.find(name) {
            Some(i) => Some(self.entries[i].1.clone()),
            None => None,
        }
    }

    /// Records `text` under `name` unless the name is already held, in which
    /// case the bundle is left as it is (the first text wins). Returns whether
    /// the text was recorded.
    pub fn insert(&mut self, name: String, text: String) -> (r: bool)
        requires
            old(self).wf(),
        ensures
            final(self).wf(),
            r == !old(self)@.contains_key(name@),
            final(self)@ == if r { old(self)@.insert(name@, text@) } else { old(self)@ },
    {
        if self.contains(&name) {
            false
        } else {
            proof {
                lemma_entries_map_lookup(self.entries@, name@);
            }
            let ghost before = self.entries@;
            self.entries.push((name, text));
            proof {
                assert(self.entries@.drop_last() == before);
                assert forall|i: int, j: int|
                    0 <= i < j < self.entries@.len() implies #[trigger] self.entries@[i].0@
                    != #[trigger] self.entries@[j].0@ by {
                    if j == before.len() {
                        assert(self.entries@[i] == before[i]);
                    } else {
                        assert(self.entries@[i] == before[i] && self.entries@[j] == before[j]);
                    }
                }
            }
            true
        }
    }

    /// Whether no text is held at all.
    pub fn is_empty(&self) -> (r: bool)
        requires
            self.wf(),
        ensures
            r == (self@ == Map::<Seq<char>, Seq<char>>::empty()),
    {
        if self.entries.len() == 0 {
            true
        } else {
            let ghost k = self.entries@.last().0@;
            assert(self@.contains_key(k));
            false
        }
    }
}

} // verus!
