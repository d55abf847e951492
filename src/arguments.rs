//! The mapping from parameter names to values that a substitution reads.
use vstd::prelude::*;

verus! {

/// No two entries share a name.
pub open spec fn keys_unique(e: Seq<(String, String)>) -> bool {
    forall|a: int, b: int|
        0 <= a < e.len() && 0 <= b < e.len() && a != b ==> #[trigger] e[a].0@ != #[trigger] e[b].0@
}

/// The mapping that the entries `e` stand for.
pub open spec fn entries_map(e: Seq<(String, String)>) -> Map<Seq<char>, Seq<char>> {
    Map::new(
        |k: Seq<char>| exists|j: int| 0 <= j < e.len() && #[trigger] e[j].0@ == k,
        |k: Seq<char>| e[choose|j: int| 0 <= j < e.len() && #[trigger] e[j].0@ == k].1@,
    )
}

/// With unique names, the entry at `j` is what the mapping gives for its name.
proof fn lemma_entry(e: Seq<(String, String)>, j: int)
    requires
        keys_unique(e),
        0 <= j < e.len(),
    ensures
        entries_map(e).contains_key(e[j].0@),
        entries_map(e)[e[j].0@] == e[j].1@,
{
    let k = e[j].0@;
    assert(entries_map(e).contains_key(k));
    let c = choose|x: int| 0 <= x < e.len() && #[trigger] e[x].0@ == k;
    if c != j {
        assert(e[c].0@ != e[j].0@);
    }
}

/// Index of the entry named `key` in `e`, if there is one.
fn position(e: &Vec<(String, String)>, key: &str) -> (r: Option<usize>)
    ensures
        match r {
            Some(j) => j < e@.len() && e@[j as int].0@ == key@,
            None => forall|x: int| 0 <= x < e@.len() ==> #[trigger] e@[x].0@ != key@,
        },
{
    let k = key.to_owned();
    let mut j: usize = 0;
    while j < e.len()
        invariant
            j <= e@.len(),
            k@ == key@,
            forall|x: int| 0 <= x < j ==> #[trigger] e@[x].0@ != key@,
        decreases e@.len() - j,
    {
        if e[j].0 == k {
            return Some(j);
        }
        j = j + 1;
    }
    None
}

/// A mapping from parameter names to the values put in their place.
///
/// Each name appears at most once; lookups compare names character by character.
pub struct Arguments {
    entries: Vec<(String, String)>,
}

impl Arguments {
    #[verifier::type_invariant]
    closed spec fn well_formed(&self) -> bool {
        keys_unique(self.entries@)
    }
}

impl View for Arguments {
    type V = Map<Seq<char>, Seq<char>>;

    closed spec fn view(&self) -> Map<Seq<char>, Seq<char>> {
        entries_map(self.entries@)
    }
}

impl Arguments {
    /// The empty mapping.
    pub fn new() -> (r: Arguments)
        ensures
            r@ == Map::<Seq<char>, Seq<char>>::empty(),
    {
        let r = Arguments { entries: Vec::new() };
        assert(r@ =~= Map::<Seq<char>, Seq<char>>::empty());
        r
    }

    /// The value given for `key`, if any.
    pub fn get(&self, key: &str) -> (r: Option<&String>)
        ensures
            match r {
                Some(v) => self@.contains_key(key@) && v@ == self@[key@],
                None => !self@.contains_key(key@),
            },
    {
        proof {
            use_type_invariant(self);
        }
        match position(&self.entries, key) {
            Some(j) => {
                proof {
                    lemma_entry(self.entries@, j as int);
                }
                Some(&self.entries[j].1)
            },
            None => None,
        }
    }

    /// Whether a value is given for `key`.
    pub fn contains_key(&self, key: &str) -> (r: bool)
        ensures
            r == self@.contains_key(key@),
    {
        position(&self.entries, key).is_some()
    }

    /// Gives `key` the value `value`, in place of any value it had.
    pub fn insert(&mut self, key: String, value: String)
        ensures
            final(self)@ == old(self)@.insert(key@, value@),
    {
        proof {
            use_type_invariant(&*self);
        }
        let mut entries: Vec<(String, String)> = Vec::new();
        std::mem::swap(&mut entries, &mut self.entries);
        let ghost before = entries@;
        let found = position(&entries, key.as_str());
        let ghost k = key@;
        let ghost v = value@;
        match found {
            Some(j) => {
                entries.set(j, (key, value));
            },
            None => {
                entries.push((key, value));
            },
        }
        let ghost after = entries@;
        proof {
            let n = before.len();
            assert(keys_unique(after)) by {
                assert forall|a: int, b: int|
                    0 <= a < after.len() && 0 <= b < after.len() && a != b implies
                    #[trigger] after[a].0@ != #[trigger] after[b].0@ by {
                    if a < n && b < n {
                        assert(before[a].0@ != before[b].0@);
                    }
                }
            }
            let j = match found { Some(j) => j as int, None => n as int };
            assert(after[j].0@ == k && after[j].1@ == v);
            lemma_entry(after, j);
            let m0 = entries_map(before).insert(k, v);
            let m1 = entries_map(after);
            assert forall|q: Seq<char>|
                #[trigger] m1.contains_key(q) == m0.contains_key(q) && (m1.contains_key(q) ==> m1[q]
                    == m0[q]) by {
                if q != k {
                    if m1.contains_key(q) {
                        let x = choose|x: int| 0 <= x < after.len() && #[trigger] after[x].0@ == q;
                        assert(x != j && x < n);
                        assert(before[x].0@ == q);
                    }
                    if entries_map(before).contains_key(q) {
                        let x = choose|x: int|
                            0 <= x < before.len() && #[trigger] before[x].0@ == q;
                        assert(after[x] == before[x]);
                        lemma_entry(before, x);
                        lemma_entry(after, x);
                    }
                }
            }
            assert(m1 =~= m0);
        }
        self.entries = entries;
    }
}

} // verus!
