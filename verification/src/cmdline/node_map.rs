//! A map from keywords to grammar nodes in which a keyword occurs once.

use vstd::prelude::*;
use vstd::string::StringSliceAdditionalSpecFns;

verus! {

/// Whether two texts are the same text.
pub fn str_eq(a: &str, b: &str) -> (r: bool)
    ensures
        r == (a@ == b@),
{
    let x = a.as_bytes();
    let y = b.as_bytes();
    if x.len() != y.len() {
        return false;
    }
    let mut i: usize = 0;
    while i < x.len()
        invariant
            i <= x.len(),
            x.len() == y.len(),
            x@ == a.spec_bytes(),
            y@ == b.spec_bytes(),
            forall|j: int| 0 <= j < i ==> x@[j] == y@[j],
        decreases x.len() - i,
    {
        if x[i] != y[i] {
            return false;
        }
        i += 1;
    }
    proof {
        assert(x@ =~= y@);
        vstd::utf8::encode_utf8_decode_utf8(a@);
        vstd::utf8::encode_utf8_decode_utf8(b@);
    }
    true
}

/// The texts of a run of tokens.
pub open spec fn tokens(input: Seq<String>) -> Seq<Seq<char>> {
    input.map_values(|t: String| t@)
}

/// Takes `count` tokens from the front of `input`.
pub(crate) fn drop_tokens(input: &mut Vec<String>, count: usize)
    requires
        count <= old(input).len(),
    ensures
        final(input)@ == old(input)@.skip(count as int),
        tokens(final(input)@) == tokens(old(input)@).skip(count as int),
{
    let mut done: usize = 0;
    while done < count
        invariant
            done <= count <= old(input).len(),
            input@ == old(input)@.skip(done as int),
        decreases count - done,
    {
        let _ = input.remove(0);
        done += 1;
        assert(input@ =~= old(input)@.skip(done as int));
    }
    assert(tokens(input@) =~= tokens(old(input)@).skip(count as int));
}

/// The nodes of one grammar level, each under its keyword.
pub struct NodeMap<V> {
    entries: Vec<(String, V)>,
}

impl<V> View for NodeMap<V> {
    type V = Map<Seq<char>, V>;

    closed spec fn view(&self) -> Map<Seq<char>, V> {
        Map::new(
            |k: Seq<char>| self.position(k) < self.entries.len(),
            |k: Seq<char>| self.entries[self.position(k)].1,
        )
    }
}

impl<V> NodeMap<V> {
    #[verifier::type_invariant]
    spec fn keywords_differ(self) -> bool {
        self.wf()
    }

    /// No keyword occurs twice.
    pub closed spec fn wf(&self) -> bool {
        forall|i: int, j: int|
            0 <= i < j < self.entries.len() ==> self.entries[i].0@ != self.entries[j].0@
    }

    /// The place of the first entry under `k`, or the number of entries if
    /// there is none.
    spec fn position(&self, k: Seq<char>) -> int {
        Self::first(self.entries@, k)
    }

    spec fn first(entries: Seq<(String, V)>, k: Seq<char>) -> int
        decreases entries.len(),
    {
        if entries.len() == 0 {
            0
        } else if entries[0].0@ == k {
            0
        } else {
            1 + Self::first(entries.skip(1), k)
        }
    }

    proof fn lemma_first(entries: Seq<(String, V)>, k: Seq<char>)
        ensures
            0 <= Self::first(entries, k) <= entries.len(),
            Self::first(entries, k) < entries.len() ==> entries[Self::first(entries, k)].0@ == k,
            forall|i: int| 0 <= i < Self::first(entries, k) ==> entries[i].0@ != k,
        decreases entries.len(),
    {
        if entries.len() > 0 && entries[0].0@ != k {
            Self::lemma_first(entries.skip(1), k);
            assert forall|i: int| 0 <= i < Self::first(entries, k) implies entries[i].0@ != k by {
                if i > 0 {
                    assert(entries.skip(1)[i - 1] == entries[i]);
                }
            }
        }
    }

    /// A map without entries.
    pub fn new() -> (r: Self)
        ensures
            r@ == Map::<Seq<char>, V>::empty(),
    {
        let r = NodeMap { entries: Vec::new() };
        proof {
            assert forall|k: Seq<char>| !(#[trigger] r@.contains_key(k)) by {
                Self::lemma_first(r.entries@, k);
            }
            assert(r@ =~= Map::<Seq<char>, V>::empty());
        }
        r
    }

    /// The place of the entry under `name`, or the number of entries.
    fn find(&self, name: &str) -> (i: usize)
        ensures
            i == self.position(name@),
            i <= self.entries.len(),
    {
        proof {
            Self::lemma_first(self.entries@, name@);
        }
        let mut i: usize = 0;
        while i < self.entries.len()
            invariant
                i <= self.entries.len(),
                forall|j: int| 0 <= j < i ==> self.entries[j].0@ != name@,
                0 <= self.position(name@) <= self.entries.len(),
                self.position(name@) < self.entries.len() ==> self.entries[self.position(
                    name@,
                )].0@ == name@,
                forall|j: int| 0 <= j < self.position(name@) ==> self.entries[j].0@ != name@,
            decreases self.entries.len() - i,
        {
            if str_eq(self.entries[i].0.as_str(), name) {
                return i;
            }
            i += 1;
        }
        i
    }

    /// The node under `name`, if there is one.
    pub fn get(&self, name: &str) -> (r: Option<&V>)
        ensures
            match r {
                Some(v) => self@.contains_key(name@) && *v == self@[name@],
                None => !self@.contains_key(name@),
            },
    {
        let i = self.find(name);
        if i < self.entries.len() {
            Some(&self.entries[i].1)
        } else {
            None
        }
    }

    /// Puts `value` under `name`. A node that stood under `name` is replaced.
    pub fn insert(&mut self, name: String, value: V)
        ensures
            final(self)@ == old(self)@.insert(name@, value),
    {
        proof {
            use_type_invariant(&*self);
        }
        let i = self.find(name.as_str());
        let ghost before = self.entries@;
        let ghost key = name@;
        let mut entries: Vec<(String, V)> = Vec::new();
        std::mem::swap(&mut self.entries, &mut entries);
        if i < entries.len() {
            entries.set(i, (name, value));
        } else {
            entries.push((name, value));
        }
        proof {
            let after = entries@;
            assert forall|a: int, b: int| 0 <= a < b < after.len() implies after[a].0@
                != after[b].0@ by {
                Self::lemma_first(before, key);
                if a != i && b != i {
                    assert(before[a].0@ != before[b].0@);
                }
            }
        }
        self.entries = entries;
        proof {
            let after = self.entries@;
            assert forall|k: Seq<char>| #![trigger Self::first(after, k)]
                Self::first(after, k) < after.len() <==> (k == key || Self::first(before, k)
                    < before.len()) by {
                Self::lemma_first(after, k);
                Self::lemma_first(before, k);
                Self::lemma_first(before, key);
                if Self::first(after, k) < after.len() {
                    let p = Self::first(after, k);
                    if p != i {
                        assert(before[p].0@ == k);
                    }
                } else if k == key {
                    assert(after[i as int].0@ == key);
                } else if Self::first(before, k) < before.len() {
                    let p = Self::first(before, k);
                    assert(after[p].0@ == k);
                }
            }
            assert forall|k: Seq<char>| #![trigger Self::first(after, k)]
                Self::first(after, k) < after.len() implies after[Self::first(after, k)].1 == (if k
                == key {
                value
            } else {
                before[Self::first(before, k)].1
            }) by {
                Self::lemma_first(after, k);
                Self::lemma_first(before, k);
                Self::lemma_first(before, key);
                let p = Self::first(after, k);
                if k == key {
                    if p != i {
                        assert(before[p].0@ == key);
                    }
                } else {
                    assert(p != i);
                    let q = Self::first(before, k);
                    assert(before[p].0@ == k);
                    assert(after[q].0@ == k);
                }
            }
            assert(self@ =~= old(self)@.insert(key, value));
        }
    }
}

} // verus!
