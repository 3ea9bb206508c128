use vstd::prelude::*;

use crate::strutil::str_eq;

verus! {

/// True when no two entries of the association list share a key.
pub open spec fn keys_unique(pairs: Seq<(String, String)>) -> bool {
    forall|i: int, j: int| 0 <= i < j < pairs.len() ==> pairs[i].0@ != pairs[j].0@
}

/// The mapping an association list stands for; with unique keys the
/// direction of the fold does not matter.
pub open spec fn map_of(pairs: Seq<(String, String)>) -> Map<Seq<char>, Seq<char>>
    decreases pairs.len(),
{
    if pairs.len() == 0 {
        Map::empty()
    } else {
        map_of(pairs.drop_last()).insert(pairs.last().0@, pairs.last().1@)
    }
}

/// What a `key=value` argument splits into: the text left and right of
/// the one `=`, or nothing when the text does not hold exactly one.
pub open spec fn spec_parse_parameter(s: Seq<char>) -> Option<(Seq<char>, Seq<char>)> {
    match crate::scan::spec_find_char(s, 0, '=') {
        Some(i) => if crate::scan::spec_find_char(s, i + 1, '=') is None {
            Some((s.subrange(0, i), s.subrange(i + 1, s.len() as int)))
        } else {
            None
        },
        None => None,
    }
}

/// Split a command-line `key=value` argument.  Arguments without
/// exactly one `=` are not parameter bindings and yield nothing.
pub fn parse_parameter(s: &str) -> (r: Option<(String, String)>)
    ensures
        match r {
            Some((k, v)) => spec_parse_parameter(s@) == Some((k@, v@)),
            None => spec_parse_parameter(s@) is None,
        },
{
    let chars = crate::strutil::to_chars(s);
    match crate::scan::find_char(&chars, 0, '=') {
        Some(i) => {
            match crate::scan::find_char(&chars, i + 1, '=') {
                Some(_) => None,
                None => {
                    let key = crate::strutil::string_from_range(&chars, 0, i);
                    let value = crate::strutil::string_from_range(&chars, i + 1, chars.len());
                    Some((key, value))
                },
            }
        },
        None => None,
    }
}

/// A parameter mapping from names to string values, with unique keys.
///
/// Task parameters, including the reserved `provides` and `unless`
/// entries, live in one of these.
#[derive(Clone, Debug)]
pub struct ParamMap {
    pairs: Vec<(String, String)>,
}

proof fn lemma_map_of_absent(pairs: Seq<(String, String)>, k: Seq<char>)
    requires
        forall|i: int| 0 <= i < pairs.len() ==> pairs[i].0@ != k,
    ensures
        !map_of(pairs).contains_key(k),
    decreases pairs.len(),
{
    if pairs.len() > 0 {
        lemma_map_of_absent(pairs.drop_last(), k);
    }
}

proof fn lemma_map_of_present(pairs: Seq<(String, String)>, i: int)
    requires
        keys_unique(pairs),
        0 <= i < pairs.len(),
    ensures
        map_of(pairs).contains_key(pairs[i].0@),
        map_of(pairs)[pairs[i].0@] == pairs[i].1@,
    decreases pairs.len(),
{
    if i < pairs.len() - 1 {
        lemma_map_of_present(pairs.drop_last(), i);
        assert(pairs.drop_last()[i] == pairs[i]);
        assert(pairs[i].0@ != pairs.last().0@);
    }
}

proof fn lemma_map_of_remove(pairs: Seq<(String, String)>, i: int)
    requires
        keys_unique(pairs),
        0 <= i < pairs.len(),
    ensures
        map_of(pairs.remove(i)) =~= map_of(pairs).remove(pairs[i].0@),
    decreases pairs.len(),
{
    let k = pairs[i].0@;
    if i == pairs.len() - 1 {
        assert(pairs.remove(i) =~= pairs.drop_last());
        assert(forall|j: int| 0 <= j < pairs.drop_last().len() ==> pairs.drop_last()[j].0@ != k);
        lemma_map_of_absent(pairs.drop_last(), k);
        assert(map_of(pairs.drop_last()) =~= map_of(pairs).remove(k));
    } else {
        lemma_map_of_remove(pairs.drop_last(), i);
        assert(pairs.remove(i).drop_last() =~= pairs.drop_last().remove(i));
        assert(pairs.remove(i).last() == pairs.last());
    }
}

impl ParamMap {
    /// The mapping this value stands for.
    pub closed spec fn view(&self) -> Map<Seq<char>, Seq<char>> {
        map_of(self.pairs@)
    }

    /// The entries in insertion order; exposed so that the view stays
    /// connected to what iteration over the entries sees.
    pub closed spec fn spec_entries(&self) -> Seq<(String, String)> {
        self.pairs@
    }

    /// Well-formedness: no key is bound twice.  Every constructor
    /// establishes this and every method preserves it.
    pub open spec fn wf(&self) -> bool {
        keys_unique(self.spec_entries())
    }

    /// An empty parameter mapping.
    pub fn new() -> (r: Self)
        ensures
            r.wf(),
            r@ == Map::<Seq<char>, Seq<char>>::empty(),
            r.spec_entries().len() == 0,
    {
        Self { pairs: Vec::new() }
    }

    fn find(&self, key: &str) -> (r: Option<usize>)
        ensures
            match r {
                Some(i) => i < self.spec_entries().len() && self.spec_entries()[i as int].0@
                    == key@,
                None => forall|j: int|
                    0 <= j < self.spec_entries().len() ==> self.spec_entries()[j].0@ != key@,
            },
    {
        let mut i: usize = 0;
        let n = self.pairs.len();
        while i < n
            invariant
                n == self.pairs@.len(),
                i <= n,
                forall|j: int| 0 <= j < i ==> self.pairs@[j].0@ != key@,
            decreases n - i,
        {
            if str_eq(self.pairs[i].0.as_str(), key) {
                return Some(i);
            }
            i = i + 1;
        }
        None
    }

    /// Bind `key` to `value`, replacing any earlier binding of the same key.
    pub fn insert(&mut self, key: String, value: String)
        requires
            old(self).wf(),
        ensures
            final(self).wf(),
            final(self)@ == old(self)@.insert(key@, value@),
    {
        let ghost m0 = self@;
        let ghost k = key@;
        let found = self.find(key.as_str());
        if let Some(i) = found {
            let ghost before = self.pairs@;
            proof {
                lemma_map_of_remove(before, i as int);
            }
            self.pairs.remove(i);
            proof {
                assert(keys_unique(self.pairs@)) by {
                    assert(forall|a: int|
                        0 <= a < self.pairs@.len() ==> (#[trigger] self.pairs@[a]) == if a < i {
                            before[a]
                        } else {
                            before[a + 1]
                        });
                }
                assert(forall|j: int| 0 <= j < self.pairs@.len() ==> self.pairs@[j].0@ != k) by {
                    assert(forall|a: int|
                        0 <= a < self.pairs@.len() ==> (#[trigger] self.pairs@[a]) == if a < i {
                            before[a]
                        } else {
                            before[a + 1]
                        });
                }
                assert(map_of(self.pairs@) == m0.remove(k));
            }
        } else {
            proof {
                lemma_map_of_absent(self.pairs@, k);
            }
        }
        let ghost mid = self.pairs@;
        self.pairs.push((key, value));
        proof {
            assert(self.pairs@.drop_last() =~= mid);
            assert(self.pairs@.last() == (key, value));
            assert(map_of(self.pairs@) == map_of(mid).insert(k, value@));
            assert(map_of(self.pairs@) =~= m0.insert(k, value@));
            assert(keys_unique(self.pairs@)) by {
                assert(forall|j: int| 0 <= j < mid.len() ==> mid[j].0@ != k);
                assert(forall|a: int|
                    0 <= a < mid.len() ==> (#[trigger] self.pairs@[a]) == mid[a]);
            }
        }
    }

    /// Look a key up; `Some` exactly when the mapping contains it.
    pub fn get(&self, key: &str) -> (r: Option<&String>)
        requires
            self.wf(),
        ensures
            match r {
                Some(v) => self@.contains_key(key@) && v@ == self@[key@],
                None => !self@.contains_key(key@),
            },
    {
        let found = self.find(key);
        match found {
            Some(i) => {
                proof {
                    lemma_map_of_present(self.pairs@, i as int);
                }
                Some(&self.pairs[i].1)
            }
            None => {
                proof {
                    lemma_map_of_absent(self.pairs@, key@);
                }
                None
            }
        }
    }

    /// Whether the mapping binds `key`.
    pub fn contains_key(&self, key: &str) -> (r: bool)
        requires
            self.wf(),
        ensures
            r == self@.contains_key(key@),
    {
        self.get(key).is_some()
    }

    /// An owned copy with the very same entries.
    pub fn duplicate(&self) -> (r: Self)
        ensures
            r.spec_entries() == self.spec_entries(),
            r@ == self@,
            self.wf() ==> r.wf(),
    {
        let mut pairs: Vec<(String, String)> = Vec::new();
        let n = self.pairs.len();
        let mut i: usize = 0;
        while i < n
            invariant
                n == self.pairs@.len(),
                i <= n,
                pairs@ =~= self.pairs@.subrange(0, i as int),
            decreases n - i,
        {
            pairs.push((self.pairs[i].0.clone(), self.pairs[i].1.clone()));
            assert(pairs@ =~= self.pairs@.subrange(0, i as int + 1));
            i = i + 1;
        }
        assert(pairs@ =~= self.pairs@);
        Self { pairs }
    }

    /// The entries, in insertion order, for callers that need to walk them.
    pub fn entries(&self) -> (r: &Vec<(String, String)>)
        ensures
            r@ == self.spec_entries(),
            map_of(r@) == self@,
    {
        &self.pairs
    }
}

} // verus!
