//! The mapping table: romanized keys and the glyphs that each may stand for.

use vstd::prelude::*;
use crate::chars::ESCAPE;
use crate::types::{glyphs_of, BengaliChar, Glyph};

verus! {

/// The length of the longest key that a table may hold.
pub const MAX_KEY_LEN: usize = 5;

/// One key of the table with its candidate glyphs, in the order of declaration.
struct Mapping {
    key: Vec<char>,
    candidates: Vec<BengaliChar>,
}

/// The mapping table. Its value is a map from keys to candidate lists.
pub struct MappingTable {
    entries: Vec<Mapping>,
}

/// A glyph that an escape sequence may stand for.
pub open spec fn is_escape_glyph(g: Glyph) -> bool {
    g is Special || g is Symbol
}

/// What holds of every key and its candidates: the key has between one and
/// `MAX_KEY_LEN` characters, there is at least one candidate, and a key that
/// starts with the escape lead has only specials and symbols.
pub open spec fn entry_ok(key: Seq<char>, candidates: Seq<Glyph>) -> bool {
    &&& 1 <= key.len() <= MAX_KEY_LEN
    &&& candidates.len() >= 1
    &&& key[0] == ESCAPE ==> forall|i: int|
        0 <= i < candidates.len() ==> is_escape_glyph(#[trigger] candidates[i])
}

/// A map is a well-formed table if `entry_ok` holds of each of its keys.
pub open spec fn table_ok(m: Map<Seq<char>, Seq<Glyph>>) -> bool {
    forall|k: Seq<char>| #[trigger] m.contains_key(k) ==> entry_ok(k, m[k])
}

spec fn has_key(es: Seq<Mapping>, k: Seq<char>) -> bool {
    exists|i: int| 0 <= i < es.len() && (#[trigger] es[i]).key@ == k
}

spec fn index_of(es: Seq<Mapping>, k: Seq<char>) -> int {
    choose|i: int| 0 <= i < es.len() && (#[trigger] es[i]).key@ == k
}

spec fn distinct_keys(es: Seq<Mapping>) -> bool {
    forall|i: int, j: int|
        0 <= i < es.len() && 0 <= j < es.len() && (#[trigger] es[i]).key@ == (#[trigger] es[j]).key@
            ==> i == j
}

spec fn entries_map(es: Seq<Mapping>) -> Map<Seq<char>, Seq<Glyph>> {
    Map::new(
        |k: Seq<char>| has_key(es, k),
        |k: Seq<char>| glyphs_of(es[index_of(es, k)].candidates@),
    )
}

impl View for MappingTable {
    type V = Map<Seq<char>, Seq<Glyph>>;

    closed spec fn view(&self) -> Map<Seq<char>, Seq<Glyph>> {
        entries_map(self.entries@)
    }
}

/// Whether two character vectors hold the same characters.
pub fn same_chars(a: &Vec<char>, b: &Vec<char>) -> (r: bool)
    ensures
        r == (a@ == b@),
{
    if a.len() != b.len() {
        return false;
    }
    let mut i: usize = 0;
    while i < a.len()
        invariant
            a.len() == b.len(),
            i <= a.len(),
            a@.take(i as int) == b@.take(i as int),
        decreases a.len() - i,
    {
        if a[i] != b[i] {
            return false;
        }
        proof {
            assert(a@.take(i + 1) =~= a@.take(i as int).push(a@[i as int]));
            assert(b@.take(i + 1) =~= b@.take(i as int).push(b@[i as int]));
        }
        i += 1;
    }
    proof {
        assert(a@.take(a.len() as int) =~= a@);
        assert(b@.take(b.len() as int) =~= b@);
    }
    true
}

impl MappingTable {
    /// The invariant of the type: no key occurs twice, and the map is a
    /// well-formed table.
    pub closed spec fn wf(&self) -> bool {
        &&& distinct_keys(self.entries@)
        &&& table_ok(self@)
    }

    /// A well-formed table is a well-formed map.
    pub proof fn lemma_table_ok(&self)
        requires
            self.wf(),
        ensures
            table_ok(self@),
    {
    }

    /// A table without keys.
    pub fn empty() -> (t: Self)
        ensures
            t.wf(),
            t@ == Map::<Seq<char>, Seq<Glyph>>::empty(),
    {
        let t = MappingTable { entries: Vec::new() };
        proof {
            assert(t@ =~= Map::<Seq<char>, Seq<Glyph>>::empty());
        }
        t
    }

    fn position(&self, key: &Vec<char>) -> (r: Option<usize>)
        ensures
            match r {
                Some(i) => i < self.entries@.len() && self.entries@[i as int].key@ == key@,
                None => !has_key(self.entries@, key@),
            },
    {
        let mut i: usize = 0;
        while i < self.entries.len()
            invariant
                i <= self.entries@.len(),
                forall|j: int| 0 <= j < i ==> (#[trigger] self.entries@[j]).key@ != key@,
            decreases self.entries.len() - i,
        {
            if same_chars(&self.entries[i].key, key) {
                return Some(i);
            }
            i += 1;
        }
        None
    }

    /// Declares `key` with `candidates`, in place of what the table held for it.
    pub fn insert(&mut self, key: Vec<char>, candidates: Vec<BengaliChar>)
        requires
            old(self).wf(),
            entry_ok(key@, glyphs_of(candidates@)),
        ensures
            final(self).wf(),
            final(self)@ == old(self)@.insert(key@, glyphs_of(candidates@)),
    {
        let ghost k = key@;
        let ghost gs = glyphs_of(candidates@);
        let ghost before = self.entries@;
        let found = self.position(&key);
        let m = Mapping { key, candidates };
        match found {
            Some(i) => {
                self.entries.set(i, m);
            },
            None => {
                self.entries.push(m);
            },
        }
        proof {
            let after = self.entries@;
            let at: int = match found {
                Some(i) => i as int,
                None => before.len() as int,
            };
            assert(after[at].key@ == k);
            assert(forall|j: int| 0 <= j < before.len() && j != at ==> after[j] == before[j]);
            assert(distinct_keys(after));
            assert forall|q: Seq<char>| has_key(after, q) == (q == k || has_key(before, q)) by {
                if has_key(after, q) {
                    let j = index_of(after, q);
                    if j != at {
                        assert(before[j].key@ == q);
                    }
                }
                if has_key(before, q) {
                    let j = index_of(before, q);
                    if j != at {
                        assert(after[j].key@ == q);
                    }
                }
            }
            assert forall|q: Seq<char>| has_key(after, q) implies entries_map(after)[q]
                == old(self)@.insert(k, gs)[q] by {
                let j = index_of(after, q);
                if q == k {
                    assert(j == at);
                } else {
                    assert(j != at);
                    assert(before[j].key@ == q);
                    assert(index_of(before, q) == j);
                }
            }
            assert(self@ =~= old(self)@.insert(k, gs));
        }
    }

    /// Declares every key of `other` in this table, in place of what it held
    /// for that key.
    pub fn extend(&mut self, other: MappingTable)
        requires
            old(self).wf(),
            other.wf(),
        ensures
            final(self).wf(),
            final(self)@ == old(self)@.union_prefer_right(other@),
    {
        let mut rest = other.entries;
        proof {
            assert(self@.union_prefer_right(entries_map(rest@)) =~= old(self)@.union_prefer_right(
                other@,
            ));
        }
        while rest.len() > 0
            invariant
                self.wf(),
                distinct_keys(rest@),
                table_ok(entries_map(rest@)),
                self@.union_prefer_right(entries_map(rest@)) == old(self)@.union_prefer_right(
                    other@,
                ),
            decreases rest.len(),
        {
            let ghost before = rest@;
            let ghost mine = self@;
            let last = rest.pop();
            match last {
                Some(m) => {
                    proof {
                        let n = before.len() - 1;
                        assert(before[n] == m);
                        assert(has_key(before, m.key@));
                        assert(index_of(before, m.key@) == n);
                        assert(entries_map(before).contains_key(m.key@));
                        assert forall|q: Seq<char>|
                            has_key(rest@, q) == (q != m.key@ && has_key(before, q)) by {
                            if has_key(rest@, q) {
                                let j = index_of(rest@, q);
                                assert(before[j].key@ == q);
                            }
                            if q != m.key@ && has_key(before, q) {
                                let j = index_of(before, q);
                                assert(rest@[j].key@ == q);
                            }
                        }
                        assert forall|q: Seq<char>| has_key(rest@, q) implies entries_map(rest@)[q]
                            == entries_map(before)[q] by {
                            let j = index_of(rest@, q);
                            assert(before[j].key@ == q);
                            assert(index_of(before, q) == j);
                        }
                        assert(entries_map(rest@) =~= entries_map(before).remove(m.key@));
                        assert(distinct_keys(rest@));
                    }
                    let ghost k = m.key@;
                    let ghost gs = glyphs_of(m.candidates@);
                    self.insert(m.key, m.candidates);
                    proof {
                        assert(self@.union_prefer_right(entries_map(rest@))
                            =~= mine.union_prefer_right(entries_map(before)));
                    }
                },
                None => {},
            }
        }
        proof {
            assert(entries_map(rest@) =~= Map::<Seq<char>, Seq<Glyph>>::empty());
            assert(self@ =~= self@.union_prefer_right(entries_map(rest@)));
        }
    }

    /// The candidates of `key`, if the table holds it.
    pub fn get(&self, key: &Vec<char>) -> (r: Option<&Vec<BengaliChar>>)
        requires
            self.wf(),
        ensures
            r is Some == self@.contains_key(key@),
            r matches Some(cs) ==> glyphs_of(cs@) == self@[key@] && cs@.len() >= 1,
    {
        match self.position(key) {
            Some(i) => {
                proof {
                    let j = index_of(self.entries@, key@);
                    assert(j == i);
                    assert(self@.contains_key(key@));
                }
                Some(&self.entries[i].candidates)
            },
            None => None,
        }
    }
}

} // verus!
