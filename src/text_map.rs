use vstd::prelude::*;
use vstd::string::to_string_from_display_ensures_for_str;

verus! {

/// The mapping that a sequence of (key, value) writes leaves behind: a later
/// write of a key replaces an earlier one.
pub open spec fn map_of(s: Seq<(String, String)>) -> Map<Seq<char>, Seq<char>>
    decreases s.len(),
{
    if s.len() == 0 {
        Map::empty()
    } else {
        map_of(s.drop_last()).insert(s.last().0@, s.last().1@)
    }
}

/// The label of code `raw` in code list `m`: its mapped value when it is a
/// key, `raw` itself otherwise.
pub open spec fn label_in(m: Map<Seq<char>, Seq<char>>, raw: Seq<char>) -> Seq<char> {
    if m.contains_key(raw) {
        m[raw]
    } else {
        raw
    }
}

/// Keys that none of the entries from index `i` on carries keep the value
/// that the first `i` entries gave them.
pub proof fn lemma_map_of_prefix(s: Seq<(String, String)>, i: int, k: Seq<char>)
    requires
        0 <= i <= s.len(),
        forall|j: int| i <= j < s.len() ==> #[trigger] s[j].0@ != k,
    ensures
        map_of(s).contains_key(k) == map_of(s.take(i)).contains_key(k),
        map_of(s).contains_key(k) ==> map_of(s)[k] == map_of(s.take(i))[k],
    decreases s.len(),
{
    if s.len() == i {
        assert(s.take(i) =~= s);
    } else {
        assert(s.drop_last().take(i) =~= s.take(i));
        assert(s[s.len() - 1].0@ != k);
        lemma_map_of_prefix(s.drop_last(), i, k);
    }
}

/// An ordered string-to-string mapping with last-writer-wins semantics.
pub struct TextMap {
    entries: Vec<(String, String)>,
}

impl View for TextMap {
    type V = Map<Seq<char>, Seq<char>>;

    closed spec fn view(&self) -> Map<Seq<char>, Seq<char>> {
        map_of(self.entries@)
    }
}

impl TextMap {
    /// The writes made so far, in order.
    pub closed spec fn writes(&self) -> Seq<(String, String)> {
        self.entries@
    }

    pub fn new() -> (r: TextMap)
        ensures
            r@ == Map::<Seq<char>, Seq<char>>::empty(),
    {
        TextMap { entries: Vec::new() }
    }

    /// Writes `value` under `key`, replacing what was there.
    pub fn insert(&mut self, key: String, value: String)
        ensures
            final(self)@ == old(self)@.insert(key@, value@),
    {
        let ghost before = self.entries@;
        self.entries.push((key, value));
        proof {
            assert(self.entries@.drop_last() =~= before);
        }
    }

    /// The value written last under `key`, if any.
    pub fn get(&self, key: &str) -> (r: Option<String>)
        ensures
            r is Some <==> self@.contains_key(key@),
            r is Some ==> r->0@ == self@[key@],
    {
        let wanted = key.to_string();
        proof {
            to_string_from_display_ensures_for_str(key, wanted);
        }
        let mut i: usize = self.entries.len();
        while i > 0
            invariant
                i <= self.entries@.len(),
                wanted@ == key@,
                forall|j: int| i <= j < self.entries@.len() ==> #[trigger] self.entries@[j].0@ != key@,
            decreases i,
        {
            let k = &self.entries[i - 1].0;
            if *k == wanted {
                proof {
                    let s = self.entries@;
                    lemma_map_of_prefix(s, i as int, key@);
                    assert(s.take(i as int).drop_last() =~= s.take(i - 1));
                }
                return Some(self.entries[i - 1].1.clone());
            }
            i = i - 1;
        }
        proof {
            lemma_map_of_prefix(self.entries@, 0, key@);
            assert(self.entries@.take(0) =~= Seq::<(String, String)>::empty());
        }
        None
    }

    /// The label of a code: its mapped value when the code is a key, the code
    /// itself otherwise.
    pub fn label_of(&self, raw: &str) -> (r: String)
        ensures
            r@ == label_in(self@, raw@),
    {
        match self.get(raw) {
            Some(label) => label,
            None => {
                let r = raw.to_string();
                proof {
                    to_string_from_display_ensures_for_str(raw, r);
                }
                r
            },
        }
    }

    /// The number of writes made so far, in order; a key may appear more than once.
    pub fn len(&self) -> (r: usize)
        ensures
            r == self.writes().len(),
    {
        self.entries.len()
    }

    /// The write at position `i`, as (key, value).
    pub fn entry(&self, i: usize) -> (r: (String, String))
        requires
            i < self.writes().len(),
        ensures
            r == self.writes()[i as int],
    {
        let e = &self.entries[i];
        (e.0.clone(), e.1.clone())
    }
}

} // verus!
