use vstd::prelude::*;
use crate::text_map::TextMap;
use vstd::string::to_string_from_display_ensures_for_str;

verus! {

/// A code list could not be loaded; `path` names the file.
pub struct CodeListError {
    pub path: String,
    pub message: String,
}

/// The code lists loaded so far, from canonical file path to code list, in
/// the order in which they were loaded.
pub open spec fn cache_map(s: Seq<(String, TextMap)>) -> Map<Seq<char>, Map<Seq<char>, Seq<char>>>
    decreases s.len(),
{
    if s.len() == 0 {
        Map::empty()
    } else {
        cache_map(s.drop_last()).insert(s.last().0@, s.last().1@)
    }
}

proof fn lemma_cache_map_index(s: Seq<(String, TextMap)>, i: int)
    requires
        0 <= i < s.len(),
        forall|j: int| i < j < s.len() ==> #[trigger] s[j].0@ != s[i].0@,
    ensures
        cache_map(s).contains_key(s[i].0@),
        cache_map(s)[s[i].0@] == s[i].1@,
    decreases s.len(),
{
    if i < s.len() - 1 {
        lemma_cache_map_index(s.drop_last(), i);
    }
}

proof fn lemma_cache_map_miss(s: Seq<(String, TextMap)>, k: Seq<char>)
    requires
        forall|j: int| 0 <= j < s.len() ==> #[trigger] s[j].0@ != k,
    ensures
        !cache_map(s).contains_key(k),
    decreases s.len(),
{
    if s.len() > 0 {
        lemma_cache_map_miss(s.drop_last(), k);
    }
}

/// Memoised code lists of one file-processing task; entries are never removed.
pub struct CodeSpaceCache {
    entries: Vec<(String, TextMap)>,
}

impl View for CodeSpaceCache {
    type V = Map<Seq<char>, Map<Seq<char>, Seq<char>>>;

    closed spec fn view(&self) -> Self::V {
        cache_map(self.entries@)
    }
}

impl CodeSpaceCache {
    pub fn new() -> (r: CodeSpaceCache)
        ensures
            r@ == Map::<Seq<char>, Map<Seq<char>, Seq<char>>>::empty(),
    {
        CodeSpaceCache { entries: Vec::new() }
    }

    /// The position of the code list cached under `path`, if any.
    fn position(&self, path: &String) -> (r: Option<usize>)
        ensures
            r is Some <==> self@.contains_key(path@),
            r matches Some(i) ==> i < self.entries@.len() && self.entries@[i as int].1@ == self@[path@],
    {
        let mut i: usize = self.entries.len();
        while i > 0
            invariant
                i <= self.entries@.len(),
                forall|j: int| i <= j < self.entries@.len() ==> #[trigger] self.entries@[j].0@ != path@,
            decreases i,
        {
            if self.entries[i - 1].0 == *path {
                proof {
                    lemma_cache_map_index(self.entries@, i - 1);
                }
                return Some(i - 1);
            }
            i = i - 1;
        }
        proof {
            lemma_cache_map_miss(self.entries@, path@);
        }
        None
    }

    /// Whether a code list is cached under `path`.
    pub fn contains(&self, path: &String) -> (r: bool)
        ensures
            r == self@.contains_key(path@),
    {
        self.position(path).is_some()
    }
}

/// What a lookup of `path` in a cache that held `before` may leave behind:
/// a cached code list is returned as it is and the cache is unchanged; a
/// missing one is loaded and, when loading succeeds, added.
pub open spec fn code_map_outcome(
    before: Map<Seq<char>, Map<Seq<char>, Seq<char>>>,
    path: Seq<char>,
    r: Result<Map<Seq<char>, Seq<char>>, Seq<char>>,
    after: Map<Seq<char>, Map<Seq<char>, Seq<char>>>,
) -> bool {
    if before.contains_key(path) {
        r == Ok::<Map<Seq<char>, Seq<char>>, Seq<char>>(before[path]) && after == before
    } else {
        match r {
            Ok(m) => after == before.insert(path, m),
            Err(p) => p == path && after == before,
        }
    }
}

/// A second lookup of a path whose first lookup succeeded finds the same code
/// list and leaves the cache as the first left it: nothing is loaded twice.
pub proof fn lemma_code_map_idempotent(
    c0: Map<Seq<char>, Map<Seq<char>, Seq<char>>>,
    path: Seq<char>,
    r1: Result<Map<Seq<char>, Seq<char>>, Seq<char>>,
    c1: Map<Seq<char>, Map<Seq<char>, Seq<char>>>,
    r2: Result<Map<Seq<char>, Seq<char>>, Seq<char>>,
    c2: Map<Seq<char>, Map<Seq<char>, Seq<char>>>,
)
    requires
        code_map_outcome(c0, path, r1, c1),
        r1 is Ok,
        code_map_outcome(c1, path, r2, c2),
    ensures
        c1.contains_key(path),
        r2 == r1,
        c2 == c1,
{
}

/// The code list cached under `path`; on a miss `load` reads it and it is
/// cached. `load` is called only on a miss.
pub fn get_code_map<'a, F>(cache: &'a mut CodeSpaceCache, path: &String, load: F) -> (r: Result<
    &'a TextMap,
    CodeListError,
>) where F: FnOnce(&String) -> Result<TextMap, String>
    requires
        !old(cache)@.contains_key(path@) ==> load.requires((path,)),
    ensures
        code_map_outcome(
            old(cache)@,
            path@,
            match r {
                Ok(m) => Ok(m@),
                Err(e) => Err(e.path@),
            },
            final(cache)@,
        ),
        !old(cache)@.contains_key(path@) ==> match r {
            Ok(m) => exists|l: TextMap| load.ensures((path,), Ok::<TextMap, String>(l)) && l@ == m@,
            Err(e) => exists|msg: String|
                load.ensures((path,), Err::<TextMap, String>(msg)) && e.message == msg,
        },
{
    match cache.position(path) {
        Some(i) => Ok(&cache.entries[i].1),
        None => {
            match load(path) {
                Ok(m) => {
                    let ghost before = cache.entries@;
                    cache.entries.push((path.clone(), m));
                    let n = cache.entries.len() - 1;
                    proof {
                        assert(cache.entries@.drop_last() =~= before);
                    }
                    Ok(&cache.entries[n].1)
                },
                Err(msg) => Err(CodeListError { path: path.clone(), message: msg }),
            }
        },
    }
}

/// The part of a code-list definition whose text is being read.
#[derive(Clone, Copy, PartialEq, Eq, Structural, Debug)]
pub enum DefinitionField {
    Outside,
    Name,
    Description,
}

pub struct BuilderView {
    pub entries: Map<Seq<char>, Seq<char>>,
    pub field: DefinitionField,
    pub name: Option<Seq<char>>,
    pub description: Option<Seq<char>>,
}

/// Builds a code list from the events of a dictionary document: each
/// `gml:Definition` maps the text of its `gml:name` (the code) to the text of
/// its `gml:description` (the label).
pub struct CodeListBuilder {
    entries: TextMap,
    field: DefinitionField,
    name: Option<String>,
    description: Option<String>,
}

impl View for CodeListBuilder {
    type V = BuilderView;

    closed spec fn view(&self) -> BuilderView {
        BuilderView {
            entries: self.entries@,
            field: self.field,
            name: crate::scope::opt_view(self.name),
            description: crate::scope::opt_view(self.description),
        }
    }
}

fn owned(s: &str) -> (r: String)
    ensures
        r@ == s@,
{
    let r = s.to_string();
    proof {
        to_string_from_display_ensures_for_str(s, r);
    }
    r
}

impl CodeListBuilder {
    pub fn new() -> (r: CodeListBuilder)
        ensures
            r@ == (BuilderView {
                entries: Map::empty(),
                field: DefinitionField::Outside,
                name: None,
                description: None,
            }),
    {
        CodeListBuilder { entries: TextMap::new(), field: DefinitionField::Outside, name: None, description: None }
    }

    /// A start tag: `gml:Definition` begins a definition with neither part
    /// read; `gml:name` and `gml:description` select the part that text fills.
    pub fn on_start(&mut self, tag_name: &str)
        ensures
            final(self)@ == (if tag_name@ == "gml:Definition"@ {
                BuilderView { field: DefinitionField::Outside, name: None, description: None, ..old(self)@ }
            } else if tag_name@ == "gml:name"@ {
                BuilderView { field: DefinitionField::Name, ..old(self)@ }
            } else if tag_name@ == "gml:description"@ {
                BuilderView { field: DefinitionField::Description, ..old(self)@ }
            } else {
                old(self)@
            }),
    {
        let tag = owned(tag_name);
        if tag == owned("gml:Definition") {
            self.field = DefinitionField::Outside;
            self.name = None;
            self.description = None;
        } else if tag == owned("gml:name") {
            self.field = DefinitionField::Name;
        } else if tag == owned("gml:description") {
            self.field = DefinitionField::Description;
        }
    }

    /// Text fills the selected part of the definition.
    pub fn on_text(&mut self, text: &str)
        ensures
            final(self)@ == (match old(self)@.field {
                DefinitionField::Name => BuilderView { name: Some(text@), ..old(self)@ },
                DefinitionField::Description => BuilderView { description: Some(text@), ..old(self)@ },
                DefinitionField::Outside => old(self)@,
            }),
    {
        match self.field {
            DefinitionField::Name => self.name = Some(owned(text)),
            DefinitionField::Description => self.description = Some(owned(text)),
            DefinitionField::Outside => {},
        }
    }

    /// An end tag closes the selected part; the end of a definition with both
    /// parts adds its entry.
    pub fn on_end(&mut self, tag_name: &str)
        ensures
            ({
                let v = old(self)@;
                final(self)@ == (if tag_name@ == "gml:Definition"@ {
                    BuilderView {
                        entries: if v.name is Some && v.description is Some {
                            v.entries.insert(v.name->0, v.description->0)
                        } else {
                            v.entries
                        },
                        field: DefinitionField::Outside,
                        name: None,
                        description: None,
                    }
                } else {
                    BuilderView { field: DefinitionField::Outside, ..v }
                })
            }),
    {
        let tag = owned(tag_name);
        if tag == owned("gml:Definition") {
            let mut name = None;
            let mut description = None;
            std::mem::swap(&mut name, &mut self.name);
            std::mem::swap(&mut description, &mut self.description);
            if let Some(n) = name {
                if let Some(d) = description {
                    self.entries.insert(n, d);
                }
            }
        }
        self.field = DefinitionField::Outside;
    }

    /// The code list read so far.
    pub fn finish(self) -> (r: TextMap)
        ensures
            r@ == self@.entries,
    {
        self.entries
    }
}

} // verus!
