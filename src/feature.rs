use vstd::prelude::*;
use vstd::string::{to_string_from_display_ensures_for_str, StrSliceExecFns, StringExecFns};
use crate::code_list::{CodeListError, CodeSpaceCache};
use crate::geometry::{Footprint, SpatialId};
use crate::scope::{opt_view, scope_wf, CodeSpaceContext, ScopeView};
use crate::text_map::{label_in, lemma_map_of_prefix, map_of, TextMap};

verus! {

/// Whether `p` is a prefix of `s`.
pub open spec fn is_prefix(p: Seq<char>, s: Seq<char>) -> bool {
    p.len() <= s.len() && s.subrange(0, p.len() as int) == p
}

/// Whether `s` starts with `p`.
pub fn has_prefix(s: &str, p: &str) -> (r: bool)
    ensures
        r == is_prefix(p@, s@),
{
    let n = s.unicode_len();
    let m = p.unicode_len();
    if m > n {
        return false;
    }
    let mut i: usize = 0;
    while i < m
        invariant
            m == p@.len(),
            n == s@.len(),
            m <= n,
            i <= m,
            forall|j: int| 0 <= j < i ==> s@[j] == p@[j],
        decreases m - i,
    {
        if s.get_char(i) != p.get_char(i) {
            return false;
        }
        i = i + 1;
    }
    proof {
        assert(s@.subrange(0, m as int) =~= p@);
    }
    true
}

/// What distinguishes one feature theme from another: the root element of a
/// feature, the attribute that carries its identifier, the element whose
/// text is a coordinate list, and the tag prefixes whose text is kept as it
/// is when no code list resolves it.
pub struct ThemeDescriptor {
    pub root_tag: String,
    pub id_attr: String,
    pub geometry_tag: String,
    pub passthrough_prefixes: Vec<String>,
}

pub struct ThemeView {
    pub root_tag: Seq<char>,
    pub id_attr: Seq<char>,
    pub geometry_tag: Seq<char>,
    pub passthrough_prefixes: Seq<Seq<char>>,
}

impl View for ThemeDescriptor {
    type V = ThemeView;

    open spec fn view(&self) -> ThemeView {
        ThemeView {
            root_tag: self.root_tag@,
            id_attr: self.id_attr@,
            geometry_tag: self.geometry_tag@,
            passthrough_prefixes: self.passthrough_prefixes@.map_values(|p: String| p@),
        }
    }
}

/// Whether text under `tag` is kept verbatim in theme `t`.
pub open spec fn is_passthrough(t: ThemeView, tag: Seq<char>) -> bool {
    exists|i: int| 0 <= i < t.passthrough_prefixes.len() && is_prefix(#[trigger] t.passthrough_prefixes[i], tag)
}

fn text(s: &str) -> (r: String)
    ensures
        r@ == s@,
{
    String::from_str(s)
}

impl ThemeDescriptor {
    /// Whether text under `tag` is kept verbatim.
    pub fn is_passthrough(&self, tag: &str) -> (r: bool)
        ensures
            r == is_passthrough(self@, tag@),
    {
        let mut i: usize = 0;
        while i < self.passthrough_prefixes.len()
            invariant
                i <= self.passthrough_prefixes@.len(),
                forall|j: int| 0 <= j < i ==> !is_prefix(#[trigger] self@.passthrough_prefixes[j], tag@),
            decreases self.passthrough_prefixes@.len() - i,
        {
            if has_prefix(tag, self.passthrough_prefixes[i].as_str()) {
                assert(self@.passthrough_prefixes[i as int] == self.passthrough_prefixes@[i as int]@);
                return true;
            }
            i = i + 1;
        }
        false
    }

    fn plain(root_tag: &str, prefixes: Vec<String>) -> (r: ThemeDescriptor)
        ensures
            r.root_tag@ == root_tag@,
            r.id_attr@ == "gml:id"@,
            r.geometry_tag@ == "gml:posList"@,
            r.passthrough_prefixes == prefixes,
    {
        ThemeDescriptor {
            root_tag: text(root_tag),
            id_attr: text("gml:id"),
            geometry_tag: text("gml:posList"),
            passthrough_prefixes: prefixes,
        }
    }

    /// Buildings: `bldg:Building`, attributes through code lists only.
    pub fn building() -> (r: ThemeDescriptor)
        ensures
            r.root_tag@ == "bldg:Building"@,
            r.id_attr@ == "gml:id"@,
            r.geometry_tag@ == "gml:posList"@,
            r.passthrough_prefixes@.len() == 0,
    {
        Self::plain("bldg:Building", Vec::new())
    }

    /// Terrain relief: `dem:ReliefFeature`, attributes through code lists only.
    pub fn relief() -> (r: ThemeDescriptor)
        ensures
            r.root_tag@ == "dem:ReliefFeature"@,
            r.id_attr@ == "gml:id"@,
            r.geometry_tag@ == "gml:posList"@,
            r.passthrough_prefixes@.len() == 0,
    {
        Self::plain("dem:ReliefFeature", Vec::new())
    }

    /// Roads: `tran:Road`, attributes through code lists only.
    pub fn road() -> (r: ThemeDescriptor)
        ensures
            r.root_tag@ == "tran:Road"@,
            r.id_attr@ == "gml:id"@,
            r.geometry_tag@ == "gml:posList"@,
            r.passthrough_prefixes@.len() == 0,
    {
        Self::plain("tran:Road", Vec::new())
    }

    /// Sediment-disaster hazard zones: `urf:SedimentDisasterProneArea`,
    /// attributes through code lists only.
    pub fn sediment_area() -> (r: ThemeDescriptor)
        ensures
            r.root_tag@ == "urf:SedimentDisasterProneArea"@,
            r.id_attr@ == "gml:id"@,
            r.geometry_tag@ == "gml:posList"@,
            r.passthrough_prefixes@.len() == 0,
    {
        Self::plain("urf:SedimentDisasterProneArea", Vec::new())
    }

    /// Water bodies of flood zones: `wtr:WaterBody`; text under `urf:` and
    /// `uro:` tags is kept verbatim.
    pub fn water_body() -> (r: ThemeDescriptor)
        ensures
            r.root_tag@ == "wtr:WaterBody"@,
            r.id_attr@ == "gml:id"@,
            r.geometry_tag@ == "gml:posList"@,
            r@.passthrough_prefixes == seq!["urf:"@, "uro:"@],
    {
        let mut p: Vec<String> = Vec::new();
        p.push(text("urf:"));
        p.push(text("uro:"));
        let r = Self::plain("wtr:WaterBody", p);
        proof {
            assert(r@.passthrough_prefixes =~= seq!["urf:"@, "uro:"@]);
        }
        r
    }

    /// Land-use parcels: `luse:LandUse`; text under `urf:`, `uro:` and
    /// `luse:` tags is kept verbatim.
    pub fn land_use() -> (r: ThemeDescriptor)
        ensures
            r.root_tag@ == "luse:LandUse"@,
            r.id_attr@ == "gml:id"@,
            r.geometry_tag@ == "gml:posList"@,
            r@.passthrough_prefixes == seq!["urf:"@, "uro:"@, "luse:"@],
    {
        let mut p: Vec<String> = Vec::new();
        p.push(text("urf:"));
        p.push(text("uro:"));
        p.push(text("luse:"));
        let r = Self::plain("luse:LandUse", p);
        proof {
            assert(r@.passthrough_prefixes =~= seq!["urf:"@, "uro:"@, "luse:"@]);
        }
        r
    }
}

/// One feature: its identifier, the union of the spatial identifiers of its
/// geometry, and its attributes by tag name.
pub struct FeatureRecord {
    pub id: String,
    pub footprint: Footprint,
    pub attributes: TextMap,
}

pub struct RecordView {
    pub id: Seq<char>,
    pub footprint: Set<SpatialId>,
    pub attributes: Map<Seq<char>, Seq<char>>,
}

impl View for FeatureRecord {
    type V = RecordView;

    open spec fn view(&self) -> RecordView {
        RecordView { id: self.id@, footprint: self.footprint@, attributes: self.attributes@ }
    }
}

pub open spec fn empty_record() -> RecordView {
    RecordView { id: Seq::empty(), footprint: Set::empty(), attributes: Map::empty() }
}

impl FeatureRecord {
    pub fn new() -> (r: FeatureRecord)
        ensures
            r@ == empty_record(),
    {
        FeatureRecord { id: String::new(), footprint: Footprint::new(), attributes: TextMap::new() }
    }
}

/// A finished feature with its sequence number within its file.
pub struct FeatureStorage {
    pub count: usize,
    pub record: FeatureRecord,
}

/// How a piece of text inside a feature was used.
#[derive(Clone, Copy, PartialEq, Eq, Structural, Debug)]
pub enum TextRoute {
    /// Not stored.
    Ignored,
    /// Resolved through the open code scope and stored under the current tag.
    Coded,
    /// Stored verbatim under the current tag.
    Verbatim,
    /// A coordinate list: its footprint is to be added with `add_footprint`.
    Geometry,
}

pub struct ParserView {
    pub theme: ThemeView,
    pub open: bool,
    pub current_tag: Option<Seq<char>>,
    pub record: RecordView,
    pub finished: Seq<RecordView>,
    pub scope: ScopeView,
    pub cache: Map<Seq<char>, Map<Seq<char>, Seq<char>>>,
}

/// The identifier that the attributes of a root element give: the value of
/// the last attribute named `key`, or the empty string.
pub open spec fn id_of(attrs: Seq<(String, String)>, key: Seq<char>) -> Seq<char> {
    if map_of(attrs).contains_key(key) {
        map_of(attrs)[key]
    } else {
        Seq::empty()
    }
}

/// The attributes after text `t` under the current tag, when `label` is what
/// the code scope made of it (`None`: no scope open), with the route taken.
pub open spec fn text_effect(v: ParserView, t: Seq<char>, label: Option<Seq<char>>) -> (Map<Seq<char>, Seq<char>>, TextRoute) {
    match label {
        Some(l) => match v.current_tag {
            Some(tag) => (v.record.attributes.insert(tag, l), TextRoute::Coded),
            None => (v.record.attributes, TextRoute::Ignored),
        },
        None => match v.current_tag {
            Some(tag) => if tag == v.theme.geometry_tag {
                (v.record.attributes, TextRoute::Geometry)
            } else if is_passthrough(v.theme, tag) {
                (v.record.attributes.insert(tag, t), TextRoute::Verbatim)
            } else {
                (v.record.attributes, TextRoute::Ignored)
            },
            None => (v.record.attributes, TextRoute::Ignored),
        },
    }
}

/// `after` is `before` with the record's attributes replaced by `attrs` and
/// the cache by `cache`.
pub open spec fn only_attributes_and_cache(
    before: ParserView,
    after: ParserView,
    attrs: Map<Seq<char>, Seq<char>>,
    cache: Map<Seq<char>, Map<Seq<char>, Seq<char>>>,
) -> bool {
    after == ParserView {
        record: RecordView { attributes: attrs, ..before.record },
        cache,
        ..before
    }
}

/// The value of the last attribute named `key`.
fn last_value(attrs: &Vec<(String, String)>, key: &String) -> (r: Option<String>)
    ensures
        r is Some <==> map_of(attrs@).contains_key(key@),
        r is Some ==> r->0@ == map_of(attrs@)[key@],
{
    let mut i: usize = attrs.len();
    while i > 0
        invariant
            i <= attrs@.len(),
            forall|j: int| i <= j < attrs@.len() ==> #[trigger] attrs@[j].0@ != key@,
        decreases i,
    {
        if attrs[i - 1].0 == *key {
            proof {
                lemma_map_of_prefix(attrs@, i as int, key@);
                assert(attrs@.take(i as int).drop_last() =~= attrs@.take(i - 1));
            }
            return Some(attrs[i - 1].1.clone());
        }
        i = i - 1;
    }
    proof {
        lemma_map_of_prefix(attrs@, 0, key@);
        assert(attrs@.take(0) =~= Seq::<(String, String)>::empty());
    }
    None
}

/// The state after a start tag `tag` with attributes `attrs`, where
/// `code_list_path` is the resolved code list of its `codeSpace` attribute.
pub open spec fn after_start(
    v: ParserView,
    tag: Seq<char>,
    attrs: Seq<(String, String)>,
    code_list_path: Option<Seq<char>>,
) -> ParserView {
    let opens = !v.open && tag == v.theme.root_tag;
    let now_open = v.open || opens;
    ParserView {
        open: now_open,
        record: if opens {
            RecordView { id: id_of(attrs, v.theme.id_attr), ..empty_record() }
        } else {
            v.record
        },
        current_tag: if now_open {
            Some(tag)
        } else {
            v.current_tag
        },
        scope: if now_open && !v.scope.active && code_list_path is Some {
            ScopeView { active: true, owner_tag: Some(tag), list_path: code_list_path }
        } else {
            v.scope
        },
        ..v
    }
}

/// The state after an end tag `tag`.
pub open spec fn after_end(v: ParserView, tag: Seq<char>) -> ParserView {
    let closes = v.open && tag == v.theme.root_tag;
    ParserView {
        current_tag: if v.current_tag == Some(tag) {
            None
        } else {
            v.current_tag
        },
        scope: if v.scope.active && v.scope.owner_tag == Some(tag) {
            ScopeView { active: false, owner_tag: None, list_path: None }
        } else {
            v.scope
        },
        open: v.open && !closes,
        record: if closes {
            empty_record()
        } else {
            v.record
        },
        finished: if closes {
            v.finished.push(v.record)
        } else {
            v.finished
        },
        ..v
    }
}

/// Features share no state. The root's end tag finishes exactly the open
/// record, after the records finished before it, and leaves an empty one in
/// its place; the root's start tag, outside a feature, opens a record that
/// holds its own identifier and nothing else, whatever was read before.
pub proof fn lemma_features_independent(
    v: ParserView,
    u: ParserView,
    attrs: Seq<(String, String)>,
    code_list_path: Option<Seq<char>>,
)
    requires
        v.open,
        !u.open,
    ensures
        after_end(v, v.theme.root_tag).finished == v.finished.push(v.record),
        after_end(v, v.theme.root_tag).record == empty_record(),
        !after_end(v, v.theme.root_tag).open,
        after_start(u, u.theme.root_tag, attrs, code_list_path).open,
        after_start(u, u.theme.root_tag, attrs, code_list_path).record == (RecordView {
            id: id_of(attrs, u.theme.id_attr),
            ..empty_record()
        }),
        after_start(u, u.theme.root_tag, attrs, code_list_path).finished == u.finished,
{
}

/// The streaming state machine that turns the events of one feature document
/// into finished feature records.
pub struct FeatureParser {
    theme: ThemeDescriptor,
    open: bool,
    current_tag: Option<String>,
    record: FeatureRecord,
    finished: Vec<FeatureStorage>,
    scope: CodeSpaceContext,
    cache: CodeSpaceCache,
}

impl View for FeatureParser {
    type V = ParserView;

    closed spec fn view(&self) -> ParserView {
        ParserView {
            theme: self.theme@,
            open: self.open,
            current_tag: opt_view(self.current_tag),
            record: self.record@,
            finished: self.finished@.map_values(|f: FeatureStorage| f.record@),
            scope: self.scope@,
            cache: self.cache@,
        }
    }
}

impl FeatureParser {
    /// Finished records carry their position as sequence number, and the code
    /// scope is well formed.
    pub closed spec fn wf(&self) -> bool {
        &&& forall|i: int| 0 <= i < self.finished@.len() ==> #[trigger] self.finished@[i].count == i
        &&& scope_wf(self.scope@)
    }

    pub fn new(theme: ThemeDescriptor) -> (r: FeatureParser)
        ensures
            r.wf(),
            r@ == (ParserView {
                theme: theme@,
                open: false,
                current_tag: None,
                record: empty_record(),
                finished: Seq::empty(),
                scope: ScopeView { active: false, owner_tag: None, list_path: None },
                cache: Map::empty(),
            }),
    {
        let r = FeatureParser {
            theme,
            open: false,
            current_tag: None,
            record: FeatureRecord::new(),
            finished: Vec::new(),
            scope: CodeSpaceContext::new(),
            cache: CodeSpaceCache::new(),
        };
        proof {
            assert(r@.finished =~= Seq::<RecordView>::empty());
        }
        r
    }

    pub fn is_open(&self) -> (r: bool)
        ensures
            r == self@.open,
    {
        self.open
    }

    /// The records finished so far, in order.
    pub fn finished(&self) -> (r: &Vec<FeatureStorage>)
        ensures
            r@.map_values(|f: FeatureStorage| f.record@) == self@.finished,
            self.wf() ==> forall|i: int| 0 <= i < r@.len() ==> #[trigger] r@[i].count == i,
    {
        &self.finished
    }

    /// The record under construction.
    pub fn current(&self) -> (r: &FeatureRecord)
        ensures
            r@ == self@.record,
    {
        &self.record
    }

    /// End of input: the finished records. A feature still open is dropped.
    pub fn into_finished(self) -> (r: Vec<FeatureStorage>)
        requires
            self.wf(),
        ensures
            r@.map_values(|f: FeatureStorage| f.record@) == self@.finished,
            forall|i: int| 0 <= i < r@.len() ==> #[trigger] r@[i].count == i,
    {
        self.finished
    }

    /// A start tag was read, with its attributes. `code_list_path` is the
    /// canonical path of the code list that its `codeSpace` attribute refers
    /// to, where there is one and it exists.
    ///
    /// The theme's root tag opens a new, empty record whose identifier is the
    /// value of the identifier attribute (empty when there is none). Inside a
    /// record the tag becomes the current tag and is shown to the code scope.
    pub fn on_start(&mut self, tag_name: &str, attrs: &Vec<(String, String)>, code_list_path: Option<String>)
        requires
            old(self).wf(),
        ensures
            final(self).wf(),
            final(self)@ == after_start(old(self)@, tag_name@, attrs@, opt_view(code_list_path)),
    {
        let tag = tag_name.to_string();
        proof {
            to_string_from_display_ensures_for_str(tag_name, tag);
        }
        if !self.open && tag == self.theme.root_tag {
            let mut record = FeatureRecord::new();
            if let Some(id) = last_value(attrs, &self.theme.id_attr) {
                record.id = id;
            }
            proof {
                assert(record@.id =~= id_of(attrs@, self.theme.id_attr@));
            }
            self.record = record;
            self.open = true;
        }
        if self.open {
            self.scope.on_start(tag_name, code_list_path);
            self.current_tag = Some(tag);
        }
    }

    /// Text was read. Outside a record it is ignored. Inside, the code scope
    /// resolves it first, loading its code list through `load` when the cache
    /// lacks it; a label is stored under the current tag. Text that no scope
    /// resolves is a coordinate list under the geometry tag, is stored
    /// verbatim under a pass-through tag, and is ignored elsewhere.
    pub fn on_text<F>(&mut self, text: &str, load: F) -> (r: Result<TextRoute, CodeListError>) where
        F: FnOnce(&String) -> Result<TextMap, String>,
        requires
            old(self).wf(),
            ({
                let v = old(self)@;
                v.open && v.scope.active && !v.cache.contains_key(v.scope.list_path->0) ==> forall|p: &String|
                    p@ == v.scope.list_path->0 ==> #[trigger] load.requires((p,))
            }),
        ensures
            final(self).wf(),
            ({
                let v = old(self)@;
                if !v.open {
                    r == Ok::<TextRoute, CodeListError>(TextRoute::Ignored) && final(self)@ == v
                } else if !v.scope.active {
                    let e = text_effect(v, text@, None);
                    r == Ok::<TextRoute, CodeListError>(e.1) && only_attributes_and_cache(v, final(self)@, e.0, v.cache)
                } else {
                    let p = v.scope.list_path->0;
                    if v.cache.contains_key(p) {
                        let e = text_effect(v, text@, Some(label_in(v.cache[p], text@)));
                        r == Ok::<TextRoute, CodeListError>(e.1) && only_attributes_and_cache(v, final(self)@, e.0, v.cache)
                    } else {
                        match r {
                            Ok(route) => exists|q: &String, m: TextMap|
                                q@ == p && #[trigger] load.ensures((q,), Ok::<TextMap, String>(m)) && {
                                    let e = text_effect(v, text@, Some(label_in(m@, text@)));
                                    route == e.1 && only_attributes_and_cache(v, final(self)@, e.0, v.cache.insert(p, m@))
                                },
                            Err(err) => err.path@ == p && final(self)@ == v && exists|q: &String, msg: String|
                                q@ == p && #[trigger] load.ensures((q,), Err::<TextMap, String>(msg)) && err.message == msg,
                        }
                    }
                }
            }),
    {
        let ghost v = self@;
        if !self.open {
            return Ok(TextRoute::Ignored);
        }
        let label = self.scope.resolve_text(text, &mut self.cache, load)?;
        let ghost cache_after = self.cache@;
        match label {
            Some(l) => {
                let ghost p = v.scope.list_path->0;
                let ghost m: Map<Seq<char>, Seq<char>> = if v.cache.contains_key(p) {
                    v.cache[p]
                } else {
                    cache_after[p]
                };
                let route = match &self.current_tag {
                    Some(t) => {
                        let key = t.clone();
                        self.record.attributes.insert(key, l);
                        TextRoute::Coded
                    },
                    None => TextRoute::Ignored,
                };
                proof {
                    let e = text_effect(v, text@, Some(label_in(m, text@)));
                    assert(route == e.1);
                    assert(only_attributes_and_cache(v, self@, e.0, cache_after));
                }
                Ok(route)
            },
            None => match &self.current_tag {
                Some(t) => {
                    if *t == self.theme.geometry_tag {
                        Ok(TextRoute::Geometry)
                    } else if self.theme.is_passthrough(t.as_str()) {
                        let key = t.clone();
                        self.record.attributes.insert(key, String::from_str(text));
                        Ok(TextRoute::Verbatim)
                    } else {
                        Ok(TextRoute::Ignored)
                    }
                },
                None => Ok(TextRoute::Ignored),
            },
        }
    }

    /// Adds the footprint of a coordinate list of the open record.
    pub fn add_footprint(&mut self, ids: &Footprint)
        requires
            old(self).wf(),
        ensures
            final(self).wf(),
            final(self)@ == (ParserView {
                record: RecordView { footprint: old(self)@.record.footprint.union(ids@), ..old(self)@.record },
                ..old(self)@
            }),
    {
        self.record.footprint.union_with(ids);
    }

    /// An end tag was read. It clears the current tag when it matches it and
    /// closes the code scope that it owns; the theme's root tag finishes the
    /// open record, which gets the next sequence number, and a fresh empty
    /// record takes its place.
    pub fn on_end(&mut self, tag_name: &str)
        requires
            old(self).wf(),
        ensures
            final(self).wf(),
            final(self)@ == after_end(old(self)@, tag_name@),
    {
        let tag = tag_name.to_string();
        proof {
            to_string_from_display_ensures_for_str(tag_name, tag);
        }
        let clear = match &self.current_tag {
            Some(t) => *t == tag,
            None => false,
        };
        if clear {
            self.current_tag = None;
        }
        self.scope.on_end(tag_name);
        if self.open && tag == self.theme.root_tag {
            let mut record = FeatureRecord::new();
            std::mem::swap(&mut record, &mut self.record);
            let count = self.finished.len();
            let ghost before = self.finished@;
            self.finished.push(FeatureStorage { count, record });
            self.open = false;
            proof {
                assert(self.finished@ == before.push(FeatureStorage { count, record }));
                assert(self@.finished =~= old(self)@.finished.push(old(self)@.record));
            }
        }
    }
}

} // verus!
