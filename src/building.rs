use vstd::prelude::*;
use vstd::string::{StrSliceExecFns, StringExecFns, StringSliceAdditionalSpecFns};
use crate::lod::{end_kind, is_local, is_local_spec, classify_end, classify_start, EndKind, LodAccumulator, LodLevel, LodView, StartKind, TargetTag, start_kind};
use crate::scope::opt_view;

verus! {

/// Whether every character of `s` is an ASCII digit (`0` is code point 48,
/// `9` is 57).
pub open spec fn all_digits(s: Seq<char>) -> bool {
    forall|i: int| 0 <= i < s.len() ==> 48 <= #[trigger] (s[i] as int) <= 57
}

/// The value of a string of decimal digits.
pub open spec fn digits_value(s: Seq<char>) -> int
    decreases s.len(),
{
    if s.len() == 0 {
        0
    } else {
        digits_value(s.drop_last()) * 10 + (s.last() as int - 48)
    }
}

/// A decimal integer as `str::parse::<i32>` reads it: an optional `+` or `-`,
/// then one or more ASCII digits, whose value must fit in an `i32`.
pub open spec fn i32_of(s: Seq<char>) -> Option<i32> {
    let negative = s.len() > 0 && s[0] == '-';
    let body = if s.len() > 0 && (s[0] == '-' || s[0] == '+') {
        s.drop_first()
    } else {
        s
    };
    let v = if negative {
        -digits_value(body)
    } else {
        digits_value(body)
    };
    if body.len() == 0 || !all_digits(body) || v < i32::MIN || v > i32::MAX {
        None
    } else {
        Some(v as i32)
    }
}

proof fn lemma_digits_value_grows(s: Seq<char>, k: int)
    requires
        all_digits(s),
        0 <= k <= s.len(),
    ensures
        0 <= digits_value(s.take(k)) <= digits_value(s),
    decreases s.len(),
{
    if s.len() > 0 {
        assert(48 <= (s[s.len() - 1] as int) <= 57);
        assert(all_digits(s.drop_last()));
    }
    if k == s.len() {
        assert(s.take(k) =~= s);
        if s.len() > 0 {
            lemma_digits_value_grows(s.drop_last(), 0);
        }
    } else {
        assert(s.drop_last().take(k) =~= s.take(k));
        lemma_digits_value_grows(s.drop_last(), k);
    }
}

/// Reads a decimal `i32` as `str::parse::<i32>` does.
pub fn parse_i32(s: &str) -> (r: Option<i32>)
    ensures
        r == i32_of(s@),
{
    let n = s.unicode_len();
    let mut i: usize = 0;
    let mut negative = false;
    if n > 0 {
        let c = s.get_char(0);
        if c == '-' || c == '+' {
            negative = c == '-';
            i = 1;
        }
    }
    proof {
        if n > 0 {
            assert(negative == (s@[0] == '-'));
        }
    }
    let start = i;
    let ghost body = s@.subrange(start as int, n as int);
    proof {
        if n > 0 && (s@[0] == '-' || s@[0] == '+') {
            assert(body =~= s@.drop_first());
        } else {
            assert(body =~= s@);
        }
    }
    if start == n {
        return None;
    }
    let mut acc: i64 = 0;
    while i < n
        invariant
            n == s@.len(),
            start <= i <= n,
            start < n,
            body == s@.subrange(start as int, n as int),
            body == (if s@.len() > 0 && (s@[0] == '-' || s@[0] == '+') {
                s@.drop_first()
            } else {
                s@
            }),
            negative == (s@.len() > 0 && s@[0] == '-'),
            all_digits(s@.subrange(start as int, i as int)),
            acc == digits_value(s@.subrange(start as int, i as int)),
            0 <= acc <= 2147483648,
        decreases n - i,
    {
        let c = s.get_char(i);
        let u = c as u32;
        if u < 48 || u > 57 {
            proof {
                assert(body[i - start] == c);
                assert(body[i - start] as int == u as int);
                assert(!all_digits(body));
            }
            return None;
        }
        let d = (u - 48) as i64;
        proof {
            let next = s@.subrange(start as int, i + 1);
            assert(next.drop_last() =~= s@.subrange(start as int, i as int));
            assert(next.last() == c);
        }
        acc = acc * 10 + d;
        i = i + 1;
        if acc > 2147483648 {
            proof {
                let done = s@.subrange(start as int, i as int);
                assert(body.take(i - start) =~= done);
                if all_digits(body) {
                    lemma_digits_value_grows(body, i - start);
                }
            }
            return None;
        }
    }
    proof {
        assert(s@.subrange(start as int, n as int) =~= body);
    }
    if negative {
        Some((0 - acc) as i32)
    } else if acc > 2147483647 {
        None
    } else {
        Some(acc as i32)
    }
}

/// A building's attributes as read. The measured height is kept as its text.
pub struct BuildingAttributes {
    pub gml_id: String,
    pub uro_building_id: String,
    pub uro_city_code: String,
    pub class_code: String,
    pub measured_height: Option<String>,
    pub lod1_height_type: Option<i32>,
    pub uro_prefecture_code: Option<String>,
    pub usage_code: Option<i32>,
}

pub struct AttributesView {
    pub gml_id: Seq<char>,
    pub uro_building_id: Seq<char>,
    pub uro_city_code: Seq<char>,
    pub class_code: Seq<char>,
    pub measured_height: Option<Seq<char>>,
    pub lod1_height_type: Option<i32>,
    pub uro_prefecture_code: Option<Seq<char>>,
    pub usage_code: Option<i32>,
}

impl View for BuildingAttributes {
    type V = AttributesView;

    open spec fn view(&self) -> AttributesView {
        AttributesView {
            gml_id: self.gml_id@,
            uro_building_id: self.uro_building_id@,
            uro_city_code: self.uro_city_code@,
            class_code: self.class_code@,
            measured_height: opt_view(self.measured_height),
            lod1_height_type: self.lod1_height_type,
            uro_prefecture_code: opt_view(self.uro_prefecture_code),
            usage_code: self.usage_code,
        }
    }
}

pub open spec fn empty_attributes() -> AttributesView {
    AttributesView {
        gml_id: Seq::empty(),
        uro_building_id: Seq::empty(),
        uro_city_code: Seq::empty(),
        class_code: Seq::empty(),
        measured_height: None,
        lod1_height_type: None,
        uro_prefecture_code: None,
        usage_code: None,
    }
}

impl BuildingAttributes {
    pub fn new() -> (r: BuildingAttributes)
        ensures
            r@ == empty_attributes(),
    {
        BuildingAttributes {
            gml_id: String::new(),
            uro_building_id: String::new(),
            uro_city_code: String::new(),
            class_code: String::new(),
            measured_height: None,
            lod1_height_type: None,
            uro_prefecture_code: None,
            usage_code: None,
        }
    }
}

/// The identifier that a building's start tag gives: the value of the last
/// attribute whose name ends in `id`, or the empty text.
pub open spec fn building_id(attrs: Seq<(Vec<u8>, String)>) -> Seq<char>
    decreases attrs.len(),
{
    if attrs.len() == 0 {
        Seq::empty()
    } else if is_local_spec(attrs.last().0@, "id".spec_bytes()) {
        attrs.last().1@
    } else {
        building_id(attrs.drop_last())
    }
}

proof fn lemma_building_id_prefix(attrs: Seq<(Vec<u8>, String)>, i: int)
    requires
        0 <= i <= attrs.len(),
        forall|j: int| i <= j < attrs.len() ==> !is_local_spec(#[trigger] attrs[j].0@, "id".spec_bytes()),
    ensures
        building_id(attrs) == building_id(attrs.take(i)),
    decreases attrs.len(),
{
    if attrs.len() == i {
        assert(attrs.take(i) =~= attrs);
    } else {
        assert(attrs.drop_last().take(i) =~= attrs.take(i));
        lemma_building_id_prefix(attrs.drop_last(), i);
    }
}

fn building_id_of(attrs: &Vec<(Vec<u8>, String)>) -> (r: String)
    ensures
        r@ == building_id(attrs@),
{
    let mut i: usize = attrs.len();
    while i > 0
        invariant
            i <= attrs@.len(),
            forall|j: int| i <= j < attrs@.len() ==> !is_local_spec(#[trigger] attrs@[j].0@, "id".spec_bytes()),
        decreases i,
    {
        if is_local(attrs[i - 1].0.as_slice(), "id".as_bytes()) {
            proof {
                lemma_building_id_prefix(attrs@, i as int);
                assert(attrs@.take(i as int).drop_last() =~= attrs@.take(i - 1));
            }
            return attrs[i - 1].1.clone();
        }
        i = i - 1;
    }
    proof {
        lemma_building_id_prefix(attrs@, 0);
    }
    String::new()
}

/// What an end tag asks of the caller.
pub enum BuildingEvent<V> {
    /// Nothing.
    Continue,
    /// A polygon closed: its coordinate text is to be read into a ring and
    /// handed back with `push_ring`.
    Ring(String),
    /// A building ended, with its attributes and its preferred surfaces.
    Finished(BuildingAttributes, Vec<Vec<V>>),
}

pub struct ReaderView<V> {
    pub attributes: AttributesView,
    pub current_tag: TargetTag,
    pub lods: LodView<V>,
    pub pos_text: Seq<char>,
}

/// The decisions of the building reader: which attribute a text fills, when
/// a polygon's coordinates are complete, and which level of detail a
/// finished building keeps.
pub struct BuildingReader<V> {
    attributes: BuildingAttributes,
    current_tag: TargetTag,
    lods: LodAccumulator<V>,
    pos_text: String,
}

impl<V> View for BuildingReader<V> {
    type V = ReaderView<V>;

    closed spec fn view(&self) -> ReaderView<V> {
        ReaderView {
            attributes: self.attributes@,
            current_tag: self.current_tag,
            lods: self.lods@,
            pos_text: self.pos_text@,
        }
    }
}

/// The attributes after text `t` under tag `tag`.
pub open spec fn text_into(a: AttributesView, tag: TargetTag, t: Seq<char>) -> AttributesView {
    match tag {
        TargetTag::UroBuildingId => AttributesView { uro_building_id: t, ..a },
        TargetTag::UroCity => AttributesView { uro_city_code: t, ..a },
        TargetTag::BldgClass => AttributesView { class_code: t, ..a },
        TargetTag::MeasuredHeight => AttributesView { measured_height: Some(t), ..a },
        TargetTag::Lod1HeightType => AttributesView { lod1_height_type: i32_of(t), ..a },
        TargetTag::UroPrefecture => AttributesView { uro_prefecture_code: Some(t), ..a },
        TargetTag::BldgUsage => AttributesView { usage_code: i32_of(t), ..a },
        _ => a,
    }
}

impl<V> BuildingReader<V> {
    pub fn new() -> (r: BuildingReader<V>)
        ensures
            r@ == (ReaderView::<V> {
                attributes: empty_attributes(),
                current_tag: TargetTag::Unset,
                lods: LodView { lod1: Seq::empty(), lod2: Seq::empty(), level: LodLevel::Unset },
                pos_text: Seq::empty(),
            }),
    {
        BuildingReader {
            attributes: BuildingAttributes::new(),
            current_tag: TargetTag::Unset,
            lods: LodAccumulator::new(),
            pos_text: String::new(),
        }
    }

    /// A start tag, with its attributes (name bytes, value). A building
    /// starts afresh with its identifier; a solid opens its level of detail;
    /// an attribute tag or a coordinate list becomes the current tag, and a
    /// coordinate list starts with empty text.
    pub fn on_start(&mut self, name: &[u8], attrs: &Vec<(Vec<u8>, String)>)
        ensures
            final(self)@ == (match start_kind(name@) {
                StartKind::Building => ReaderView {
                    attributes: AttributesView { gml_id: building_id(attrs@), ..empty_attributes() },
                    current_tag: TargetTag::Unset,
                    lods: LodView { lod1: Seq::empty(), lod2: Seq::empty(), level: LodLevel::Unset },
                    ..old(self)@
                },
                StartKind::Lod(level) => ReaderView { lods: LodView { level, ..old(self)@.lods }, ..old(self)@ },
                StartKind::Target(tag) => ReaderView {
                    current_tag: tag,
                    pos_text: if tag == TargetTag::PosList {
                        Seq::empty()
                    } else {
                        old(self)@.pos_text
                    },
                    ..old(self)@
                },
                StartKind::Other => old(self)@,
            }),
    {
        match classify_start(name) {
            StartKind::Building => {
                let mut a = BuildingAttributes::new();
                a.gml_id = building_id_of(attrs);
                self.attributes = a;
                self.lods.reset();
                self.current_tag = TargetTag::Unset;
            },
            StartKind::Lod(level) => self.lods.set_level(level),
            StartKind::Target(tag) => {
                self.current_tag = tag;
                if tag == TargetTag::PosList {
                    self.pos_text = String::new();
                }
            },
            StartKind::Other => {},
        }
    }

    /// Text fills the attribute of the current tag; coordinate text is
    /// collected, each piece followed by a space.
    pub fn on_text(&mut self, text: &str)
        ensures
            final(self)@ == (if old(self)@.current_tag == TargetTag::PosList {
                ReaderView { pos_text: old(self)@.pos_text + text@ + seq![' '], ..old(self)@ }
            } else {
                ReaderView {
                    attributes: text_into(old(self)@.attributes, old(self)@.current_tag, text@),
                    ..old(self)@
                }
            }),
    {
        let a = &mut self.attributes;
        match self.current_tag {
            TargetTag::UroBuildingId => a.uro_building_id = String::from_str(text),
            TargetTag::UroCity => a.uro_city_code = String::from_str(text),
            TargetTag::BldgClass => a.class_code = String::from_str(text),
            TargetTag::MeasuredHeight => a.measured_height = Some(String::from_str(text)),
            TargetTag::Lod1HeightType => a.lod1_height_type = parse_i32(text),
            TargetTag::UroPrefecture => a.uro_prefecture_code = Some(String::from_str(text)),
            TargetTag::BldgUsage => a.usage_code = parse_i32(text),
            TargetTag::PosList => {
                proof {
                    reveal_strlit(" ");
                }
                self.pos_text.append(text);
                self.pos_text.append(" ");
                proof {
                    assert(" "@ =~= seq![' ']);
                }
            },
            TargetTag::Unset => {},
        }
    }

    /// A ring read from the coordinate text of a closed polygon.
    pub fn push_ring(&mut self, ring: Vec<V>)
        ensures
            final(self)@ == (ReaderView {
                lods: if ring@.len() == 0 {
                    old(self)@.lods
                } else {
                    match old(self)@.lods.level {
                        LodLevel::Lod1 => LodView { lod1: old(self)@.lods.lod1.push(ring@), ..old(self)@.lods },
                        LodLevel::Lod2 => LodView { lod2: old(self)@.lods.lod2.push(ring@), ..old(self)@.lods },
                        LodLevel::Unset => old(self)@.lods,
                    }
                },
                ..old(self)@
            }),
    {
        self.lods.push_ring(ring);
    }

    /// An end tag. A polygon hands out its coordinate text, when there is
    /// any, and clears it; a solid closes its level of detail; a building
    /// hands out its attributes and its surfaces (level 2 when there are any,
    /// level 1 otherwise) and starts over with empty attributes; any other
    /// tag clears the current tag.
    pub fn on_end(&mut self, name: &[u8]) -> (r: BuildingEvent<V>)
        ensures
            ({
                let v = old(self)@;
                match end_kind(name@) {
                    EndKind::Polygon => final(self)@ == (ReaderView {
                        current_tag: TargetTag::Unset,
                        pos_text: Seq::empty(),
                        ..v
                    }) && (if v.pos_text.len() == 0 {
                        r is Continue
                    } else {
                        r matches BuildingEvent::Ring(t) && t@ == v.pos_text
                    }),
                    EndKind::LodSolid => final(self)@ == (ReaderView {
                        lods: LodView { level: LodLevel::Unset, ..v.lods },
                        ..v
                    }) && r is Continue,
                    EndKind::Building => r matches BuildingEvent::Finished(a, s) && a@ == v.attributes
                        && final(self)@.attributes == empty_attributes()
                        && final(self)@.current_tag == v.current_tag
                        && final(self)@.pos_text == v.pos_text
                        && final(self)@.lods.level == v.lods.level
                        && (if v.lods.lod2.len() > 0 {
                        crate::lod::rings_view(s@) == v.lods.lod2 && final(self)@.lods.lod2.len() == 0
                            && final(self)@.lods.lod1 == v.lods.lod1
                    } else {
                        crate::lod::rings_view(s@) == v.lods.lod1 && final(self)@.lods.lod1.len() == 0
                            && final(self)@.lods.lod2 == v.lods.lod2
                    }),
                    EndKind::Other => final(self)@ == (ReaderView { current_tag: TargetTag::Unset, ..v })
                        && r is Continue,
                }
            }),
    {
        match classify_end(name) {
            EndKind::Polygon => {
                let mut t = String::new();
                std::mem::swap(&mut t, &mut self.pos_text);
                self.current_tag = TargetTag::Unset;
                if t.as_str().unicode_len() == 0 {
                    BuildingEvent::Continue
                } else {
                    BuildingEvent::Ring(t)
                }
            },
            EndKind::LodSolid => {
                self.lods.set_level(LodLevel::Unset);
                BuildingEvent::Continue
            },
            EndKind::Building => {
                let surfaces = self.lods.take_surfaces();
                let mut a = BuildingAttributes::new();
                std::mem::swap(&mut a, &mut self.attributes);
                BuildingEvent::Finished(a, surfaces)
            },
            EndKind::Other => {
                self.current_tag = TargetTag::Unset;
                BuildingEvent::Continue
            },
        }
    }
}

} // verus!
