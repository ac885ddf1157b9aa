use vstd::prelude::*;
use vstd::string::StringSliceAdditionalSpecFns;

verus! {

/// Whether `local` ends `name`: the two are equal, or `name` carries `local`
/// behind a namespace prefix.
pub open spec fn is_local_spec(name: Seq<u8>, local: Seq<u8>) -> bool {
    name == local || (local.len() <= name.len() && name.subrange(name.len() - local.len(), name.len() as int) == local)
}

/// Whether element name `name` has local name `local`, whatever its prefix.
pub fn is_local(name: &[u8], local: &[u8]) -> (r: bool)
    ensures
        r == is_local_spec(name@, local@),
{
    if local.len() > name.len() {
        return false;
    }
    let off = name.len() - local.len();
    let mut i: usize = 0;
    while i < local.len()
        invariant
            off == name@.len() - local@.len(),
            local@.len() <= name@.len(),
            name@.len() == name.len(),
            local@.len() == local.len(),
            i <= local@.len(),
            forall|j: int| 0 <= j < i ==> name@[off + j] == local@[j],
        decreases local@.len() - i,
    {
        if name[off + i] != local[i] {
            proof {
                assert(name@.subrange(off as int, name@.len() as int)[i as int] != local@[i as int]);
                if name@ == local@ {
                    assert(off == 0);
                }
            }
            return false;
        }
        i = i + 1;
    }
    proof {
        assert(name@.subrange(off as int, name@.len() as int) =~= local@);
    }
    true
}

/// Level of detail of the geometry being read.
#[derive(Clone, Copy, PartialEq, Eq, Structural, Debug)]
pub enum LodLevel {
    Unset,
    Lod1,
    Lod2,
}

/// The building attribute that the text being read belongs to.
#[derive(Clone, Copy, PartialEq, Eq, Structural, Debug)]
pub enum TargetTag {
    Unset,
    UroBuildingId,
    UroCity,
    BldgClass,
    MeasuredHeight,
    Lod1HeightType,
    UroPrefecture,
    BldgUsage,
    PosList,
}

/// What a start tag means to the building reader.
#[derive(Clone, Copy, PartialEq, Eq, Structural, Debug)]
pub enum StartKind {
    Building,
    Lod(LodLevel),
    Target(TargetTag),
    Other,
}

/// What an end tag means to the building reader.
#[derive(Clone, Copy, PartialEq, Eq, Structural, Debug)]
pub enum EndKind {
    Polygon,
    LodSolid,
    Building,
    Other,
}

/// The meaning of a start tag, tried in this order on its local name.
pub open spec fn start_kind(n: Seq<u8>) -> StartKind {
    if is_local_spec(n, "Building".spec_bytes()) {
        StartKind::Building
    } else if is_local_spec(n, "lod1Solid".spec_bytes()) {
        StartKind::Lod(LodLevel::Lod1)
    } else if is_local_spec(n, "lod2Solid".spec_bytes()) || is_local_spec(n, "lod2MultiSurface".spec_bytes()) {
        StartKind::Lod(LodLevel::Lod2)
    } else if is_local_spec(n, "buildingID".spec_bytes()) {
        StartKind::Target(TargetTag::UroBuildingId)
    } else if is_local_spec(n, "city".spec_bytes()) {
        StartKind::Target(TargetTag::UroCity)
    } else if is_local_spec(n, "class".spec_bytes()) {
        StartKind::Target(TargetTag::BldgClass)
    } else if is_local_spec(n, "measuredHeight".spec_bytes()) {
        StartKind::Target(TargetTag::MeasuredHeight)
    } else if is_local_spec(n, "lod1HeightType".spec_bytes()) {
        StartKind::Target(TargetTag::Lod1HeightType)
    } else if is_local_spec(n, "prefecture".spec_bytes()) {
        StartKind::Target(TargetTag::UroPrefecture)
    } else if is_local_spec(n, "usage".spec_bytes()) {
        StartKind::Target(TargetTag::BldgUsage)
    } else if is_local_spec(n, "posList".spec_bytes()) {
        StartKind::Target(TargetTag::PosList)
    } else {
        StartKind::Other
    }
}

/// The meaning of an end tag, tried in this order on its local name.
pub open spec fn end_kind(n: Seq<u8>) -> EndKind {
    if is_local_spec(n, "Polygon".spec_bytes()) {
        EndKind::Polygon
    } else if is_local_spec(n, "lod1Solid".spec_bytes()) || is_local_spec(n, "lod2Solid".spec_bytes())
        || is_local_spec(n, "lod2MultiSurface".spec_bytes()) {
        EndKind::LodSolid
    } else if is_local_spec(n, "Building".spec_bytes()) {
        EndKind::Building
    } else {
        EndKind::Other
    }
}

pub fn classify_start(name: &[u8]) -> (r: StartKind)
    ensures
        r == start_kind(name@),
{
    if is_local(name, "Building".as_bytes()) {
        StartKind::Building
    } else if is_local(name, "lod1Solid".as_bytes()) {
        StartKind::Lod(LodLevel::Lod1)
    } else if is_local(name, "lod2Solid".as_bytes()) || is_local(name, "lod2MultiSurface".as_bytes()) {
        StartKind::Lod(LodLevel::Lod2)
    } else if is_local(name, "buildingID".as_bytes()) {
        StartKind::Target(TargetTag::UroBuildingId)
    } else if is_local(name, "city".as_bytes()) {
        StartKind::Target(TargetTag::UroCity)
    } else if is_local(name, "class".as_bytes()) {
        StartKind::Target(TargetTag::BldgClass)
    } else if is_local(name, "measuredHeight".as_bytes()) {
        StartKind::Target(TargetTag::MeasuredHeight)
    } else if is_local(name, "lod1HeightType".as_bytes()) {
        StartKind::Target(TargetTag::Lod1HeightType)
    } else if is_local(name, "prefecture".as_bytes()) {
        StartKind::Target(TargetTag::UroPrefecture)
    } else if is_local(name, "usage".as_bytes()) {
        StartKind::Target(TargetTag::BldgUsage)
    } else if is_local(name, "posList".as_bytes()) {
        StartKind::Target(TargetTag::PosList)
    } else {
        StartKind::Other
    }
}

pub fn classify_end(name: &[u8]) -> (r: EndKind)
    ensures
        r == end_kind(name@),
{
    if is_local(name, "Polygon".as_bytes()) {
        EndKind::Polygon
    } else if is_local(name, "lod1Solid".as_bytes()) || is_local(name, "lod2Solid".as_bytes())
        || is_local(name, "lod2MultiSurface".as_bytes()) {
        EndKind::LodSolid
    } else if is_local(name, "Building".as_bytes()) {
        EndKind::Building
    } else {
        EndKind::Other
    }
}

pub struct LodView<V> {
    pub lod1: Seq<Seq<V>>,
    pub lod2: Seq<Seq<V>>,
    pub level: LodLevel,
}

pub open spec fn rings_view<V>(s: Seq<Vec<V>>) -> Seq<Seq<V>> {
    s.map_values(|r: Vec<V>| r@)
}

/// Collects the rings of one feature per level of detail, and hands out the
/// preferred set when the feature ends: the level-2 rings when there are any,
/// the level-1 rings otherwise.
pub struct LodAccumulator<V> {
    lod1: Vec<Vec<V>>,
    lod2: Vec<Vec<V>>,
    level: LodLevel,
}

impl<V> View for LodAccumulator<V> {
    type V = LodView<V>;

    closed spec fn view(&self) -> LodView<V> {
        LodView { lod1: rings_view(self.lod1@), lod2: rings_view(self.lod2@), level: self.level }
    }
}

impl<V> LodAccumulator<V> {
    pub fn new() -> (r: LodAccumulator<V>)
        ensures
            r@ == (LodView::<V> { lod1: Seq::empty(), lod2: Seq::empty(), level: LodLevel::Unset }),
    {
        let r = LodAccumulator { lod1: Vec::new(), lod2: Vec::new(), level: LodLevel::Unset };
        proof {
            assert(r@.lod1 =~= Seq::<Seq<V>>::empty());
            assert(r@.lod2 =~= Seq::<Seq<V>>::empty());
        }
        r
    }

    /// A new feature starts: both levels are emptied and no level is open.
    pub fn reset(&mut self)
        ensures
            final(self)@ == (LodView::<V> { lod1: Seq::empty(), lod2: Seq::empty(), level: LodLevel::Unset }),
    {
        *self = Self::new();
    }

    /// The level whose rings are read from now on.
    pub fn set_level(&mut self, level: LodLevel)
        ensures
            final(self)@ == (LodView { level, ..old(self)@ }),
    {
        self.level = level;
    }

    pub fn level(&self) -> (r: LodLevel)
        ensures
            r == self@.level,
    {
        self.level
    }

    /// A ring was read: it joins the open level. An empty ring, or one read
    /// outside any level, is dropped.
    pub fn push_ring(&mut self, ring: Vec<V>)
        ensures
            final(self)@ == (if ring@.len() == 0 {
                old(self)@
            } else {
                match old(self)@.level {
                    LodLevel::Lod1 => LodView { lod1: old(self)@.lod1.push(ring@), ..old(self)@ },
                    LodLevel::Lod2 => LodView { lod2: old(self)@.lod2.push(ring@), ..old(self)@ },
                    LodLevel::Unset => old(self)@,
                }
            }),
    {
        if ring.len() == 0 {
            return;
        }
        let ghost r = ring@;
        match self.level {
            LodLevel::Lod1 => {
                self.lod1.push(ring);
                proof {
                    assert(self@.lod1 =~= old(self)@.lod1.push(r));
                }
            },
            LodLevel::Lod2 => {
                self.lod2.push(ring);
                proof {
                    assert(self@.lod2 =~= old(self)@.lod2.push(r));
                }
            },
            LodLevel::Unset => {},
        }
    }

    /// The feature ended: its surfaces are the level-2 rings when there are
    /// any, which are taken out; otherwise the level-1 rings, which are taken
    /// out.
    pub fn take_surfaces(&mut self) -> (r: Vec<Vec<V>>)
        ensures
            old(self)@.lod2.len() > 0 ==> rings_view(r@) == old(self)@.lod2 && final(self)@ == (LodView {
                lod2: Seq::empty(),
                ..old(self)@
            }),
            old(self)@.lod2.len() == 0 ==> rings_view(r@) == old(self)@.lod1 && final(self)@ == (LodView {
                lod1: Seq::empty(),
                ..old(self)@
            }),
    {
        let mut out: Vec<Vec<V>> = Vec::new();
        if self.lod2.len() > 0 {
            std::mem::swap(&mut out, &mut self.lod2);
        } else {
            std::mem::swap(&mut out, &mut self.lod1);
        }
        proof {
            assert(self@.lod1 =~= rings_view(self.lod1@));
            assert(rings_view(Seq::<Vec<V>>::empty()) =~= Seq::<Seq<V>>::empty());
        }
        out
    }
}

} // verus!
