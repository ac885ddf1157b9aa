use citygml_stid::geometry::{
    citygml_polygon_to_ids, fan_triangulate, group_triples, polygon, prepare_surface, surface_to_ids,
    triangles_to_ids, Footprint, GeometryFormatError, SpatialId,
};
use citygml_stid::lod::{
    classify_end, classify_start, is_local, EndKind, LodAccumulator, LodLevel, StartKind, TargetTag,
};
use citygml_stid::output::{chunk_bounds, safe_name, CHUNK_SIZE};
use citygml_stid::code_list::CodeSpaceCache;
use citygml_stid::scope::CodeSpaceContext;
use citygml_stid::text_map::TextMap;
use kasane_logic::{Coordinate, Ecef};

fn c(lat: f64, lon: f64, alt: f64) -> Coordinate {
    Coordinate::new(lat, lon, alt).unwrap()
}

fn square(alt: f64) -> Vec<Coordinate> {
    vec![c(35.0, 139.0, alt), c(35.0, 139.001, alt), c(35.001, 139.001, alt), c(35.001, 139.0, alt)]
}

#[test]
fn fewer_than_three_vertices_give_no_triangles() {
    let two = vec![1u32, 2];
    assert!(prepare_surface(&two, &Some(vec![0, 1, 0])).is_empty());
    assert!(prepare_surface(&Vec::<u32>::new(), &Some(vec![])).is_empty());
    assert!(fan_triangulate(&two).is_empty());
    let ring = vec![c(35.0, 139.0, 5.0), c(35.001, 139.0, 5.0)];
    assert_eq!(surface_to_ids(20, &ring, &Some(vec![0, 1, 0])).len(), 0);
    assert_eq!(citygml_polygon_to_ids(20, &ring, false).len(), 0);
}

#[test]
fn index_triples_map_back_in_order() {
    let v = vec![10u32, 11, 12, 13];
    assert_eq!(prepare_surface(&v, &Some(vec![0, 1, 2, 0, 2, 3])), vec![(10, 11, 12), (10, 12, 13)]);
    // a trailing incomplete group is ignored
    assert_eq!(prepare_surface(&v, &Some(vec![3, 2, 1, 0])), vec![(13, 12, 11)]);
    // a failed triangulation or an index past the ring contributes nothing
    assert!(prepare_surface(&v, &None).is_empty());
    assert!(prepare_surface(&v, &Some(vec![0, 1, 4])).is_empty());
}

#[test]
fn fan_around_first_vertex() {
    let v = vec![1u8, 2, 3, 4, 5];
    assert_eq!(fan_triangulate(&v), vec![(1, 2, 3), (1, 3, 4), (1, 4, 5)]);
}

#[test]
fn zero_altitude_ring_is_ungrounded() {
    let ring = square(0.0);
    assert_eq!(citygml_polygon_to_ids(20, &ring, true).len(), 0);
    let grounded = square(10.0);
    assert_eq!(citygml_polygon_to_ids(20, &grounded, true).len(), 0);
}

#[test]
fn rasterisation_gives_ids_at_the_depth() {
    let ring = square(10.0);
    let fp = citygml_polygon_to_ids(20, &ring, false);
    assert!(fp.len() > 0);
    for id in fp.to_vec() {
        assert_eq!(id.z, 20);
    }
    let tris = fan_triangulate(&ring);
    assert_eq!(tris.len(), 2);
    let direct = triangles_to_ids(20, &tris);
    assert_eq!(direct.len(), fp.len());
}

#[test]
fn polygon_unions_surfaces() {
    let a = square(10.0);
    let b = square(20.0);
    let tri = Some(vec![0, 1, 2, 0, 2, 3]);
    let fa = surface_to_ids(20, &a, &tri);
    let fb = surface_to_ids(20, &b, &tri);
    let both = polygon(20, &vec![a.clone(), b.clone()], &vec![tri.clone(), tri.clone()]);
    let mut expected = Footprint::new();
    expected.union_with(&fa);
    expected.union_with(&fb);
    assert_eq!(both.len(), expected.len());
    for id in expected.to_vec() {
        assert!(both.contains(id));
    }
    let only_a = polygon(20, &vec![a, b], &vec![tri, None]);
    assert_eq!(only_a.len(), fa.len());
}

#[test]
fn footprint_is_a_set() {
    let mut f = Footprint::new();
    let id = SpatialId::new(3, 1, 2, 3);
    f.insert(id);
    f.insert(id);
    f.extend(&vec![id, SpatialId::new(3, 1, 2, 4)]);
    assert_eq!(f.len(), 2);
    assert!(f.contains(SpatialId::new(3, 1, 2, 4)));
    assert!(!f.contains(SpatialId::new(3, 0, 2, 4)));
}

#[test]
fn coordinate_count_must_be_multiple_of_three() {
    let ten: Vec<f64> = (0..10).map(|i| i as f64).collect();
    assert_eq!(group_triples(&ten), Err(GeometryFormatError { count: 10 }));
    let six = vec![1.0, 2.0, 3.0, 4.0, 5.0, 6.0];
    assert_eq!(group_triples(&six), Ok(vec![(1.0, 2.0, 3.0), (4.0, 5.0, 6.0)]));
    assert_eq!(group_triples(&Vec::<f64>::new()), Ok(vec![]));
}

#[test]
fn local_names_ignore_prefix() {
    assert!(is_local(b"bldg:Building", b"Building"));
    assert!(is_local(b"Building", b"Building"));
    assert!(!is_local(b"bldg:BuildingPart", b"Building"));
    assert!(!is_local(b"ing", b"Building"));
    assert_eq!(classify_start(b"bldg:Building"), StartKind::Building);
    assert_eq!(classify_start(b"bldg:lod1Solid"), StartKind::Lod(LodLevel::Lod1));
    assert_eq!(classify_start(b"bldg:lod2MultiSurface"), StartKind::Lod(LodLevel::Lod2));
    assert_eq!(classify_start(b"uro:buildingID"), StartKind::Target(TargetTag::UroBuildingId));
    assert_eq!(classify_start(b"gml:posList"), StartKind::Target(TargetTag::PosList));
    assert_eq!(classify_start(b"gml:Polygon"), StartKind::Other);
    assert_eq!(classify_end(b"gml:Polygon"), EndKind::Polygon);
    assert_eq!(classify_end(b"bldg:lod2Solid"), EndKind::LodSolid);
    assert_eq!(classify_end(b"bldg:Building"), EndKind::Building);
    assert_eq!(classify_end(b"gml:posList"), EndKind::Other);
}

#[test]
fn higher_detail_preferred() {
    let mut acc: LodAccumulator<u8> = LodAccumulator::new();
    acc.set_level(LodLevel::Lod1);
    acc.push_ring(vec![1, 2, 3]);
    acc.set_level(LodLevel::Unset);
    acc.push_ring(vec![9, 9, 9]);
    acc.set_level(LodLevel::Lod2);
    acc.push_ring(vec![]);
    acc.push_ring(vec![4, 5, 6]);
    assert_eq!(acc.take_surfaces(), vec![vec![4, 5, 6]]);
}

#[test]
fn lower_detail_when_higher_absent() {
    let mut acc: LodAccumulator<u8> = LodAccumulator::new();
    acc.set_level(LodLevel::Lod1);
    acc.push_ring(vec![1, 2, 3]);
    acc.push_ring(vec![4, 5, 6]);
    assert_eq!(acc.level(), LodLevel::Lod1);
    assert_eq!(acc.take_surfaces(), vec![vec![1, 2, 3], vec![4, 5, 6]]);
    acc.reset();
    assert_eq!(acc.level(), LodLevel::Unset);
    assert!(acc.take_surfaces().is_empty());
}

#[test]
fn chunks_are_contiguous_and_bounded() {
    assert_eq!(chunk_bounds(120, CHUNK_SIZE), vec![(0, 50), (50, 100), (100, 120)]);
    assert_eq!(chunk_bounds(100, CHUNK_SIZE), vec![(0, 50), (50, 100)]);
    assert_eq!(chunk_bounds(1, CHUNK_SIZE), vec![(0, 1)]);
    assert!(chunk_bounds(0, CHUNK_SIZE).is_empty());
}

#[test]
fn export_names_lose_path_separators() {
    assert_eq!(safe_name("CityData/udx\\bldg/a.gml_stid"), "CityData_udx_bldg_a.gml_stid");
    assert_eq!(safe_name("plain"), "plain");
    assert_eq!(safe_name("品川/区"), "品川_区");
    assert_eq!(safe_name(""), "");
}

#[test]
fn corner_that_does_not_round_trip_contributes_nothing() {
    let a = c(85.05, 0.0, -20_000_000.0);
    let b = c(85.0, 0.001, 10.0);
    let d = c(84.999, 0.0, 10.0);
    assert!(Coordinate::try_from(Ecef::from(a)).is_err());
    assert_eq!(triangles_to_ids(1, &vec![(a, b, d)]).len(), 0);
    assert!(Coordinate::try_from(Ecef::from(b)).is_ok());
}

#[test]
fn loader_not_called_without_scope() {
    let ctx = CodeSpaceContext::new();
    let mut cache = CodeSpaceCache::new();
    let r = ctx.resolve_text("1", &mut cache, |_: &String| -> Result<TextMap, String> {
        panic!("no scope is open")
    });
    assert_eq!(r.ok().unwrap(), None);
}
