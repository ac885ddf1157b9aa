use std::cell::Cell;

use citygml_stid::code_list::{get_code_map, CodeSpaceCache};
use citygml_stid::feature::{FeatureParser, ThemeDescriptor, TextRoute};
use citygml_stid::geometry::{citygml_polygon_to_ids, group_triples, Footprint, SpatialId};
use citygml_stid::scope::{code_space_attribute, CodeSpaceContext};
use citygml_stid::text_map::TextMap;
use kasane_logic::{Coordinate, CoverSingleIds, Triangle};

fn code_list(pairs: &[(&str, &str)]) -> TextMap {
    let mut m = TextMap::new();
    for (k, v) in pairs {
        m.insert(k.to_string(), v.to_string());
    }
    m
}

fn attrs(pairs: &[(&str, &str)]) -> Vec<(String, String)> {
    pairs.iter().map(|(k, v)| (k.to_string(), v.to_string())).collect()
}

fn ring_of(text: &str) -> Vec<Coordinate> {
    let nums: Vec<f64> = text.split_whitespace().map(|t| t.parse().unwrap()).collect();
    group_triples(&nums)
        .unwrap()
        .into_iter()
        .map(|(a, b, c)| Coordinate::new(a, b, c).unwrap())
        .collect()
}

fn cover(z: u8, a: Coordinate, b: Coordinate, c: Coordinate) -> Vec<SpatialId> {
    Triangle::new([a, b, c])
        .cover_single_ids(z)
        .unwrap()
        .map(|id| SpatialId::new(id.z(), id.f(), id.x(), id.y()))
        .collect()
}

fn sorted(mut v: Vec<SpatialId>) -> Vec<SpatialId> {
    v.sort_by_key(|i| (i.z, i.f, i.x, i.y));
    v.dedup();
    v
}

#[test]
fn text_map_last_write_wins() {
    let mut m = TextMap::new();
    m.insert("bldg:usage".to_string(), "a".to_string());
    m.insert("bldg:class".to_string(), "b".to_string());
    m.insert("bldg:usage".to_string(), "c".to_string());
    assert_eq!(m.get("bldg:usage"), Some("c".to_string()));
    assert_eq!(m.get("bldg:class"), Some("b".to_string()));
    assert_eq!(m.get("missing"), None);
}

#[test]
fn code_label_round_trip() {
    let m = code_list(&[("431", "Reinforced Concrete")]);
    assert_eq!(m.label_of("431"), "Reinforced Concrete");
    assert_eq!(m.label_of("999"), "999");
}

#[test]
fn code_map_loaded_once_per_path() {
    let mut cache = CodeSpaceCache::new();
    let path = "/codes/usage.xml".to_string();
    let calls = Cell::new(0);
    let load = |_: &String| {
        calls.set(calls.get() + 1);
        Ok(code_list(&[("431", "Reinforced Concrete")]))
    };
    let first = get_code_map(&mut cache, &path, load).ok().unwrap().get("431");
    let second = get_code_map(&mut cache, &path, load).ok().unwrap().get("431");
    assert_eq!(first, second);
    assert_eq!(first, Some("Reinforced Concrete".to_string()));
    assert_eq!(calls.get(), 1);
    assert!(cache.contains(&path));
}

#[test]
fn code_map_failure_names_path_and_caches_nothing() {
    let mut cache = CodeSpaceCache::new();
    let path = "/codes/missing.xml".to_string();
    let r = get_code_map(&mut cache, &path, |_: &String| Err("no such file".to_string()));
    match r {
        Err(e) => {
            assert_eq!(e.path, path);
            assert_eq!(e.message, "no such file");
        }
        Ok(_) => panic!("expected an error"),
    }
    assert!(!cache.contains(&path));
}

#[test]
fn scope_active_iff_owner_and_path() {
    let mut ctx = CodeSpaceContext::new();
    assert!(!ctx.is_active());
    assert_eq!(ctx.owner_tag(), None);
    assert_eq!(ctx.list_path(), None);
    ctx.on_start("bldg:usage", None);
    assert!(!ctx.is_active());
    ctx.on_start("bldg:usage", Some("/codes/usage.xml".to_string()));
    assert!(ctx.is_active());
    assert_eq!(ctx.owner_tag(), Some("bldg:usage".to_string()));
    assert_eq!(ctx.list_path(), Some("/codes/usage.xml".to_string()));
    // a nested reference does not replace the open scope
    ctx.on_start("bldg:class", Some("/codes/class.xml".to_string()));
    assert_eq!(ctx.owner_tag(), Some("bldg:usage".to_string()));
    ctx.on_end("bldg:class");
    assert!(ctx.is_active());
    ctx.on_end("bldg:usage");
    assert!(!ctx.is_active());
    assert_eq!(ctx.owner_tag(), None);
    assert_eq!(ctx.list_path(), None);
}

#[test]
fn scope_resolves_only_when_active() {
    let mut cache = CodeSpaceCache::new();
    let mut ctx = CodeSpaceContext::new();
    let load = |_: &String| Ok(code_list(&[("1", "one")]));
    assert_eq!(ctx.resolve_text("1", &mut cache, load).ok().unwrap(), None);
    ctx.on_start("x:tag", Some("/codes/a.xml".to_string()));
    assert_eq!(ctx.resolve_text("1", &mut cache, load).ok().unwrap(), Some("one".to_string()));
    assert_eq!(ctx.resolve_text("2", &mut cache, load).ok().unwrap(), Some("2".to_string()));
}

#[test]
fn code_space_attribute_found_first() {
    let a = attrs(&[("gml:id", "x"), ("codeSpace", "../codelists/a.xml"), ("codeSpace", "b.xml")]);
    assert_eq!(code_space_attribute(&a), Some("../codelists/a.xml".to_string()));
    assert_eq!(code_space_attribute(&attrs(&[("gml:id", "x")])), None);
}

#[test]
fn scenario_one_building() {
    let mut p = FeatureParser::new(ThemeDescriptor::building());
    let load = |_: &String| Ok(code_list(&[("431", "Reinforced Concrete")]));
    p.on_start("core:CityModel", &attrs(&[]), None);
    p.on_start("bldg:Building", &attrs(&[("gml:id", "bldg_1")]), None);
    p.on_start("bldg:usage", &attrs(&[("codeSpace", "usage.xml")]), Some("/codes/usage.xml".to_string()));
    assert_eq!(p.on_text("431", load).ok().unwrap(), TextRoute::Coded);
    p.on_end("bldg:usage");
    p.on_start("gml:posList", &attrs(&[]), None);
    let text = "0 0 10 1 0 10 1 1 10 0 0 10";
    assert_eq!(p.on_text(text, load).ok().unwrap(), TextRoute::Geometry);
    let ring = ring_of(text);
    assert_eq!(ring.len(), 4);
    let fp = citygml_polygon_to_ids(1, &ring, false);
    p.add_footprint(&fp);
    p.on_end("gml:posList");
    p.on_end("bldg:Building");
    p.on_end("core:CityModel");
    let out = p.into_finished();
    assert_eq!(out.len(), 1);
    assert_eq!(out[0].count, 0);
    let rec = &out[0].record;
    assert_eq!(rec.id, "bldg_1");
    assert_eq!(rec.attributes.get("bldg:usage"), Some("Reinforced Concrete".to_string()));
    let mut expected = cover(1, ring[0], ring[1], ring[2]);
    expected.extend(cover(1, ring[0], ring[2], ring[3]));
    assert_eq!(sorted(rec.footprint.to_vec()), sorted(expected));
}

#[test]
fn scenario_two_buildings_do_not_leak() {
    let mut p = FeatureParser::new(ThemeDescriptor::building());
    let load = |_: &String| Ok(code_list(&[("1", "one"), ("2", "two")]));
    p.on_start("bldg:Building", &attrs(&[("gml:id", "a")]), None);
    p.on_start("bldg:usage", &attrs(&[]), Some("/c.xml".to_string()));
    p.on_text("1", load).ok().unwrap();
    p.on_end("bldg:usage");
    let mut fp = Footprint::new();
    fp.insert(SpatialId::new(1, 0, 0, 0));
    p.add_footprint(&fp);
    p.on_end("bldg:Building");
    p.on_start("bldg:Building", &attrs(&[("gml:id", "b")]), None);
    p.on_start("bldg:class", &attrs(&[]), Some("/c.xml".to_string()));
    p.on_text("2", load).ok().unwrap();
    p.on_end("bldg:class");
    p.on_end("bldg:Building");
    let out = p.into_finished();
    assert_eq!(out.len(), 2);
    assert_eq!(out[1].count, 1);
    assert_eq!(out[0].record.id, "a");
    assert_eq!(out[1].record.id, "b");
    assert_eq!(out[0].record.attributes.get("bldg:usage"), Some("one".to_string()));
    assert_eq!(out[0].record.attributes.get("bldg:class"), None);
    assert_eq!(out[1].record.attributes.get("bldg:class"), Some("two".to_string()));
    assert_eq!(out[1].record.attributes.get("bldg:usage"), None);
    assert_eq!(out[0].record.footprint.len(), 1);
    assert_eq!(out[1].record.footprint.len(), 0);
}

#[test]
fn truncated_feature_is_dropped() {
    let mut p = FeatureParser::new(ThemeDescriptor::road());
    p.on_start("tran:Road", &attrs(&[("gml:id", "r1")]), None);
    assert!(p.is_open());
    assert_eq!(p.into_finished().len(), 0);
}

#[test]
fn passthrough_text_kept_verbatim() {
    let mut p = FeatureParser::new(ThemeDescriptor::land_use());
    let load = |_: &String| Err("unused".to_string());
    p.on_start("luse:LandUse", &attrs(&[("gml:id", "l1")]), None);
    p.on_start("uro:note", &attrs(&[]), None);
    assert_eq!(p.on_text("free text", load).ok().unwrap(), TextRoute::Verbatim);
    p.on_end("uro:note");
    p.on_start("gml:name", &attrs(&[]), None);
    assert_eq!(p.on_text("ignored", load).ok().unwrap(), TextRoute::Ignored);
    p.on_end("gml:name");
    p.on_end("luse:LandUse");
    let out = p.into_finished();
    assert_eq!(out[0].record.attributes.get("uro:note"), Some("free text".to_string()));
    assert_eq!(out[0].record.attributes.get("gml:name"), None);
}

#[test]
fn building_theme_ignores_plain_text() {
    let mut p = FeatureParser::new(ThemeDescriptor::building());
    let load = |_: &String| Err("unused".to_string());
    assert_eq!(p.on_text("outside", load).ok().unwrap(), TextRoute::Ignored);
    p.on_start("bldg:Building", &attrs(&[]), None);
    p.on_start("uro:note", &attrs(&[]), None);
    assert_eq!(p.on_text("free text", load).ok().unwrap(), TextRoute::Ignored);
    p.on_end("uro:note");
    p.on_end("bldg:Building");
    let out = p.into_finished();
    assert_eq!(out[0].record.id, "");
    assert_eq!(out[0].record.attributes.len(), 0);
}

#[test]
fn missing_code_list_is_an_error() {
    let mut p = FeatureParser::new(ThemeDescriptor::building());
    p.on_start("bldg:Building", &attrs(&[("gml:id", "a")]), None);
    p.on_start("bldg:usage", &attrs(&[]), Some("/gone.xml".to_string()));
    match p.on_text("431", |_: &String| Err("unreadable".to_string())) {
        Err(e) => assert_eq!(e.path, "/gone.xml"),
        Ok(_) => panic!("expected an error"),
    }
}
