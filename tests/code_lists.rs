use citygml_stid::code_list::CodeListBuilder;
use citygml_stid::feature::ThemeDescriptor;

fn feed(b: &mut CodeListBuilder, start: &str, text: &str) {
    b.on_start(start);
    b.on_text(text);
    b.on_end(start);
}

#[test]
fn dictionary_definitions_become_entries() {
    let mut b = CodeListBuilder::new();
    b.on_start("gml:Dictionary");
    feed(&mut b, "gml:name", "Building usage");
    b.on_start("gml:dictionaryEntry");
    b.on_start("gml:Definition");
    feed(&mut b, "gml:description", "Reinforced Concrete");
    feed(&mut b, "gml:name", "431");
    b.on_end("gml:Definition");
    b.on_end("gml:dictionaryEntry");
    b.on_start("gml:Definition");
    feed(&mut b, "gml:name", "432");
    b.on_end("gml:Definition");
    b.on_start("gml:Definition");
    feed(&mut b, "gml:name", "433");
    feed(&mut b, "gml:description", "Steel");
    b.on_end("gml:Definition");
    b.on_end("gml:Dictionary");
    let m = b.finish();
    assert_eq!(m.get("431"), Some("Reinforced Concrete".to_string()));
    assert_eq!(m.get("433"), Some("Steel".to_string()));
    assert_eq!(m.get("432"), None);
    assert_eq!(m.get("Building usage"), None);
    assert_eq!(m.label_of("432"), "432");
}

#[test]
fn theme_descriptors() {
    let b = ThemeDescriptor::building();
    assert_eq!(b.root_tag, "bldg:Building");
    assert_eq!(b.id_attr, "gml:id");
    assert_eq!(b.geometry_tag, "gml:posList");
    assert!(!b.is_passthrough("uro:note"));
    assert_eq!(ThemeDescriptor::relief().root_tag, "dem:ReliefFeature");
    assert_eq!(ThemeDescriptor::road().root_tag, "tran:Road");
    assert_eq!(ThemeDescriptor::sediment_area().root_tag, "urf:SedimentDisasterProneArea");
    let w = ThemeDescriptor::water_body();
    assert_eq!(w.root_tag, "wtr:WaterBody");
    assert!(w.is_passthrough("uro:floodDepth"));
    assert!(!w.is_passthrough("luse:class"));
    let l = ThemeDescriptor::land_use();
    assert_eq!(l.root_tag, "luse:LandUse");
    assert!(l.is_passthrough("luse:class"));
    assert!(!l.is_passthrough("gml:name"));
}
