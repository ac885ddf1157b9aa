use citygml_stid::building::{parse_i32, BuildingEvent, BuildingReader};

fn key(k: &str, v: &str) -> (Vec<u8>, String) {
    (k.as_bytes().to_vec(), v.to_string())
}

fn text_in(r: &mut BuildingReader<u32>, tag: &str, text: &str) -> bool {
    r.on_start(tag.as_bytes(), &vec![]);
    r.on_text(text);
    matches!(r.on_end(tag.as_bytes()), BuildingEvent::Continue)
}

#[test]
fn building_attributes_and_preferred_lod() {
    let mut r: BuildingReader<u32> = BuildingReader::new();
    r.on_start(b"bldg:Building", &vec![key("xml:lang", "ja"), key("gml:id", "bldg_7")]);
    assert!(text_in(&mut r, "uro:buildingID", "13109-bldg-1"));
    assert!(text_in(&mut r, "uro:city", "13109"));
    assert!(text_in(&mut r, "bldg:class", "3001"));
    assert!(text_in(&mut r, "bldg:measuredHeight", "12.5"));
    assert!(text_in(&mut r, "uro:lod1HeightType", "2"));
    assert!(text_in(&mut r, "bldg:usage", "not a number"));
    assert!(text_in(&mut r, "uro:prefecture", "13"));
    r.on_start(b"bldg:lod1Solid", &vec![]);
    r.on_start(b"gml:posList", &vec![]);
    r.on_text("1 2 3");
    r.on_text("4 5 6");
    r.on_end(b"gml:posList");
    match r.on_end(b"gml:Polygon") {
        BuildingEvent::Ring(t) => assert_eq!(t, "1 2 3 4 5 6 "),
        _ => panic!("expected the polygon's text"),
    }
    r.push_ring(vec![1, 2]);
    assert!(matches!(r.on_end(b"bldg:lod1Solid"), BuildingEvent::Continue));
    r.on_start(b"bldg:lod2Solid", &vec![]);
    r.on_start(b"gml:Polygon", &vec![]);
    assert!(matches!(r.on_end(b"gml:Polygon"), BuildingEvent::Continue));
    r.push_ring(vec![3, 4]);
    r.on_end(b"bldg:lod2Solid");
    match r.on_end(b"bldg:Building") {
        BuildingEvent::Finished(a, surfaces) => {
            assert_eq!(a.gml_id, "bldg_7");
            assert_eq!(a.uro_building_id, "13109-bldg-1");
            assert_eq!(a.uro_city_code, "13109");
            assert_eq!(a.class_code, "3001");
            assert_eq!(a.measured_height, Some("12.5".to_string()));
            assert_eq!(a.lod1_height_type, Some(2));
            assert_eq!(a.usage_code, None);
            assert_eq!(a.uro_prefecture_code, Some("13".to_string()));
            assert_eq!(surfaces, vec![vec![3, 4]]);
        }
        _ => panic!("expected a finished building"),
    }
}

#[test]
fn building_falls_back_to_lod1_and_resets() {
    let mut r: BuildingReader<u32> = BuildingReader::new();
    r.on_start(b"bldg:Building", &vec![key("gml:id", "a")]);
    r.on_start(b"bldg:lod1Solid", &vec![]);
    r.push_ring(vec![1, 2, 3]);
    r.on_end(b"bldg:lod1Solid");
    r.push_ring(vec![9]);
    match r.on_end(b"bldg:Building") {
        BuildingEvent::Finished(a, surfaces) => {
            assert_eq!(a.gml_id, "a");
            assert_eq!(surfaces, vec![vec![1, 2, 3]]);
        }
        _ => panic!("expected a finished building"),
    }
    r.on_start(b"bldg:Building", &vec![]);
    match r.on_end(b"bldg:Building") {
        BuildingEvent::Finished(a, surfaces) => {
            assert_eq!(a.gml_id, "");
            assert_eq!(a.uro_city_code, "");
            assert!(surfaces.is_empty());
        }
        _ => panic!("expected a finished building"),
    }
}

#[test]
fn integers_read_as_std_reads_them() {

    let cases = [
        "0", "42", "-42", "+42", "007", "-0", "2147483647", "2147483648", "-2147483648", "-2147483649",
        "99999999999999999999", "", "-", "+", "+-1", "1.5", " 1", "1 ", "12a", "٣",
    ];
    for c in cases {
        assert_eq!(parse_i32(c), c.parse::<i32>().ok(), "{c:?}");
    }
}
