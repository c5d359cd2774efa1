use handy::debug_capture::{bundle_metadata, bundle_name, debug_root, prune, DirPath};

fn dir(anchor: &str, parts: &[&str]) -> DirPath {
    DirPath {
        anchor: anchor.to_string(),
        parts: parts.iter().map(|p| p.to_string()).collect(),
    }
}

fn names(list: &[&str]) -> Vec<String> {
    list.iter().map(|n| n.to_string()).collect()
}

#[test]
fn bundles_stand_beside_the_recordings() {
    let root = debug_root(&dir("/", &["data", "handy", "recordings"]));
    assert_eq!(root.anchor, "/");
    assert_eq!(root.parts, names(&["data", "handy", "debug"]));
}

#[test]
fn a_directory_without_a_parent_holds_its_own_bundles() {
    assert_eq!(debug_root(&dir("/", &[])).parts, names(&["debug"]));
    assert_eq!(debug_root(&dir("", &[])).parts, names(&["debug"]));
    assert_eq!(
        debug_root(&dir("", &["recordings"])).parts,
        names(&["debug"])
    );
}

#[test]
fn a_bundle_is_named_by_its_timestamp() {
    assert_eq!(bundle_name(1_788_000_000), "1788000000");
    assert_eq!(bundle_name(0), "0");
    assert_eq!(bundle_name(-7), "-7");
    assert_eq!(bundle_name(i64::MIN), "-9223372036854775808");
    assert_eq!(bundle_name(i64::MAX), "9223372036854775807");
}

#[test]
fn the_oldest_bundles_go_first() {
    let listed = names(&["300", "notes", "100", "+50", "200", "12x", ""]);
    assert_eq!(prune(&listed, 2), vec![3, 2]);
    assert_eq!(prune(&listed, 4), Vec::<usize>::new());
    assert_eq!(prune(&listed, 0), vec![3, 2, 4, 0]);
}

#[test]
fn names_out_of_range_are_no_bundles() {
    let listed = names(&[
        "9223372036854775808",
        "-9223372036854775808",
        "-",
        "+",
        "--1",
        "1 ",
        "007",
    ]);
    assert_eq!(prune(&listed, 0), vec![1, 6]);
}

#[test]
fn equal_timestamps_keep_their_order() {
    let listed = names(&["5", "+5", "05", "4"]);
    assert_eq!(prune(&listed, 1), vec![3, 0, 1]);
}

#[test]
fn a_bundle_is_known_by_its_name() {
    for timestamp in [i64::MIN, -1, 0, 1_788_000_000, i64::MAX] {
        assert_eq!(prune(&[bundle_name(timestamp)], 0), vec![0]);
    }
}

#[test]
fn metadata_is_written_over_several_lines() {
    let mut meta = serde_json::Map::new();
    meta.insert("transcript".to_string(), serde_json::Value::from("да"));
    meta.insert("samples".to_string(), serde_json::Value::from(16000));
    let meta = serde_json::Value::Object(meta);
    assert_eq!(
        bundle_metadata(&meta).unwrap(),
        "{\n  \"samples\": 16000,\n  \"transcript\": \"да\"\n}"
    );
    assert_eq!(bundle_metadata(&serde_json::Value::Null).unwrap(), "null");
}
