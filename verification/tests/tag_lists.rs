use playlist_core::tags::{merge_tag_lists, merged_tags_json, parse_tags};

fn strings(v: &[&str]) -> Vec<String> {
    v.iter().map(|s| s.to_string()).collect()
}

#[test]
fn merged_tags_are_written_as_json() {
    let stored = Some(r#"["Rock","indie"]"#.to_string());
    assert_eq!(
        merged_tags_json(&stored, &strings(&["rock", "Shoegaze"])).as_deref(),
        Some(r#"["Rock","indie","Shoegaze"]"#)
    );
    assert_eq!(merged_tags_json(&None, &strings(&["a \"b\""])).as_deref(), Some(r#"["a \"b\""]"#));
    assert_eq!(merged_tags_json(&Some("not json".to_string()), &strings(&["x"])).as_deref(), Some(r#"["x"]"#));
    assert_eq!(merged_tags_json(&None, &Vec::new()), None);
    assert_eq!(merged_tags_json(&Some("[]".to_string()), &Vec::new()), None);
}

#[test]
fn tag_lists_read_and_merge() {
    assert_eq!(parse_tags(&Some(r#"["a","b"]"#.to_string())), strings(&["a", "b"]));
    assert!(parse_tags(&Some("{".to_string())).is_empty());
    assert!(parse_tags(&None).is_empty());
    assert_eq!(merge_tag_lists(strings(&["Jazz"]), &strings(&["JAZZ", "funk", "Funk"])), strings(&["Jazz", "funk"]));
}
