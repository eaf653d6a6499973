use y_sweet::keys::{
    asset_key, assets_prefix, collect_relative_keys, copy_pairs, copy_source, data_key,
    full_list_prefix, prefixed_key, strip_prefix_str, trim_char,
};

#[test]
fn prefixed_keys_join_with_one_slash() {
    assert_eq!(prefixed_key(&None, "d1/data.ysweet"), "d1/data.ysweet");
    let p = Some("app-prefix".to_string());
    assert_eq!(prefixed_key(&p, "d1/data.ysweet"), "app-prefix/d1/data.ysweet");
    let p = Some("app-prefix//".to_string());
    assert_eq!(prefixed_key(&p, "//d1/data.ysweet"), "app-prefix/d1/data.ysweet");
    assert_eq!(prefixed_key(&p, ""), "app-prefix//");
}

#[test]
fn listing_round_trips_for_every_prefix() {
    for prefix in [None, Some("p".to_string()), Some("p/".to_string()), Some("a/b//".to_string())] {
        let full = full_list_prefix(&prefix, "d1/assets");
        let stored = vec![
            prefixed_key(&prefix, "d1/assets/x.png"),
            prefixed_key(&prefix, "d1/assets/y.mp4"),
            prefixed_key(&prefix, "d2/assets/z.png"),
            full.clone(),
        ];
        let mut out = Vec::new();
        collect_relative_keys(&full, &stored, &mut out);
        assert_eq!(out, vec!["x.png".to_string(), "y.mp4".to_string()]);
    }
}

#[test]
fn list_prefix_has_one_trailing_slash() {
    assert_eq!(full_list_prefix(&None, "d1/assets/"), "d1/assets/");
    assert_eq!(full_list_prefix(&Some("p".to_string()), "d1///"), "p/d1/");
}

#[test]
fn document_keys() {
    assert_eq!(data_key("d1"), "d1/data.ysweet");
    assert_eq!(assets_prefix("d1"), "d1/assets/");
    assert_eq!(asset_key("d1", "a.png"), "d1/assets/a.png");
}

#[test]
fn string_helpers() {
    assert_eq!(trim_char("//a/b//", '/'), "a/b");
    assert_eq!(trim_char("///", '/'), "");
    assert_eq!(strip_prefix_str("abc", "ab"), Some("c".to_string()));
    assert_eq!(strip_prefix_str("abc", "b"), None);
    assert_eq!(strip_prefix_str("ab", "abc"), None);
}

#[test]
fn copy_keeps_relative_suffixes() {
    let rel = vec![
        "data.ysweet".to_string(),
        "assets/a.png".to_string(),
        "assets/b.mp4".to_string(),
    ];
    let pairs = copy_pairs("d6", "/d6new/", &rel);
    assert_eq!(
        pairs,
        vec![
            ("d6/data.ysweet".to_string(), "d6new/data.ysweet".to_string()),
            ("d6/assets/a.png".to_string(), "d6new/assets/a.png".to_string()),
            ("d6/assets/b.mp4".to_string(), "d6new/assets/b.mp4".to_string()),
        ]
    );
    assert_eq!(
        copy_source("bucket", &Some("pre/".to_string()), "d6/data.ysweet"),
        "bucket/pre/d6/data.ysweet"
    );
}

#[test]
fn logical_keys_round_trip_under_any_logical_prefix() {
    for prefix in [None, Some("p".to_string()), Some("p//".to_string())] {
        for (q, r) in [("d1", "a.png"), ("d1//", "x/y"), ("/d1", "z"), ("", "k"), ("//", "k")] {
            let stored = prefixed_key(&prefix, &format!("{}/{}", q.trim_end_matches('/'), r));
            let full = full_list_prefix(&prefix, q);
            let mut out = Vec::new();
            collect_relative_keys(&full, &vec![stored], &mut out);
            assert_eq!(out, vec![r.to_string()]);
        }
    }
}

#[test]
fn leading_slash_is_trimmed_under_a_bucket_prefix_and_empty_logical_prefix() {
    let prefix = Some("p".to_string());
    let stored = prefixed_key(&prefix, "//k");
    let mut out = Vec::new();
    collect_relative_keys(&full_list_prefix(&prefix, ""), &vec![stored], &mut out);
    assert_eq!(out, vec!["k".to_string()]);
    let mut out = Vec::new();
    collect_relative_keys(&full_list_prefix(&None, ""), &vec![prefixed_key(&None, "//k")], &mut out);
    assert_eq!(out, vec!["/k".to_string()]);
}
