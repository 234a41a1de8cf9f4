use hyprnote::plugins::{
    chat_window_width, main_path_is_safe, sidebar_window_width, sort_plugins, PathStyle,
    PluginManifestEntry,
};

fn entry(id: &str, name: &str) -> PluginManifestEntry {
    PluginManifestEntry {
        id: id.to_string(),
        name: name.to_string(),
        version: "1.0.0".to_string(),
        main_path: format!("/plugins/{id}/main.js"),
    }
}

#[test]
fn entry_points_stay_inside_the_plugin() {
    let unix = PathStyle::Unix;
    assert!(main_path_is_safe("main.js", unix));
    assert!(main_path_is_safe("dist/main.js", unix));
    assert!(main_path_is_safe("a..b/main.js", unix));
    assert!(main_path_is_safe("..\\x.js", unix));
    assert!(!main_path_is_safe("/etc/passwd", unix));
    assert!(!main_path_is_safe("../main.js", unix));
    assert!(!main_path_is_safe("dist/../../x.js", unix));
    assert!(!main_path_is_safe("..", unix));
}

#[test]
fn entry_points_under_windows_rules() {
    let win = PathStyle::Windows;
    assert!(main_path_is_safe("dist\\main.js", win));
    assert!(!main_path_is_safe("..\\x.js", win));
    assert!(!main_path_is_safe("dist\\..\\x.js", win));
    assert!(!main_path_is_safe("C:\\x.js", win));
    assert!(!main_path_is_safe("c:/x.js", win));
    assert!(!main_path_is_safe("\\\\server\\share\\x.js", win));
    assert!(main_path_is_safe("/x.js", win));
}

#[test]
fn plugins_sorted_by_id_stably() {
    let sorted = sort_plugins(vec![entry("zeta", "z"), entry("alpha", "first"), entry("mid", "m"), entry("alpha", "second")]);
    let ids: Vec<(&str, &str)> = sorted.iter().map(|e| (e.id.as_str(), e.name.as_str())).collect();
    assert_eq!(ids, vec![("alpha", "first"), ("alpha", "second"), ("mid", "m"), ("zeta", "z")]);
    assert!(sort_plugins(vec![]).is_empty());
}

#[test]
fn window_widths() {
    assert_eq!(chat_window_width(800), 1200);
    assert_eq!(sidebar_window_width(839), Some(1119));
    assert_eq!(sidebar_window_width(840), None);
}
