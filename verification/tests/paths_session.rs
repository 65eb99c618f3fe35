use vaporwall::paths::{config_dir, config_file_path, path_push, pywal_colors_path, wall_uri, walls_dir};
use vaporwall::session::{is_colors_file, layer_namespace, refresh_after_reload, Refresh};

#[test]
fn path_push_joins_like_a_path_buffer() {
    assert_eq!(path_push("/home/u", ".config"), "/home/u/.config");
    assert_eq!(path_push("/home/u/", ".config"), "/home/u/.config");
    assert_eq!(path_push("", ".config"), ".config");
    assert_eq!(path_push("/", ".config"), "/.config");
    assert_eq!(path_push("/home/u", "/etc/x"), "/etc/x");
    assert_eq!(path_push("a", ""), "a/");
    for (base, part) in [("/home/u", "walls"), ("a/b/", "c"), ("", "d"), ("x", "/y")] {
        let mut p = std::path::PathBuf::from(base);
        p.push(part);
        assert_eq!(path_push(base, part), p.to_str().unwrap());
    }
}

#[test]
fn config_locations() {
    assert_eq!(config_dir(Some("/home/u")), "/home/u/.config/vaporwall");
    assert_eq!(config_dir(None), "/.config/vaporwall");
    assert_eq!(walls_dir(Some("/home/u")), "/home/u/.config/vaporwall/walls");
    assert_eq!(config_file_path(Some("/home/u")), "/home/u/.config/vaporwall/vapor.conf");
    assert_eq!(config_file_path(None), "/.config/vaporwall/vapor.conf");
    assert_eq!(pywal_colors_path("/home/u"), "/home/u/.cache/wal/colors.json");
}

#[test]
fn files_in_config_dir() {
    for home in [Some("/home/u"), Some("/home/u/"), Some(""), None] {
        let d = config_dir(home);
        assert_eq!(walls_dir(home), format!("{}/walls", d));
        assert_eq!(config_file_path(home), format!("{}/vapor.conf", d));
    }
}

#[test]
fn wall_addresses() {
    assert_eq!(
        wall_uri(Some("/home/u"), "rain.html"),
        "file:///home/u/.config/vaporwall/walls/rain.html"
    );
    assert_eq!(wall_uri(Some("/home/u"), "/tmp/x.html"), "file:///tmp/x.html");
    assert_eq!(wall_uri(None, "example.html"), "file:///.config/vaporwall/walls/example.html");
}

#[test]
fn namespaces() {
    assert_eq!(layer_namespace(Some("DP-1")), "vaporwall-DP-1");
    assert_eq!(layer_namespace(None), "vaporwall-unknown");
}

#[test]
fn refresh_decision() {
    assert!(matches!(refresh_after_reload("a.html", "b.html"), Refresh::LoadWall));
    assert!(matches!(refresh_after_reload("a.html", "a.html"), Refresh::InjectState));
}

#[test]
fn colors_file_detection() {
    assert!(is_colors_file("/home/u/.cache/wal/colors.json"));
    assert!(is_colors_file("colors.json"));
    assert!(is_colors_file("/x/colors.json/"));
    assert!(is_colors_file("/x/colors.json/."));
    assert!(is_colors_file("/x//colors.json"));
    assert!(!is_colors_file("/x/mycolors.json"));
    assert!(!is_colors_file("/x/colors.json.tmp"));
    assert!(!is_colors_file("/x/colors.json/y"));
    assert!(!is_colors_file("."));
    assert!(!is_colors_file(""));
    for p in ["/a/colors.json", "/a/colors.jso", "colors.json//", "./colors.json", "/a/../colors.json", "/a/./"] {
        assert_eq!(is_colors_file(p), std::path::Path::new(p).ends_with("colors.json"), "{}", p);
    }
}
