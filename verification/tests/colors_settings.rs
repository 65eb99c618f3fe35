use vaporwall::colors::{ColorTable, PywalColors, SpecialColors};
use vaporwall::script::state_script;
use vaporwall::settings::{plan_startup, start_settings, FloatTexts, VaporSettings};

fn scheme() -> PywalColors {
    let mut table = ColorTable::new();
    table.insert("color1".to_string(), "#010203".to_string());
    table.insert("color4".to_string(), "#0a0b0c".to_string());
    PywalColors {
        special: SpecialColors {
            background: "#102030".to_string(),
            foreground: "#f0e0d0".to_string(),
            cursor: "#ffffff".to_string(),
        },
        colors: table,
    }
}

#[test]
fn color_table_lookup_after_insert() {
    let mut t = ColorTable::new();
    assert!(t.get("color1").is_none());
    t.insert("color1".to_string(), "#111111".to_string());
    t.insert("color2".to_string(), "#222222".to_string());
    assert_eq!(t.get("color1").map(|s| s.as_str()), Some("#111111"));
    t.insert("color1".to_string(), "#333333".to_string());
    assert_eq!(t.get("color1").map(|s| s.as_str()), Some("#333333"));
    assert_eq!(t.get("color2").map(|s| s.as_str()), Some("#222222"));
    assert_eq!(t.entries().len(), 2);
}

#[test]
fn color_codes_by_name() {
    let p = scheme();
    assert_eq!(p.color_code("background"), "#102030");
    assert_eq!(p.color_code("foreground"), "#f0e0d0");
    assert_eq!(p.color_code("color1"), "#010203");
    assert_eq!(p.color_code("color9"), "#000000");
    assert_eq!(p.color_code("cursor"), "#000000");
    assert_eq!(p.get_rgb("background"), [0x10, 0x20, 0x30]);
    assert_eq!(p.get_rgb("color4"), [0x0a, 0x0b, 0x0c]);
    assert_eq!(p.get_rgb("nothing"), [0, 0, 0]);
}

#[test]
fn fallback_scheme() {
    let p = PywalColors::fallback();
    assert_eq!(p.special.background, "#1a1a1a");
    assert_eq!(p.special.foreground, "#ffffff");
    assert_eq!(p.special.cursor, "#ffffff");
    assert!(p.colors.get("color1").is_none());
    assert_eq!(p.get_rgb("background"), [0x1a, 0x1a, 0x1a]);
}

fn expected_script(config: &str, v: [u32; 8]) -> String {
    format!(
        r#"
        (function() {{
            window.vaporConfig = {};
            window.vaporColors = {{
                background: {},
                color1: {},
                color2: {},
                color3: {},
                color4: {},
                color5: {},
                color6: {},
                color7: {}
            }};

            const event = new CustomEvent('vaporwall:update', {{
                detail: {{
                    config: window.vaporConfig,
                    colors: window.vaporColors
                }}
            }});
            window.dispatchEvent(event);
        }})();
        "#,
        config, v[0], v[1], v[2], v[3], v[4], v[5], v[6], v[7]
    )
}

#[test]
fn state_script_with_defaults() {
    let s = state_script("{\"a\":1}", &PywalColors::fallback());
    assert_eq!(
        s,
        expected_script(
            "{\"a\":1}",
            [0x1a1a1a, 0xff00ff, 0x00ffff, 0x00ff00, 0xffffff, 0xff00ff, 0xffff00, 0xff0000]
        )
    );
}

#[test]
fn state_script_with_palette() {
    let s = state_script("{}", &scheme());
    assert_eq!(
        s,
        expected_script("{}", [0x102030, 0x010203, 0x00ffff, 0x00ff00, 0x0a0b0c, 0xff00ff, 0xffff00, 0xff0000])
    );
}

fn floats() -> FloatTexts {
    FloatTexts {
        resolution_scale: "0.5".to_string(),
        detail_level: "0.5".to_string(),
        speed_multiplier: "0.5".to_string(),
    }
}

#[test]
fn default_settings() {
    let s = VaporSettings::default();
    assert_eq!(s.core.current_wall, "example.html");
    assert_eq!(s.monitor.mode, "span");
    assert_eq!(s.monitor.displays, "all");
    assert_eq!(s.monitor.center_display, "auto");
    assert_eq!(s.performance.fps_limit, 30);
    assert!(!s.performance.enable_shadows);
    assert!(!s.performance.enable_antialiasing);
    assert!(s.colors.use_pywal);
}

#[test]
fn default_file_text() {
    let bytes = VaporSettings::default().to_file_bytes(&floats());
    assert_eq!(
        String::from_utf8(bytes).unwrap(),
        "[core]\ncurrent_wall=example.html\n\n[monitor]\nmode=span\ndisplays=all\ncenter_display=auto\n\n\
[performance]\nfps_limit=30\nresolution_scale=0.5\nenable_shadows=false\nenable_antialiasing=false\ndetail_level=0.5\n\n\
[colors]\nuse_pywal=true\n\n[wall_specific]\nspeed_multiplier=0.5\n"
    );
}

#[test]
fn reading_a_file() {
    let text = "[core]\ncurrent_wall=rain.html\n[monitor]\nmode=duplicate\ndisplays=DP-1\n\
[performance]\nfps_limit=60\nenable_shadows=true\nenable_antialiasing=yes\nresolution_scale=0.75\n\
[colors]\nuse_pywal=false\n[wall_specific]\nspeed_multiplier=2\n";
    let l = VaporSettings::from_file_bytes(text.as_bytes());
    assert_eq!(l.settings.core.current_wall, "rain.html");
    assert_eq!(l.settings.monitor.mode, "duplicate");
    assert_eq!(l.settings.monitor.displays, "DP-1");
    assert_eq!(l.settings.monitor.center_display, "auto");
    assert_eq!(l.settings.performance.fps_limit, 60);
    assert!(l.settings.performance.enable_shadows);
    assert!(!l.settings.performance.enable_antialiasing);
    assert!(!l.settings.colors.use_pywal);
    assert_eq!(l.floats.resolution_scale.as_deref(), Some("0.75"));
    assert_eq!(l.floats.detail_level, None);
    assert_eq!(l.floats.speed_multiplier.as_deref(), Some("2"));
}

#[test]
fn reading_bad_values_keeps_defaults() {
    let text = "[performance]\nfps_limit=fast\nenable_shadows=1\n";
    let l = VaporSettings::from_file_bytes(text.as_bytes());
    assert_eq!(l.settings.performance.fps_limit, 30);
    assert!(!l.settings.performance.enable_shadows);
}

#[test]
fn reading_with_byte_order_mark() {
    let mut bytes = vec![0xef, 0xbb, 0xbf];
    bytes.extend_from_slice(b"[core]\ncurrent_wall=bom.html\n");
    let l = VaporSettings::from_file_bytes(&bytes);
    assert_eq!(l.settings.core.current_wall, "bom.html");
}

#[test]
fn reading_invalid_text_gives_defaults() {
    let l = VaporSettings::from_file_bytes(&[0x5b, 0xff, 0xfe, 0x5d]);
    assert_eq!(l.settings.core.current_wall, "example.html");
    assert!(l.floats.resolution_scale.is_none());
    let l = VaporSettings::from_file_bytes(b"");
    assert_eq!(l.settings.performance.fps_limit, 30);
}

#[test]
fn written_settings_read_back() {
    let mut s = VaporSettings::default();
    s.core.current_wall = "waves.html".to_string();
    s.monitor.mode = "duplicate".to_string();
    s.monitor.displays = "DP-1,HDMI-1".to_string();
    s.monitor.center_display = "DP-1".to_string();
    s.performance.fps_limit = 144;
    s.performance.enable_shadows = true;
    s.colors.use_pywal = false;
    let f = FloatTexts {
        resolution_scale: "1".to_string(),
        detail_level: "0.25".to_string(),
        speed_multiplier: "3.5".to_string(),
    };
    let l = VaporSettings::from_file_bytes(&s.to_file_bytes(&f));
    assert_eq!(l.settings.core.current_wall, "waves.html");
    assert_eq!(l.settings.monitor.mode, "duplicate");
    assert_eq!(l.settings.monitor.displays, "DP-1,HDMI-1");
    assert_eq!(l.settings.monitor.center_display, "DP-1");
    assert_eq!(l.settings.performance.fps_limit, 144);
    assert!(l.settings.performance.enable_shadows);
    assert!(!l.settings.performance.enable_antialiasing);
    assert!(!l.settings.colors.use_pywal);
    assert_eq!(l.floats.resolution_scale.as_deref(), Some("1"));
    assert_eq!(l.floats.detail_level.as_deref(), Some("0.25"));
    assert_eq!(l.floats.speed_multiplier.as_deref(), Some("3.5"));
}

#[test]
fn startup_plans() {
    let p = plan_startup(false, false, false);
    assert!(p.create_config_dir && p.create_walls_dir && p.write_defaults);
    let p = plan_startup(true, true, true);
    assert!(!p.create_config_dir && !p.create_walls_dir && !p.write_defaults);
    let p = plan_startup(true, false, true);
    assert!(!p.create_config_dir && p.create_walls_dir && !p.write_defaults);
}

#[test]
fn second_start_reads_the_written_defaults() {
    let f = FloatTexts {
        resolution_scale: "1".to_string(),
        detail_level: "1".to_string(),
        speed_multiplier: "1".to_string(),
    };
    let first = plan_startup(false, false, false);
    assert!(first.write_defaults);
    let written = VaporSettings::default().to_file_bytes(&f);
    let second = plan_startup(true, true, true);
    assert!(!second.create_config_dir && !second.create_walls_dir && !second.write_defaults);
    let l = VaporSettings::from_file_bytes(&written);
    let d = VaporSettings::default();
    assert_eq!(l.settings.core.current_wall, d.core.current_wall);
    assert_eq!(l.settings.monitor.mode, d.monitor.mode);
    assert_eq!(l.settings.monitor.displays, d.monitor.displays);
    assert_eq!(l.settings.monitor.center_display, d.monitor.center_display);
    assert_eq!(l.settings.performance.fps_limit, d.performance.fps_limit);
    assert_eq!(l.settings.performance.enable_shadows, d.performance.enable_shadows);
    assert_eq!(l.settings.performance.enable_antialiasing, d.performance.enable_antialiasing);
    assert_eq!(l.settings.colors.use_pywal, d.colors.use_pywal);
    assert_eq!(l.floats.resolution_scale.as_deref(), Some("1"));
    assert_eq!(l.floats.detail_level.as_deref(), Some("1"));
    assert_eq!(l.floats.speed_multiplier.as_deref(), Some("1"));
}

#[test]
fn values_that_are_not_plain_change_on_reading() {
    let mut s = VaporSettings::default();
    s.core.current_wall = " spaced.html ".to_string();
    s.monitor.mode = "\"span\"".to_string();
    let l = VaporSettings::from_file_bytes(&s.to_file_bytes(&floats()));
    assert_eq!(l.settings.core.current_wall, "spaced.html");
    assert_eq!(l.settings.monitor.mode, "span");
}

#[test]
fn written_sections_keep_their_order() {
    let mut s = VaporSettings::default();
    s.performance.fps_limit = 7;
    let text = String::from_utf8(s.to_file_bytes(&floats())).unwrap();
    let core = text.find("[core]").unwrap();
    let monitor = text.find("[monitor]").unwrap();
    let performance = text.find("[performance]").unwrap();
    let colors = text.find("[colors]").unwrap();
    let wall = text.find("[wall_specific]").unwrap();
    assert!(core < monitor && monitor < performance && performance < colors && colors < wall);
    assert!(text.contains("[performance]\nfps_limit=7\nresolution_scale=0.5\n"));
}

#[test]
fn start_without_file_writes_defaults_and_second_start_reads_them() {
    let first = start_settings(None, &floats());
    let written = first.write.expect("a first start writes the settings file");
    assert_eq!(first.loaded.settings.core.current_wall, "example.html");
    assert_eq!(first.loaded.floats.detail_level.as_deref(), Some("0.5"));
    let second = start_settings(Some(&written), &floats());
    assert!(second.write.is_none());
    let (a, b) = (&first.loaded, &second.loaded);
    assert_eq!(a.settings.core.current_wall, b.settings.core.current_wall);
    assert_eq!(a.settings.monitor.mode, b.settings.monitor.mode);
    assert_eq!(a.settings.monitor.displays, b.settings.monitor.displays);
    assert_eq!(a.settings.monitor.center_display, b.settings.monitor.center_display);
    assert_eq!(a.settings.performance.fps_limit, b.settings.performance.fps_limit);
    assert_eq!(a.settings.performance.enable_shadows, b.settings.performance.enable_shadows);
    assert_eq!(a.settings.performance.enable_antialiasing, b.settings.performance.enable_antialiasing);
    assert_eq!(a.settings.colors.use_pywal, b.settings.colors.use_pywal);
    assert_eq!(a.floats.resolution_scale, b.floats.resolution_scale);
    assert_eq!(a.floats.detail_level, b.floats.detail_level);
    assert_eq!(a.floats.speed_multiplier, b.floats.speed_multiplier);
}

#[test]
fn start_with_file_reads_it() {
    let text = "[core]\ncurrent_wall=rain.html\n";
    let start = start_settings(Some(text.as_bytes()), &floats());
    assert!(start.write.is_none());
    assert_eq!(start.loaded.settings.core.current_wall, "rain.html");
    assert_eq!(start.loaded.floats.detail_level, None);
}

#[test]
fn escaped_values_read_back() {
    let mut s = VaporSettings::default();
    s.core.current_wall = "C:\\walls\\a;b#c=d.html".to_string();
    s.monitor.displays = "DP-1\tHDMI-1\u{1}\u{7f}\r\nx".to_string();
    let text = s.to_file_bytes(&floats());
    let l = VaporSettings::from_file_bytes(&text);
    assert_eq!(l.settings.core.current_wall, "C:\\walls\\a;b#c=d.html");
    assert_eq!(l.settings.monitor.displays, "DP-1\tHDMI-1\u{1}\u{7f}\r\nx");
}

#[test]
fn form_feed_and_vertical_tab_do_not_read_back() {
    let mut s = VaporSettings::default();
    s.core.current_wall = "a\u{c}b\u{b}c".to_string();
    let l = VaporSettings::from_file_bytes(&s.to_file_bytes(&floats()));
    assert_eq!(l.settings.core.current_wall, "afbvc");
}
