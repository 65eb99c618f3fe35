//! The engine's settings file: defaults, reading it and writing it.
//!
//! Three settings of the file are fractional numbers (`resolution_scale`,
//! `detail_level` and `speed_multiplier`). This library hands their text over as it
//! stands in the file and takes their text back for writing; everything else is read
//! and written here.

use crate::ini_doc::{
    plain_key, plain_name, plain_entries, doc_lookup, empty_document, ini_document, ini_get, ini_new, ini_parse, ini_read, ini_set,
    ini_text, ini_write, lemma_ascii_word_plain, lemma_lookup_at, lemma_set_in_last_section,
    lemma_set_new_section, plain_value, writable, ascii_word, IniDocument,
};
use crate::numbers::{decimal_u32, parse_radix};
use crate::text::{decimal, lemma_decimal_digits, lemma_decimal_round_trip, str_equal, u32_to_decimal};
use ini::Ini;
use vstd::prelude::*;
use vstd::string::StringSliceAdditionalSpecFns;

verus! {

/// Which wallpaper page is shown.
pub struct CoreConfig {
    pub current_wall: String,
}

/// Which monitors are covered and how.
pub struct MonitorConfig {
    pub mode: String,
    pub displays: String,
    pub center_display: String,
}

/// Whether the pywal colour scheme is used.
pub struct ColorsConfig {
    pub use_pywal: bool,
}

/// The whole-number and on/off performance settings.
pub struct PerformanceSwitches {
    pub fps_limit: u32,
    pub enable_shadows: bool,
    pub enable_antialiasing: bool,
}

/// Every setting of the file but the three fractional ones.
pub struct VaporSettings {
    pub core: CoreConfig,
    pub monitor: MonitorConfig,
    pub performance: PerformanceSwitches,
    pub colors: ColorsConfig,
}

/// The settings as values.
pub struct SettingsView {
    pub current_wall: Seq<char>,
    pub mode: Seq<char>,
    pub displays: Seq<char>,
    pub center_display: Seq<char>,
    pub fps_limit: u32,
    pub enable_shadows: bool,
    pub enable_antialiasing: bool,
    pub use_pywal: bool,
}

impl View for VaporSettings {
    type V = SettingsView;

    open spec fn view(&self) -> SettingsView {
        SettingsView {
            current_wall: self.core.current_wall@,
            mode: self.monitor.mode@,
            displays: self.monitor.displays@,
            center_display: self.monitor.center_display@,
            fps_limit: self.performance.fps_limit,
            enable_shadows: self.performance.enable_shadows,
            enable_antialiasing: self.performance.enable_antialiasing,
            use_pywal: self.colors.use_pywal,
        }
    }
}

/// The text of the three fractional settings, where the file holds them.
pub struct FloatEntries {
    pub resolution_scale: Option<String>,
    pub detail_level: Option<String>,
    pub speed_multiplier: Option<String>,
}

/// The text of the three fractional settings, for writing.
pub struct FloatTexts {
    pub resolution_scale: String,
    pub detail_level: String,
    pub speed_multiplier: String,
}

/// What reading a settings file gives.
pub struct LoadedSettings {
    pub settings: VaporSettings,
    pub floats: FloatEntries,
}

/// The settings of a fresh installation.
pub open spec fn default_settings() -> SettingsView {
    SettingsView {
        current_wall: "example.html"@,
        mode: "span"@,
        displays: "all"@,
        center_display: "auto"@,
        fps_limit: 30,
        enable_shadows: false,
        enable_antialiasing: false,
        use_pywal: true,
    }
}

pub open spec fn opt_string_view(v: Option<String>) -> Option<Seq<char>> {
    match v {
        Some(s) => Some(s@),
        None => None,
    }
}

/// A text setting: the file's text where it has one.
pub open spec fn text_setting(v: Option<Seq<char>>, current: Seq<char>) -> Seq<char> {
    match v {
        Some(t) => t,
        None => current,
    }
}

/// A whole-number setting: the file's text where it reads as a decimal `u32`.
pub open spec fn u32_setting(v: Option<Seq<char>>, current: u32) -> u32 {
    match v {
        Some(t) => match decimal_u32(vstd::utf8::encode_utf8(t)) {
            Some(n) => n,
            None => current,
        },
        None => current,
    }
}

/// What `bool` parsing makes of a text: only `true` and `false` are read.
pub open spec fn bool_from_text(t: Seq<char>) -> Option<bool> {
    if t == "true"@ {
        Some(true)
    } else if t == "false"@ {
        Some(false)
    } else {
        None
    }
}

/// An on/off setting: the file's text where it reads as a `bool`.
pub open spec fn bool_setting(v: Option<Seq<char>>, current: bool) -> bool {
    match v {
        Some(t) => match bool_from_text(t) {
            Some(b) => b,
            None => current,
        },
        None => current,
    }
}

/// The settings that the document `doc` gives, starting from the defaults.
pub open spec fn settings_from_document(doc: IniDocument) -> SettingsView {
    let d = default_settings();
    SettingsView {
        current_wall: text_setting(doc_lookup(doc, "core"@, "current_wall"@), d.current_wall),
        mode: text_setting(doc_lookup(doc, "monitor"@, "mode"@), d.mode),
        displays: text_setting(doc_lookup(doc, "monitor"@, "displays"@), d.displays),
        center_display: text_setting(
            doc_lookup(doc, "monitor"@, "center_display"@),
            d.center_display,
        ),
        fps_limit: u32_setting(doc_lookup(doc, "performance"@, "fps_limit"@), d.fps_limit),
        enable_shadows: bool_setting(
            doc_lookup(doc, "performance"@, "enable_shadows"@),
            d.enable_shadows,
        ),
        enable_antialiasing: bool_setting(
            doc_lookup(doc, "performance"@, "enable_antialiasing"@),
            d.enable_antialiasing,
        ),
        use_pywal: bool_setting(doc_lookup(doc, "colors"@, "use_pywal"@), d.use_pywal),
    }
}

/// The text of the fractional settings `resolution_scale`, `detail_level` and
/// `speed_multiplier` that the document `doc` holds.
pub open spec fn floats_from_document(doc: IniDocument) -> (
    Option<Seq<char>>,
    Option<Seq<char>>,
    Option<Seq<char>>,
) {
    (
        doc_lookup(doc, "performance"@, "resolution_scale"@),
        doc_lookup(doc, "performance"@, "detail_level"@),
        doc_lookup(doc, "wall_specific"@, "speed_multiplier"@),
    )
}

/// Each setting read from a document is the document's value for its key where the
/// document holds the key and the value reads as the setting's kind: any text for the
/// text settings, a decimal `u32` for `fps_limit`, and exactly `true` or `false` for the
/// on/off settings. Where the key is missing or its value does not read, the setting
/// keeps its default: `example.html`, `span`, `all`, `auto`, 30, off, off and on.
pub proof fn lemma_settings_from_keys(doc: IniDocument)
    ensures
        ({
            let r = settings_from_document(doc);
            let wall = doc_lookup(doc, "core"@, "current_wall"@);
            let mode = doc_lookup(doc, "monitor"@, "mode"@);
            let displays = doc_lookup(doc, "monitor"@, "displays"@);
            let center = doc_lookup(doc, "monitor"@, "center_display"@);
            &&& r.current_wall == (if wall is Some { wall->0 } else { "example.html"@ })
            &&& r.mode == (if mode is Some { mode->0 } else { "span"@ })
            &&& r.displays == (if displays is Some { displays->0 } else { "all"@ })
            &&& r.center_display == (if center is Some { center->0 } else { "auto"@ })
        }),
        ({
            let fps = doc_lookup(doc, "performance"@, "fps_limit"@);
            let n = if fps is Some {
                decimal_u32(vstd::utf8::encode_utf8(fps->0))
            } else {
                None
            };
            settings_from_document(doc).fps_limit == (if n is Some { n->0 } else { 30 })
        }),
        ({
            let v = doc_lookup(doc, "performance"@, "enable_shadows"@);
            settings_from_document(doc).enable_shadows == (v == Some("true"@))
        }),
        ({
            let v = doc_lookup(doc, "performance"@, "enable_antialiasing"@);
            settings_from_document(doc).enable_antialiasing == (v == Some("true"@))
        }),
        ({
            let v = doc_lookup(doc, "colors"@, "use_pywal"@);
            settings_from_document(doc).use_pywal == (v != Some("false"@))
        }),
{
    lemma_literals();
}

/// The fractional settings of `f`, as values.
pub open spec fn float_entries_view(f: FloatEntries) -> (
    Option<Seq<char>>,
    Option<Seq<char>>,
    Option<Seq<char>>,
) {
    (
        opt_string_view(f.resolution_scale),
        opt_string_view(f.detail_level),
        opt_string_view(f.speed_multiplier),
    )
}

/// The fractional texts of `f`, each as found.
pub open spec fn float_texts_found(f: FloatTexts) -> (
    Option<Seq<char>>,
    Option<Seq<char>>,
    Option<Seq<char>>,
) {
    (Some(f.resolution_scale@), Some(f.detail_level@), Some(f.speed_multiplier@))
}

/// The text that `bool` formatting writes.
pub open spec fn bool_text(b: bool) -> Seq<char> {
    if b {
        "true"@
    } else {
        "false"@
    }
}

/// The document that is written for `s`, with the fractional settings written as `f`:
/// after the empty general section, `[core]` with `current_wall`; `[monitor]` with
/// `mode`, `displays` and `center_display`; `[performance]` with `fps_limit`,
/// `resolution_scale`, `enable_shadows`, `enable_antialiasing` and `detail_level`;
/// `[colors]` with `use_pywal`; and `[wall_specific]` with `speed_multiplier`.
pub open spec fn settings_document(s: SettingsView, f: FloatTexts) -> IniDocument {
    seq![
        (None, Seq::empty()),
        (Some("core"@), seq![("current_wall"@, s.current_wall)]),
        (
            Some("monitor"@),
            seq![("mode"@, s.mode), ("displays"@, s.displays), ("center_display"@, s.center_display)],
        ),
        (
            Some("performance"@),
            seq![
                ("fps_limit"@, decimal(s.fps_limit as nat)),
                ("resolution_scale"@, f.resolution_scale@),
                ("enable_shadows"@, bool_text(s.enable_shadows)),
                ("enable_antialiasing"@, bool_text(s.enable_antialiasing)),
                ("detail_level"@, f.detail_level@),
            ],
        ),
        (Some("colors"@), seq![("use_pywal"@, bool_text(s.use_pywal))]),
        (Some("wall_specific"@), seq![("speed_multiplier"@, f.speed_multiplier@)]),
    ]
}

/// Whether the fractional texts of `f` are written and read back unchanged.
pub open spec fn float_texts_plain(f: FloatTexts) -> bool {
    plain_value(f.resolution_scale@) && plain_value(f.detail_level@) && plain_value(
        f.speed_multiplier@,
    )
}

/// Whether the settings file for `s` and `f` reads back unchanged: no text setting has
/// white space at either end, starts with a quote, or holds a vertical tab or a form
/// feed.
pub open spec fn settings_plain(s: SettingsView, f: FloatTexts) -> bool {
    &&& plain_value(s.current_wall)
    &&& plain_value(s.mode)
    &&& plain_value(s.displays)
    &&& plain_value(s.center_display)
    &&& float_texts_plain(f)
}

/// The bytes of a settings file without its UTF-8 byte order mark, if it starts with one.
pub open spec fn without_bom(b: Seq<u8>) -> Seq<u8> {
    if b.len() >= 3 && b[0] == 0xef && b[1] == 0xbb && b[2] == 0xbf {
        b.subrange(3, b.len() as int)
    } else {
        b
    }
}

/// The document in the settings file with contents `b`: `None` where the file is not
/// UTF-8 text or not an INI document.
pub open spec fn file_document(b: Seq<u8>) -> Option<IniDocument> {
    let t = without_bom(b);
    if vstd::utf8::valid_utf8(t) {
        ini_parse(vstd::utf8::decode_utf8(t))
    } else {
        None
    }
}

/// The settings that reading the file with contents `b` gives: the defaults where it
/// holds no document.
pub open spec fn settings_of_file(b: Seq<u8>) -> SettingsView {
    match file_document(b) {
        Some(doc) => settings_from_document(doc),
        None => default_settings(),
    }
}

/// The fractional texts that reading the file with contents `b` finds.
pub open spec fn floats_of_file(b: Seq<u8>) -> (
    Option<Seq<char>>,
    Option<Seq<char>>,
    Option<Seq<char>>,
) {
    match file_document(b) {
        Some(doc) => floats_from_document(doc),
        None => (None, None, None),
    }
}

/// A UTF-8 byte order mark at the start of a settings file changes nothing that is read
/// from it.
pub proof fn lemma_byte_order_mark_skipped(b: Seq<u8>)
    requires
        !(b.len() >= 3 && b[0] == 0xef && b[1] == 0xbb && b[2] == 0xbf),
    ensures
        settings_of_file(seq![0xefu8, 0xbbu8, 0xbfu8] + b) == settings_of_file(b),
        floats_of_file(seq![0xefu8, 0xbbu8, 0xbfu8] + b) == floats_of_file(b),
{
    let m = seq![0xefu8, 0xbbu8, 0xbfu8] + b;
    assert(m.subrange(3, m.len() as int) =~= b);
}

/// Reading back the document written for settings `s`, with the fractional settings
/// written as `f`, gives `s` again, and the fractional settings as the texts of `f`.
pub proof fn lemma_settings_read_back(s: SettingsView, f: FloatTexts)
    ensures
        settings_from_document(settings_document(s, f)) == s,
        floats_from_document(settings_document(s, f)) == float_texts_found(f),
{
    let d = settings_document(s, f);
    lemma_literals();
    lemma_decimal_round_trip(s.fps_limit);
    lemma_lookup_at(d, "core"@, 1, "current_wall"@, 0);
    lemma_lookup_at(d, "monitor"@, 2, "mode"@, 0);
    lemma_lookup_at(d, "monitor"@, 2, "displays"@, 1);
    lemma_lookup_at(d, "monitor"@, 2, "center_display"@, 2);
    lemma_lookup_at(d, "performance"@, 3, "fps_limit"@, 0);
    lemma_lookup_at(d, "performance"@, 3, "resolution_scale"@, 1);
    lemma_lookup_at(d, "performance"@, 3, "enable_shadows"@, 2);
    lemma_lookup_at(d, "performance"@, 3, "enable_antialiasing"@, 3);
    lemma_lookup_at(d, "performance"@, 3, "detail_level"@, 4);
    lemma_lookup_at(d, "colors"@, 4, "use_pywal"@, 0);
    lemma_lookup_at(d, "wall_specific"@, 5, "speed_multiplier"@, 0);
    assert(bool_from_text(bool_text(s.enable_shadows)) == Some(s.enable_shadows));
    assert(bool_from_text(bool_text(s.enable_antialiasing)) == Some(s.enable_antialiasing));
    assert(bool_from_text(bool_text(s.use_pywal)) == Some(s.use_pywal));
    assert(settings_from_document(d) =~= s);
}

/// The literals of the settings file: their lengths tell them apart, and each is a word
/// of lower-case letters, `_` and `.`.
proof fn lemma_literals()
    ensures
        "core"@.len() == 4,
        "monitor"@.len() == 7,
        "performance"@.len() == 11,
        "colors"@.len() == 6,
        "wall_specific"@.len() == 13,
        "current_wall"@.len() == 12,
        "mode"@.len() == 4,
        "displays"@.len() == 8,
        "center_display"@.len() == 14,
        "fps_limit"@.len() == 9,
        "resolution_scale"@.len() == 16,
        "enable_shadows"@.len() == 14,
        "enable_antialiasing"@.len() == 19,
        "detail_level"@.len() == 12,
        "use_pywal"@.len() == 9,
        "speed_multiplier"@.len() == 16,
        "true"@.len() == 4,
        "false"@.len() == 5,
        "true"@ != "false"@,
{
    reveal_strlit("core");
    reveal_strlit("monitor");
    reveal_strlit("performance");
    reveal_strlit("colors");
    reveal_strlit("wall_specific");
    reveal_strlit("current_wall");
    reveal_strlit("mode");
    reveal_strlit("displays");
    reveal_strlit("center_display");
    reveal_strlit("fps_limit");
    reveal_strlit("resolution_scale");
    reveal_strlit("enable_shadows");
    reveal_strlit("enable_antialiasing");
    reveal_strlit("detail_level");
    reveal_strlit("use_pywal");
    reveal_strlit("speed_multiplier");
    reveal_strlit("true");
    reveal_strlit("false");
}

/// Reads a decimal `u32` from a text, as `str::parse` does.
pub fn parse_u32(text: &str) -> (r: Option<u32>)
    ensures
        r == decimal_u32(text.spec_bytes()),
{
    let b = text.as_bytes();
    assert(b@.subrange(0, b@.len() as int) =~= b@);
    match parse_radix(b, 0, b.len(), 10, u32::MAX) {
        Some(v) => Some(v),
        None => None,
    }
}

/// Reads a `bool` from a text, as `str::parse` does.
pub fn parse_bool(text: &str) -> (r: Option<bool>)
    ensures
        r == bool_from_text(text@),
{
    if str_equal(text, "true") {
        Some(true)
    } else if str_equal(text, "false") {
        Some(false)
    } else {
        None
    }
}

/// Writes a `bool` as `true` or `false`.
pub fn format_bool(b: bool) -> (r: &'static str)
    ensures
        r@ == bool_text(b),
{
    if b {
        "true"
    } else {
        "false"
    }
}

impl VaporSettings {
    /// The settings of a fresh installation: the `example.html` wallpaper spanning all
    /// monitors with no centre display, 30 frames per second, no shadows, no
    /// antialiasing, and pywal colours.
    pub fn default() -> (r: VaporSettings)
        ensures
            r@ == default_settings(),
    {
        VaporSettings {
            core: CoreConfig { current_wall: "example.html".to_owned() },
            monitor: MonitorConfig {
                mode: "span".to_owned(),
                displays: "all".to_owned(),
                center_display: "auto".to_owned(),
            },
            performance: PerformanceSwitches {
                fps_limit: 30,
                enable_shadows: false,
                enable_antialiasing: false,
            },
            colors: ColorsConfig { use_pywal: true },
        }
    }

    /// The settings that the document `ini` gives: every setting that the document holds
    /// and that reads as a value of its kind replaces the default; the text of the
    /// fractional settings is handed over as the document holds it.
    pub fn from_ini(ini: &Ini) -> (r: LoadedSettings)
        ensures
            r.settings@ == settings_from_document(ini_document(*ini)),
            float_entries_view(r.floats) == floats_from_document(ini_document(*ini)),
    {
        let mut s = VaporSettings::default();
        if let Some(wall) = ini_get(ini, "core", "current_wall") {
            s.core.current_wall = wall;
        }
        if let Some(mode) = ini_get(ini, "monitor", "mode") {
            s.monitor.mode = mode;
        }
        if let Some(displays) = ini_get(ini, "monitor", "displays") {
            s.monitor.displays = displays;
        }
        if let Some(center) = ini_get(ini, "monitor", "center_display") {
            s.monitor.center_display = center;
        }
        if let Some(fps) = ini_get(ini, "performance", "fps_limit") {
            if let Some(n) = parse_u32(fps.as_str()) {
                s.performance.fps_limit = n;
            }
        }
        let resolution_scale = ini_get(ini, "performance", "resolution_scale");
        if let Some(shadows) = ini_get(ini, "performance", "enable_shadows") {
            if let Some(b) = parse_bool(shadows.as_str()) {
                s.performance.enable_shadows = b;
            }
        }
        if let Some(aa) = ini_get(ini, "performance", "enable_antialiasing") {
            if let Some(b) = parse_bool(aa.as_str()) {
                s.performance.enable_antialiasing = b;
            }
        }
        let detail_level = ini_get(ini, "performance", "detail_level");
        if let Some(use_pywal) = ini_get(ini, "colors", "use_pywal") {
            if let Some(b) = parse_bool(use_pywal.as_str()) {
                s.colors.use_pywal = b;
            }
        }
        let speed_multiplier = ini_get(ini, "wall_specific", "speed_multiplier");
        LoadedSettings {
            settings: s,
            floats: FloatEntries { resolution_scale, detail_level, speed_multiplier },
        }
    }

    /// Reads the settings file with contents `bytes`: a leading byte order mark is
    /// skipped; where the rest is not UTF-8 text or not an INI document, the defaults
    /// stand and no fractional setting is found.
    pub fn from_file_bytes(bytes: &[u8]) -> (r: LoadedSettings)
        ensures
            r.settings@ == settings_of_file(bytes@),
            float_entries_view(r.floats) == floats_of_file(bytes@),
    {
        let start: usize = if bytes.len() >= 3 && bytes[0] == 0xef && bytes[1] == 0xbb && bytes[2]
            == 0xbf {
            3
        } else {
            0
        };
        let (_, rest) = bytes.split_at(start);
        assert(rest@ == without_bom(bytes@));
        match ini_read(rest) {
            Some(ini) => VaporSettings::from_ini(&ini),
            None => LoadedSettings {
                settings: VaporSettings::default(),
                floats: FloatEntries {
                    resolution_scale: None,
                    detail_level: None,
                    speed_multiplier: None,
                },
            },
        }
    }

    /// The INI document for these settings, with the fractional settings written as
    /// `floats`: the sections and keys of `settings_document`, in its order, whole
    /// numbers in decimal and on/off settings as `true`/`false`.
    pub fn to_ini(&self, floats: &FloatTexts) -> (r: Ini)
        ensures
            ini_document(r) == settings_document(self@, *floats),
    {
        let ghost s = self@;
        let ghost f = *floats;
        proof {
            lemma_literals();
        }
        let mut ini = ini_new();
        let ghost d0 = empty_document();
        ini_set(&mut ini, "core", "current_wall", self.core.current_wall.as_str());
        proof {
            lemma_set_new_section(d0, "core"@, "current_wall"@, s.current_wall);
        }
        let ghost d1 = d0.push((Some("core"@), seq![("current_wall"@, s.current_wall)]));
        assert(ini_document(ini) == d1);
        ini_set(&mut ini, "monitor", "mode", self.monitor.mode.as_str());
        proof {
            lemma_set_new_section(d1, "monitor"@, "mode"@, s.mode);
        }
        let ghost d2 = d1.push((Some("monitor"@), seq![("mode"@, s.mode)]));
        assert(ini_document(ini) == d2);
        ini_set(&mut ini, "monitor", "displays", self.monitor.displays.as_str());
        proof {
            lemma_set_in_last_section(d2, "monitor"@, "displays"@, s.displays);
        }
        let ghost d3 = d1.push(
            (Some("monitor"@), seq![("mode"@, s.mode), ("displays"@, s.displays)]),
        );
        assert(d2.update(d2.len() - 1, (Some("monitor"@), d2.last().1.push(("displays"@, s.displays)))) =~~= d3);
        assert(ini_document(ini) == d3);
        ini_set(&mut ini, "monitor", "center_display", self.monitor.center_display.as_str());
        proof {
            lemma_set_in_last_section(d3, "monitor"@, "center_display"@, s.center_display);
        }
        let ghost monitor = seq![
            ("mode"@, s.mode),
            ("displays"@, s.displays),
            ("center_display"@, s.center_display),
        ];
        let ghost d4 = d1.push((Some("monitor"@), monitor));
        assert(d3.update(d3.len() - 1, (Some("monitor"@), d3.last().1.push(("center_display"@, s.center_display)))) =~~= d4);
        assert(ini_document(ini) == d4);
        let fps = u32_to_decimal(self.performance.fps_limit);
        ini_set(&mut ini, "performance", "fps_limit", fps.as_str());
        proof {
            lemma_set_new_section(d4, "performance"@, "fps_limit"@, fps@);
        }
        let ghost p1 = seq![("fps_limit"@, fps@)];
        let ghost d5 = d4.push((Some("performance"@), p1));
        assert(ini_document(ini) == d5);
        ini_set(&mut ini, "performance", "resolution_scale", floats.resolution_scale.as_str());
        proof {
            lemma_set_in_last_section(d5, "performance"@, "resolution_scale"@, f.resolution_scale@);
        }
        let ghost p2 = p1.push(("resolution_scale"@, f.resolution_scale@));
        let ghost d6 = d4.push((Some("performance"@), p2));
        assert(d5.update(d5.len() - 1, (Some("performance"@), d5.last().1.push(("resolution_scale"@, f.resolution_scale@)))) =~~= d6);
        assert(ini_document(ini) == d6);
        let shadows = format_bool(self.performance.enable_shadows);
        ini_set(&mut ini, "performance", "enable_shadows", shadows);
        proof {
            lemma_set_in_last_section(d6, "performance"@, "enable_shadows"@, shadows@);
        }
        let ghost p3 = p2.push(("enable_shadows"@, shadows@));
        let ghost d7 = d4.push((Some("performance"@), p3));
        assert(d6.update(d6.len() - 1, (Some("performance"@), d6.last().1.push(("enable_shadows"@, shadows@)))) =~~= d7);
        assert(ini_document(ini) == d7);
        let aa = format_bool(self.performance.enable_antialiasing);
        ini_set(&mut ini, "performance", "enable_antialiasing", aa);
        proof {
            lemma_set_in_last_section(d7, "performance"@, "enable_antialiasing"@, aa@);
        }
        let ghost p4 = p3.push(("enable_antialiasing"@, aa@));
        let ghost d8 = d4.push((Some("performance"@), p4));
        assert(d7.update(d7.len() - 1, (Some("performance"@), d7.last().1.push(("enable_antialiasing"@, aa@)))) =~~= d8);
        assert(ini_document(ini) == d8);
        ini_set(&mut ini, "performance", "detail_level", floats.detail_level.as_str());
        proof {
            lemma_set_in_last_section(d8, "performance"@, "detail_level"@, f.detail_level@);
        }
        let ghost p5 = p4.push(("detail_level"@, f.detail_level@));
        let ghost d9 = d4.push((Some("performance"@), p5));
        assert(d8.update(d8.len() - 1, (Some("performance"@), d8.last().1.push(("detail_level"@, f.detail_level@)))) =~~= d9);
        assert(ini_document(ini) == d9);
        let pywal = format_bool(self.colors.use_pywal);
        ini_set(&mut ini, "colors", "use_pywal", pywal);
        proof {
            lemma_set_new_section(d9, "colors"@, "use_pywal"@, pywal@);
        }
        let ghost d10 = d9.push((Some("colors"@), seq![("use_pywal"@, pywal@)]));
        assert(ini_document(ini) == d10);
        ini_set(&mut ini, "wall_specific", "speed_multiplier", floats.speed_multiplier.as_str());
        proof {
            lemma_set_new_section(d10, "wall_specific"@, "speed_multiplier"@, f.speed_multiplier@);
        }
        assert(d10.push((Some("wall_specific"@), seq![("speed_multiplier"@, f.speed_multiplier@)]))
            =~~= settings_document(s, f));
        ini
    }

    /// The text of the settings file for these settings: what the INI writer produces for
    /// the document of `to_ini`. Where the text settings are plain, reading the text
    /// back gives these settings and the fractional texts of `floats`.
    pub fn to_file_bytes(&self, floats: &FloatTexts) -> (r: Vec<u8>)
        ensures
            r@ == ini_text(settings_document(self@, *floats)),
            settings_plain(self@, *floats) ==> file_document(r@) == Some(
                settings_document(self@, *floats),
            ),
            settings_plain(self@, *floats) ==> settings_of_file(r@) == self@ && floats_of_file(
                r@,
            ) == float_texts_found(*floats),
    {
        let ini = self.to_ini(floats);
        let r = ini_write(&ini);
        proof {
            if settings_plain(self@, *floats) {
                lemma_settings_document_writable(self@, *floats);
                assert(without_bom(r@) == r@);
                lemma_settings_read_back(self@, *floats);
            }
        }
        r
    }
}

/// The document written for plain settings is writable.
proof fn lemma_settings_document_writable(s: SettingsView, f: FloatTexts)
    requires
        settings_plain(s, f),
    ensures
        writable(settings_document(s, f)),
{
    let d = settings_document(s, f);
    lemma_literals();
    lemma_words_plain();
    lemma_decimal_digits(s.fps_limit as nat);
    let fps = decimal(s.fps_limit as nat);
    assert(plain_value(fps));
    assert(plain_value(bool_text(s.enable_shadows)));
    assert(plain_value(bool_text(s.enable_antialiasing)));
    assert(plain_value(bool_text(s.use_pywal)));
    assert forall|i: int| 1 <= i < d.len() implies (#[trigger] d[i]).0 is Some && plain_name(
        d[i].0->0,
    ) && plain_entries(d[i].1) by {
        let e = d[i].1;
        assert forall|j: int| 0 <= j < e.len() implies plain_key(#[trigger] e[j].0)
            && plain_value(e[j].1) by {
            if i == 3 {
                if j == 0 {
                } else if j == 1 {
                } else if j == 2 {
                } else if j == 3 {
                } else {
                }
            } else if i == 2 {
                if j == 0 {
                } else if j == 1 {
                } else {
                }
            }
        }
    }
}

/// The words of the settings file are plain names, keys and values.
proof fn lemma_words_plain()
    ensures
        plain_name("core"@) && plain_name("monitor"@) && plain_name("performance"@) && plain_name(
            "colors"@,
        ) && plain_name("wall_specific"@),
        plain_key("current_wall"@) && plain_key("mode"@) && plain_key("displays"@) && plain_key(
            "center_display"@,
        ),
        plain_key("fps_limit"@) && plain_key("resolution_scale"@) && plain_key("enable_shadows"@)
            && plain_key("enable_antialiasing"@) && plain_key("detail_level"@),
        plain_key("use_pywal"@) && plain_key("speed_multiplier"@),
        plain_value("true"@) && plain_value("false"@),
{
    reveal_strlit("core");
    reveal_strlit("monitor");
    reveal_strlit("performance");
    reveal_strlit("colors");
    reveal_strlit("wall_specific");
    reveal_strlit("current_wall");
    reveal_strlit("mode");
    reveal_strlit("displays");
    reveal_strlit("center_display");
    reveal_strlit("fps_limit");
    reveal_strlit("resolution_scale");
    reveal_strlit("enable_shadows");
    reveal_strlit("enable_antialiasing");
    reveal_strlit("detail_level");
    reveal_strlit("use_pywal");
    reveal_strlit("speed_multiplier");
    reveal_strlit("true");
    reveal_strlit("false");
    reveal_with_fuel(ascii_word, 20);
    lemma_ascii_word_plain("core"@);
    lemma_ascii_word_plain("monitor"@);
    lemma_ascii_word_plain("performance"@);
    lemma_ascii_word_plain("colors"@);
    lemma_ascii_word_plain("wall_specific"@);
    lemma_ascii_word_plain("current_wall"@);
    lemma_ascii_word_plain("mode"@);
    lemma_ascii_word_plain("displays"@);
    lemma_ascii_word_plain("center_display"@);
    lemma_ascii_word_plain("fps_limit"@);
    lemma_ascii_word_plain("resolution_scale"@);
    lemma_ascii_word_plain("enable_shadows"@);
    lemma_ascii_word_plain("enable_antialiasing"@);
    lemma_ascii_word_plain("detail_level"@);
    lemma_ascii_word_plain("use_pywal"@);
    lemma_ascii_word_plain("speed_multiplier"@);
    lemma_ascii_word_plain("true"@);
    lemma_ascii_word_plain("false"@);
}

/// The defaults are plain, so that the settings file written at a first start reads back
/// as the defaults, provided the fractional texts are plain.
pub proof fn lemma_defaults_plain(f: FloatTexts)
    requires
        float_texts_plain(f),
    ensures
        settings_plain(default_settings(), f),
{
    reveal_strlit("example.html");
    reveal_strlit("span");
    reveal_strlit("all");
    reveal_strlit("auto");
    reveal_with_fuel(ascii_word, 13);
    lemma_ascii_word_plain("example.html"@);
    lemma_ascii_word_plain("span"@);
    lemma_ascii_word_plain("all"@);
    lemma_ascii_word_plain("auto"@);
}

/// The settings that a start uses, and the text of the settings file it writes, if any.
pub struct StartSettings {
    pub loaded: LoadedSettings,
    /// The text of a new settings file, where there was none.
    pub write: Option<Vec<u8>>,
}

/// The settings of a start, from the contents of the settings file where there is one.
/// Where it is missing, the defaults are used, with the fractional settings as
/// `default_floats`, and the file for them is to be written; where it exists, its
/// contents are read. A later start that reads the file written here uses the same
/// settings again, provided the fractional texts are plain.
pub fn start_settings(existing: Option<&[u8]>, default_floats: &FloatTexts) -> (r: StartSettings)
    ensures
        match existing {
            Some(b) => {
                &&& r.write is None
                &&& r.loaded.settings@ == settings_of_file(b@)
                &&& float_entries_view(r.loaded.floats) == floats_of_file(b@)
            },
            None => {
                &&& r.loaded.settings@ == default_settings()
                &&& float_entries_view(r.loaded.floats) == float_texts_found(*default_floats)
                &&& r.write matches Some(w) && w@ == ini_text(
                    settings_document(default_settings(), *default_floats),
                )
            },
        },
        existing is None && float_texts_plain(*default_floats) ==> (r.write matches Some(w)
            && settings_of_file(w@) == r.loaded.settings@ && floats_of_file(w@)
            == float_entries_view(r.loaded.floats)),
{
    match existing {
        Some(b) => StartSettings { loaded: VaporSettings::from_file_bytes(b), write: None },
        None => {
            let settings = VaporSettings::default();
            let w = settings.to_file_bytes(default_floats);
            proof {
                if float_texts_plain(*default_floats) {
                    lemma_defaults_plain(*default_floats);
                }
            }
            let floats = FloatEntries {
                resolution_scale: Some(default_floats.resolution_scale.clone()),
                detail_level: Some(default_floats.detail_level.clone()),
                speed_multiplier: Some(default_floats.speed_multiplier.clone()),
            };
            StartSettings { loaded: LoadedSettings { settings, floats }, write: Some(w) }
        },
    }
}

/// What to do before the settings can be read, from what exists on disk.
pub struct StartupPlan {
    /// Create the configuration directory.
    pub create_config_dir: bool,
    /// Create the wallpaper directory.
    pub create_walls_dir: bool,
    /// Write the default settings to a new settings file and use them; otherwise read
    /// the settings file.
    pub write_defaults: bool,
}

/// Missing directories are created, and a missing settings file is written with the
/// defaults, which are then used as they are; an existing file is read.
pub fn plan_startup(config_dir_exists: bool, walls_dir_exists: bool, config_file_exists: bool) -> (r:
    StartupPlan)
    ensures
        r.create_config_dir == !config_dir_exists,
        r.create_walls_dir == !walls_dir_exists,
        r.write_defaults == !config_file_exists,
{
    StartupPlan {
        create_config_dir: !config_dir_exists,
        create_walls_dir: !walls_dir_exists,
        write_defaults: !config_file_exists,
    }
}

} // verus!
