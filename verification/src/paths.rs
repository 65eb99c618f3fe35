//! Where the engine keeps its files, computed from the home directory.
//!
//! Paths are joined the way a Unix path buffer pushes a component: an absolute
//! component replaces the path, and a `/` is put between the two parts unless the
//! first is empty or already ends in one.

use vstd::prelude::*;
use vstd::string::StrSliceExecFns;
use vstd::string::StringExecFns;

verus! {

/// `base` with `part` pushed onto it.
pub open spec fn spec_path_push(base: Seq<char>, part: Seq<char>) -> Seq<char> {
    if part.len() > 0 && part[0] == '/' {
        part
    } else if base.len() > 0 && base.last() != '/' {
        base + seq!['/'] + part
    } else {
        base + part
    }
}

/// The directory used where no home directory is known.
pub open spec fn fallback_home() -> Seq<char> {
    seq!['/']
}

pub open spec fn spec_home(home: Option<Seq<char>>) -> Seq<char> {
    match home {
        Some(h) => h,
        None => fallback_home(),
    }
}

pub open spec fn spec_config_dir(home: Option<Seq<char>>) -> Seq<char> {
    spec_path_push(spec_path_push(spec_home(home), ".config"@), "vaporwall"@)
}

pub open spec fn spec_walls_dir(home: Option<Seq<char>>) -> Seq<char> {
    spec_path_push(spec_config_dir(home), "walls"@)
}

pub open spec fn spec_config_file_path(home: Option<Seq<char>>) -> Seq<char> {
    spec_path_push(spec_config_dir(home), "vapor.conf"@)
}

pub open spec fn spec_wall_uri(home: Option<Seq<char>>, wall: Seq<char>) -> Seq<char> {
    "file://"@ + spec_path_push(spec_walls_dir(home), wall)
}

pub open spec fn opt_view(s: Option<&str>) -> Option<Seq<char>> {
    match s {
        Some(x) => Some(x@),
        None => None,
    }
}

/// The wallpaper directory and the settings file both lie directly in the configuration
/// directory.
pub proof fn lemma_files_in_config_dir(home: Option<Seq<char>>)
    ensures
        spec_walls_dir(home) == spec_config_dir(home) + "/walls"@,
        spec_config_file_path(home) == spec_config_dir(home) + "/vapor.conf"@,
{
    reveal_strlit("vaporwall");
    reveal_strlit("walls");
    reveal_strlit("vapor.conf");
    reveal_strlit("/walls");
    reveal_strlit("/vapor.conf");
    let d = spec_config_dir(home);
    let c = spec_path_push(spec_home(home), ".config"@);
    assert(d == c + seq!['/'] + "vaporwall"@ || d == c + "vaporwall"@);
    assert(d.last() == 'l');
    assert(d + seq!['/'] + "walls"@ =~= d + "/walls"@);
    assert(d + seq!['/'] + "vapor.conf"@ =~= d + "/vapor.conf"@);
}

/// A wallpaper given by a relative name is loaded from the wallpaper directory.
pub proof fn lemma_relative_wall_in_walls_dir(home: Option<Seq<char>>, wall: Seq<char>)
    requires
        !(wall.len() > 0 && wall[0] == '/'),
    ensures
        spec_wall_uri(home, wall) == "file://"@ + spec_walls_dir(home) + seq!['/'] + wall,
{
    reveal_strlit("walls");
    let w = spec_walls_dir(home);
    let d = spec_config_dir(home);
    assert(w == d + seq!['/'] + "walls"@ || w == d + "walls"@);
    assert(w.last() == 's');
    assert("file://"@ + (w + seq!['/'] + wall) =~= "file://"@ + w + seq!['/'] + wall);
}

/// Pushes `part` onto `base`, as a path.
pub fn path_push(base: &str, part: &str) -> (r: String)
    ensures
        r@ == spec_path_push(base@, part@),
{
    let plen = part.unicode_len();
    if plen > 0 && part.get_char(0) == '/' {
        return part.to_owned();
    }
    let blen = base.unicode_len();
    let mut r = base.to_owned();
    if blen > 0 && base.get_char(blen - 1) != '/' {
        proof {
            reveal_strlit("/");
        }
        r.append("/");
    }
    r.append(part);
    r
}

/// The configuration directory: `.config/vaporwall` under the home directory, or under
/// `/` where no home directory is known.
pub fn config_dir(home: Option<&str>) -> (r: String)
    ensures
        r@ == spec_config_dir(opt_view(home)),
{
    let h: &str = match home {
        Some(h) => h,
        None => "/",
    };
    proof {
        reveal_strlit("/");
    }
    let c = path_push(h, ".config");
    path_push(c.as_str(), "vaporwall")
}

/// The directory that holds the wallpapers: `walls` in the configuration directory.
pub fn walls_dir(home: Option<&str>) -> (r: String)
    ensures
        r@ == spec_walls_dir(opt_view(home)),
{
    let d = config_dir(home);
    path_push(d.as_str(), "walls")
}

/// The settings file: `vapor.conf` in the configuration directory.
pub fn config_file_path(home: Option<&str>) -> (r: String)
    ensures
        r@ == spec_config_file_path(opt_view(home)),
{
    let d = config_dir(home);
    path_push(d.as_str(), "vapor.conf")
}

/// The `file://` address of the wallpaper page `wall` in the wallpaper directory.
pub fn wall_uri(home: Option<&str>, wall: &str) -> (r: String)
    ensures
        r@ == spec_wall_uri(opt_view(home), wall@),
{
    let d = walls_dir(home);
    let p = path_push(d.as_str(), wall);
    let mut r = "file://".to_owned();
    r.append(p.as_str());
    r
}

/// The file in which pywal leaves its colour scheme: `.cache/wal/colors.json` under
/// the home directory.
pub fn pywal_colors_path(home: &str) -> (r: String)
    ensures
        r@ == spec_path_push(home@, ".cache/wal/colors.json"@),
{
    path_push(home, ".cache/wal/colors.json")
}

} // verus!
