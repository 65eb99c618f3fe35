//! Decisions the running engine takes about its windows and its watched files.

use crate::text::{chars_of, str_equal};
use vstd::prelude::*;
use vstd::string::StringExecFns;

verus! {

/// The layer-shell namespace of the window on the monitor with connector `connector`.
pub open spec fn namespace_text(connector: Option<Seq<char>>) -> Seq<char> {
    "vaporwall-"@ + match connector {
        Some(c) => c,
        None => "unknown"@,
    }
}

/// The layer-shell namespace of a wallpaper window: `vaporwall-` and the monitor's
/// connector name, or `vaporwall-unknown` for a monitor without one.
pub fn layer_namespace(connector: Option<&str>) -> (r: String)
    ensures
        r@ == namespace_text(
            match connector {
                Some(c) => Some(c@),
                None => None,
            },
        ),
{
    let mut r = "vaporwall-".to_owned();
    match connector {
        Some(c) => r.append(c),
        None => r.append("unknown"),
    }
    r
}

/// What a wallpaper window does when the settings are read again.
pub enum Refresh {
    /// Load the page of the newly chosen wallpaper.
    LoadWall,
    /// Keep the page and hand it the new settings.
    InjectState,
}

/// A window loads the new wallpaper where the chosen wallpaper changed, and otherwise
/// hands the new settings to the page it shows.
pub fn refresh_after_reload(old_wall: &str, new_wall: &str) -> (r: Refresh)
    ensures
        r is LoadWall <==> old_wall@ != new_wall@,
        r is InjectState <==> old_wall@ == new_wall@,
{
    if str_equal(old_wall, new_wall) {
        Refresh::InjectState
    } else {
        Refresh::LoadWall
    }
}

/// Closes the path component `cur`: a component that is not empty and not `.` becomes
/// the last one seen.
pub open spec fn close_component(last: Option<Seq<char>>, cur: Seq<char>) -> Option<Seq<char>> {
    if cur.len() > 0 && cur != "."@ {
        Some(cur)
    } else {
        last
    }
}

/// The last component of `p` seen so far and the text after the last `/`.
pub open spec fn scan_components(p: Seq<char>) -> (Option<Seq<char>>, Seq<char>)
    decreases p.len(),
{
    if p.len() == 0 {
        (None, Seq::empty())
    } else {
        let prev = scan_components(p.drop_last());
        if p.last() == '/' {
            (close_component(prev.0, prev.1), Seq::empty())
        } else {
            (prev.0, prev.1.push(p.last()))
        }
    }
}

/// The last named component of the path `p`: empty components and `.` do not count.
pub open spec fn last_component(p: Seq<char>) -> Option<Seq<char>> {
    let parts = scan_components(p);
    close_component(parts.0, parts.1)
}

proof fn lemma_scan_tail(p: Seq<char>, name: Seq<char>)
    requires
        forall|i: int| 0 <= i < name.len() ==> (#[trigger] name[i]) != '/',
    ensures
        scan_components(p + seq!['/'] + name).1 == name,
        scan_components(p + seq!['/'] + name).0 == close_component(
            scan_components(p).0,
            scan_components(p).1,
        ),
    decreases name.len(),
{
    let q = p + seq!['/'];
    if name.len() == 0 {
        assert(q + name =~= q);
        assert(q.drop_last() =~= p);
    } else {
        let shorter = name.drop_last();
        assert forall|i: int| 0 <= i < shorter.len() implies (#[trigger] shorter[i]) != '/' by {
            assert(shorter[i] == name[i]);
        }
        lemma_scan_tail(p, shorter);
        assert((q + name).drop_last() =~= q + shorter);
        assert((q + name).last() == name.last());
        assert(shorter.push(name.last()) =~= name);
    }
}

/// The last component of a path that ends in `/` and a name is that name, whatever
/// comes before, where the name holds no `/` and is neither empty nor `.`; a `/` after
/// it changes nothing.
pub proof fn lemma_last_component_of_name(dir: Seq<char>, name: Seq<char>)
    requires
        name.len() > 0,
        name != "."@,
        forall|i: int| 0 <= i < name.len() ==> (#[trigger] name[i]) != '/',
    ensures
        last_component(dir + seq!['/'] + name) == Some(name),
        last_component(dir + seq!['/'] + name + seq!['/']) == Some(name),
{
    lemma_scan_tail(dir, name);
    let x = dir + seq!['/'] + name;
    let e = Seq::<char>::empty();
    assert forall|i: int| 0 <= i < e.len() implies (#[trigger] e[i]) != '/' by {}
    lemma_scan_tail(x, e);
    assert(x + seq!['/'] + e =~= x + seq!['/']);
}

/// Whether a changed file at `path` is pywal's colour file: its last component is
/// `colors.json`.
pub fn is_colors_file(path: &str) -> (r: bool)
    ensures
        r == (last_component(path@) == Some("colors.json"@)),
{
    let p = chars_of(path);
    let ghost ps = p@;
    let n = p.len();
    let mut last: Option<(usize, usize)> = None;
    let mut start: usize = 0;
    let mut i: usize = 0;
    assert(ps.take(0) =~= Seq::<char>::empty());
    while i < n
        invariant
            ps == p@,
            n == ps.len(),
            start <= i <= n,
            scan_components(ps.take(i as int)).1 == ps.subrange(start as int, i as int),
            match last {
                Some((a, b)) => a <= b <= n && scan_components(ps.take(i as int)).0 == Some(
                    ps.subrange(a as int, b as int),
                ),
                None => scan_components(ps.take(i as int)).0 is None,
            },
        decreases n - i,
    {
        let ghost prev = scan_components(ps.take(i as int));
        assert(ps.take(i + 1).drop_last() =~= ps.take(i as int));
        assert(ps.take(i + 1).last() == ps[i as int]);
        if p[i] == '/' {
            let len = i - start;
            let is_dot = len == 1 && p[start] == '.';
            proof {
                reveal_strlit(".");
                assert("."@ =~= seq!['.']);
                let cur = ps.subrange(start as int, i as int);
                assert(cur == prev.1);
                if len == 1 {
                    assert(cur =~= seq![ps[start as int]]);
                    if ps[start as int] == '.' {
                        assert(cur =~= "."@);
                    } else {
                        assert(cur[0] != "."@[0]);
                    }
                } else {
                    assert(cur.len() != "."@.len());
                }
                assert((len > 0 && !is_dot) == (cur.len() > 0 && cur != "."@));
            }
            if len > 0 && !is_dot {
                last = Some((start, i));
            }
            start = i + 1;
            assert(scan_components(ps.take(i + 1)).1 =~= ps.subrange(start as int, i + 1));
        } else {
            assert(prev.1.push(ps[i as int]) =~= ps.subrange(start as int, i + 1));
        }
        i = i + 1;
    }
    assert(ps.take(n as int) =~= ps);
    let len = n - start;
    let tail_named = len > 0 && !(len == 1 && p[start] == '.');
    proof {
        reveal_strlit(".");
        assert("."@ =~= seq!['.']);
        let cur = ps.subrange(start as int, n as int);
        if len == 1 {
            assert(cur =~= seq![ps[start as int]]);
            if ps[start as int] == '.' {
                assert(cur =~= "."@);
            } else {
                assert(cur[0] != "."@[0]);
            }
        } else {
            assert(cur.len() != "."@.len());
        }
        assert(tail_named == (cur.len() > 0 && cur != "."@));
    }
    let (a, b) = if tail_named {
        (start, n)
    } else {
        match last {
            Some((a, b)) => (a, b),
            None => {
                return false;
            },
        }
    };
    assert(last_component(ps) == Some(ps.subrange(a as int, b as int)));
    let target = chars_of("colors.json");
    let m = b - a;
    if m != target.len() {
        return false;
    }
    let mut k: usize = 0;
    while k < m
        invariant
            a <= b <= n,
            m == b - a,
            n == ps.len(),
            ps == p@,
            m == target@.len(),
            target@ == "colors.json"@,
            ps == path@,
            last_component(ps) == Some(ps.subrange(a as int, b as int)),
            k <= m,
            forall|j: int| 0 <= j < k ==> ps[a + j] == target@[j],
        decreases m - k,
    {
        if p[a + k] != target[k] {
            assert(ps.subrange(a as int, b as int)[k as int] != target@[k as int]);
            return false;
        }
        k = k + 1;
    }
    assert(ps.subrange(a as int, b as int) =~= target@);
    true
}

} // verus!
