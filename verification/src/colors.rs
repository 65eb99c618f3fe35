//! The pywal colour scheme: its special colours and its table of named colours.

use crate::numbers::{channels_on_char_boundaries, hex_to_rgb, spec_hex_to_rgb};
use crate::text::str_equal;
use vstd::prelude::*;

verus! {

/// Colours by name, each name at most once.
///
/// The table is a vector of pairs with that invariant rather than a `HashMap`: vstd
/// specifies `HashMap` lookups only for keys whose hashing it models, which `String`
/// keys are not.
pub struct ColorTable {
    entries: Vec<(String, String)>,
}

/// The colour of each name in `s`, a later entry overriding an earlier one.
pub open spec fn table_map(s: Seq<(String, String)>) -> Map<Seq<char>, Seq<char>>
    decreases s.len(),
{
    if s.len() == 0 {
        Map::empty()
    } else {
        table_map(s.drop_last()).insert(s.last().0@, s.last().1@)
    }
}

/// Whether no name occurs twice in `s`.
pub open spec fn names_unique(s: Seq<(String, String)>) -> bool {
    forall|i: int, j: int| 0 <= i < j < s.len() ==> (#[trigger] s[i]).0@ != (#[trigger] s[j]).0@
}

proof fn lemma_table_domain(s: Seq<(String, String)>, k: Seq<char>)
    ensures
        table_map(s).contains_key(k) <==> exists|i: int| 0 <= i < s.len() && (#[trigger] s[i]).0@ == k,
    decreases s.len(),
{
    if s.len() > 0 {
        lemma_table_domain(s.drop_last(), k);
        if table_map(s.drop_last()).contains_key(k) {
            let i = choose|i: int| 0 <= i < s.drop_last().len() && (#[trigger] s.drop_last()[i]).0@ == k;
            assert(s[i].0@ == k);
        }
        if exists|i: int| 0 <= i < s.len() && (#[trigger] s[i]).0@ == k {
            let i = choose|i: int| 0 <= i < s.len() && (#[trigger] s[i]).0@ == k;
            if i < s.len() - 1 {
                assert(s.drop_last()[i] == s[i]);
            }
        }
    }
}

proof fn lemma_table_value(s: Seq<(String, String)>, i: int)
    requires
        names_unique(s),
        0 <= i < s.len(),
    ensures
        table_map(s).contains_key(s[i].0@),
        table_map(s)[s[i].0@] == s[i].1@,
    decreases s.len(),
{
    if i < s.len() - 1 {
        assert(s.drop_last()[i] == s[i]);
        lemma_table_value(s.drop_last(), i);
        assert(s[i].0@ != s[s.len() - 1].0@);
    }
}

proof fn lemma_table_update(s: Seq<(String, String)>, i: int, e: (String, String))
    requires
        names_unique(s),
        0 <= i < s.len(),
        e.0@ == s[i].0@,
    ensures
        table_map(s.update(i, e)) == table_map(s).insert(e.0@, e.1@),
        names_unique(s.update(i, e)),
    decreases s.len(),
{
    let t = s.update(i, e);
    if i == s.len() - 1 {
        assert(t.drop_last() =~= s.drop_last());
        assert(table_map(t) =~= table_map(s).insert(e.0@, e.1@));
    } else {
        assert(t.drop_last() =~= s.drop_last().update(i, e));
        assert(s.drop_last()[i] == s[i]);
        lemma_table_update(s.drop_last(), i, e);
        assert(s[s.len() - 1].0@ != e.0@);
        assert(table_map(t) =~= table_map(s).insert(e.0@, e.1@));
    }
}

impl ColorTable {
    #[verifier::type_invariant]
    spec fn names_once(self) -> bool {
        names_unique(self.entries@)
    }

    /// The colour of each name.
    pub closed spec fn colors(self) -> Map<Seq<char>, Seq<char>> {
        table_map(self.entries@)
    }

    /// A table with no colour.
    pub fn new() -> (r: ColorTable)
        ensures
            r.colors() == Map::<Seq<char>, Seq<char>>::empty(),
    {
        ColorTable { entries: Vec::new() }
    }

    /// The colour of `name`, if the table has one.
    pub fn get(&self, name: &str) -> (r: Option<&String>)
        ensures
            r matches Some(v) ==> self.colors().contains_key(name@) && v@ == self.colors()[name@],
            r is None ==> !self.colors().contains_key(name@),
    {
        proof {
            use_type_invariant(self);
        }
        let mut i: usize = 0;
        while i < self.entries.len()
            invariant
                i <= self.entries@.len(),
                names_unique(self.entries@),
                forall|j: int| 0 <= j < i ==> (#[trigger] self.entries@[j]).0@ != name@,
            decreases self.entries@.len() - i,
        {
            if str_equal(self.entries[i].0.as_str(), name) {
                proof {
                    lemma_table_value(self.entries@, i as int);
                }
                return Some(&self.entries[i].1);
            }
            i = i + 1;
        }
        proof {
            lemma_table_domain(self.entries@, name@);
        }
        None
    }

    /// Gives `name` the colour `value`, in place of any colour it had.
    pub fn insert(&mut self, name: String, value: String)
        ensures
            final(self).colors() == old(self).colors().insert(name@, value@),
    {
        proof {
            use_type_invariant(&*self);
        }
        let ghost before = old(self).colors();
        let ghost k = name@;
        let ghost v = value@;
        let mut entries: Vec<(String, String)> = Vec::new();
        std::mem::swap(&mut entries, &mut self.entries);
        let ghost s = entries@;
        assert(table_map(s) == before);
        let mut i: usize = 0;
        while i < entries.len()
            invariant
                entries@ == s,
                table_map(s) == before,
                before == old(self).colors(),
                k == name@,
                v == value@,
                i <= s.len(),
                names_unique(s),
                forall|j: int| 0 <= j < i ==> (#[trigger] s[j]).0@ != name@,
            decreases s.len() - i,
        {
            if str_equal(entries[i].0.as_str(), name.as_str()) {
                let e = (name, value);
                proof {
                    lemma_table_update(s, i as int, e);
                }
                entries.set(i, e);
                assert(table_map(entries@) == before.insert(k, v));
                self.entries = entries;
                assert(self.colors() == before.insert(k, v));
                return;
            }
            i = i + 1;
        }
        let ghost e = (name, value);
        entries.push((name, value));
        assert(entries@.drop_last() =~= s);
        assert(names_unique(entries@)) by {
            assert forall|a: int, b: int| 0 <= a < b < entries@.len() implies (
            #[trigger] entries@[a]).0@ != (#[trigger] entries@[b]).0@ by {
                if b == entries@.len() - 1 {
                    assert(entries@[a] == s[a]);
                }
            }
        }
        self.entries = entries;
    }

    /// The entries of the table, each name once.
    pub fn entries(&self) -> (r: &Vec<(String, String)>)
        ensures
            names_unique(r@),
            table_map(r@) == self.colors(),
    {
        proof {
            use_type_invariant(self);
        }
        &self.entries
    }
}

/// After a name is given a colour, looking the name up gives that colour, and every
/// other name keeps the colour it had.
pub proof fn lemma_lookup_after_insert(
    before: Map<Seq<char>, Seq<char>>,
    name: Seq<char>,
    value: Seq<char>,
    other: Seq<char>,
)
    ensures
        before.insert(name, value).contains_key(name),
        before.insert(name, value)[name] == value,
        other != name ==> (before.insert(name, value).contains_key(other) == before.contains_key(
            other,
        )),
        other != name && before.contains_key(other) ==> before.insert(name, value)[other]
            == before[other],
{
}

/// The colours that pywal names apart from its numbered palette.
pub struct SpecialColors {
    pub background: String,
    pub foreground: String,
    pub cursor: String,
}

/// A pywal colour scheme.
pub struct PywalColors {
    pub special: SpecialColors,
    pub colors: ColorTable,
}

/// The colour code asked for by `name`: the background or foreground, a colour of the
/// table, or black for a name the scheme does not have.
pub open spec fn color_code(p: PywalColors, name: Seq<char>) -> Seq<char> {
    if name == "background"@ {
        p.special.background@
    } else if name == "foreground"@ {
        p.special.foreground@
    } else if p.colors.colors().contains_key(name) {
        p.colors.colors()[name]
    } else {
        "#000000"@
    }
}

impl PywalColors {
    /// The scheme used where pywal's is not available: a dark grey background, white
    /// foreground and cursor, and no palette.
    pub fn fallback() -> (r: PywalColors)
        ensures
            r.special.background@ == "#1a1a1a"@,
            r.special.foreground@ == "#ffffff"@,
            r.special.cursor@ == "#ffffff"@,
            r.colors.colors() == Map::<Seq<char>, Seq<char>>::empty(),
    {
        PywalColors {
            special: SpecialColors {
                background: "#1a1a1a".to_owned(),
                foreground: "#ffffff".to_owned(),
                cursor: "#ffffff".to_owned(),
            },
            colors: ColorTable::new(),
        }
    }

    /// The colour code for `name` (see `color_code`).
    pub fn color_code<'a>(&'a self, name: &str) -> (r: &'a str)
        ensures
            r@ == color_code(*self, name@),
    {
        if str_equal(name, "background") {
            self.special.background.as_str()
        } else if str_equal(name, "foreground") {
            self.special.foreground.as_str()
        } else {
            match self.colors.get(name) {
                Some(v) => v.as_str(),
                None => "#000000",
            }
        }
    }

    /// The red, green and blue bytes of the colour called `name`, read from its code as
    /// `hex_to_rgb` reads it.
    pub fn get_rgb(&self, name: &str) -> (rgb: [u8; 3])
        requires
            channels_on_char_boundaries(vstd::utf8::encode_utf8(color_code(*self, name@))),
        ensures
            rgb@ == spec_hex_to_rgb(vstd::utf8::encode_utf8(color_code(*self, name@))),
    {
        hex_to_rgb(self.color_code(name))
    }
}

} // verus!
