//! The INI documents of the `ini` crate, as this library builds, writes and reads them.
//!
//! A document is modelled as its sections in order, each with its name (`None` for the
//! unnamed general section, which a new document starts with) and its key/value pairs
//! in order. A lookup answers the first value of the key in the first section of that
//! name; the writer puts out the sections and their pairs in this order.

use crate::layout::is_white_space;
use ini::Ini;
use vstd::prelude::*;

verus! {

#[verifier::external_type_specification]
#[verifier::external_body]
pub struct ExIni(Ini);

/// The key/value pairs of one section, in order.
pub type IniEntries = Seq<(Seq<char>, Seq<char>)>;

/// The sections of a document, in order, each with its name and its pairs.
pub type IniDocument = Seq<(Option<Seq<char>>, Seq<(Seq<char>, Seq<char>)>)>;

/// The sections of `ini` in the order in which the crate keeps and writes them, each with
/// its name and its key/value pairs in order.
pub uninterp spec fn ini_document(ini: Ini) -> Seq<(Option<Seq<char>>, Seq<(Seq<char>, Seq<char>)>)>;

/// The bytes that the crate's writer produces, with its default options, for a document
/// with the sections `doc`. Each line ends with the line separator of the target the
/// crate was built for (`\n`, or `\r\n` on Windows), which is fixed within one build.
pub uninterp spec fn ini_text(doc: Seq<(Option<Seq<char>>, Seq<(Seq<char>, Seq<char>)>)>) -> Seq<u8>;

/// What the crate's parser, with its default options, makes of the text `text`: the
/// sections of the document it reads, or `None` where it refuses the text.
pub uninterp spec fn ini_parse(text: Seq<char>) -> Option<
    Seq<(Option<Seq<char>>, Seq<(Seq<char>, Seq<char>)>)>,
>;

/// The document of a new `Ini`: only the general section, with no pairs.
pub open spec fn empty_document() -> IniDocument {
    seq![(None, Seq::empty())]
}

/// The index of the first section of `doc` named `name`.
pub open spec fn find_section(doc: IniDocument, name: Seq<char>) -> Option<int>
    decreases doc.len(),
{
    if doc.len() == 0 {
        None
    } else {
        match find_section(doc.drop_last(), name) {
            Some(i) => Some(i),
            None => if doc.last().0 == Some(name) {
                Some(doc.len() - 1)
            } else {
                None
            },
        }
    }
}

/// The index of the first pair of `entries` with the key `key`.
pub open spec fn find_key(entries: IniEntries, key: Seq<char>) -> Option<int>
    decreases entries.len(),
{
    if entries.len() == 0 {
        None
    } else {
        match find_key(entries.drop_last(), key) {
            Some(j) => Some(j),
            None => if entries.last().0 == key {
                Some(entries.len() - 1)
            } else {
                None
            },
        }
    }
}

/// What a lookup of `key` in the section `section` answers: the first value of the key
/// in the first section of that name.
pub open spec fn doc_lookup(doc: IniDocument, section: Seq<char>, key: Seq<char>) -> Option<
    Seq<char>,
> {
    match find_section(doc, section) {
        Some(i) => match find_key(doc[i].1, key) {
            Some(j) => Some(doc[i].1[j].1),
            None => None,
        },
        None => None,
    }
}

/// `entries` without the pairs whose key is `key`, the others in their order.
pub open spec fn without_key(entries: IniEntries, key: Seq<char>) -> IniEntries
    decreases entries.len(),
{
    if entries.len() == 0 {
        entries
    } else {
        let rest = without_key(entries.drop_last(), key);
        if entries.last().0 == key {
            rest
        } else {
            rest.push(entries.last())
        }
    }
}

/// The document after setting `key` to `value` in the section `section`: in the first
/// section of that name every pair with the key is dropped and the new pair goes last;
/// where no section has the name, a new one with just that pair goes last.
pub open spec fn doc_set(doc: IniDocument, section: Seq<char>, key: Seq<char>, value: Seq<char>) -> IniDocument {
    match find_section(doc, section) {
        Some(i) => doc.update(i, (Some(section), without_key(doc[i].1, key).push((key, value)))),
        None => doc.push((Some(section), seq![(key, value)])),
    }
}

/// Whether the writer puts `c` out as it is: it is neither a control character nor a
/// backslash.
pub open spec fn unescaped_char(c: char) -> bool {
    !(c <= '\u{1f}' || c == '\u{7f}' || c == '\\')
}

/// Whether `t` has no white space at either end.
pub open spec fn trimmed(t: Seq<char>) -> bool {
    t.len() > 0 ==> !is_white_space(t[0]) && !is_white_space(t.last())
}

/// Whether `t` is written and read back unchanged as a section name.
pub open spec fn plain_name(t: Seq<char>) -> bool {
    &&& trimmed(t)
    &&& forall|i: int| 0 <= i < t.len() ==> unescaped_char(#[trigger] t[i]) && t[i] != ']'
}

/// Whether `t` is written and read back unchanged as a key.
pub open spec fn plain_key(t: Seq<char>) -> bool {
    &&& t.len() > 0
    &&& trimmed(t)
    &&& t[0] != ';' && t[0] != '#' && t[0] != '['
    &&& forall|i: int|
        0 <= i < t.len() ==> unescaped_char(#[trigger] t[i]) && t[i] != '=' && t[i] != ':'
}

/// Whether `t` is written and read back unchanged as a value. The writer escapes
/// backslashes and control characters and the parser reads the escapes back, except
/// those of vertical tab and form feed (`\v` and `\f`), which it reads as `v` and `f`;
/// the parser trims white space from both ends and reads a leading quote as quoting.
pub open spec fn plain_value(t: Seq<char>) -> bool {
    &&& trimmed(t)
    &&& t.len() > 0 ==> t[0] != '"' && t[0] != '\''
    &&& forall|i: int| 0 <= i < t.len() ==> #[trigger] t[i] != '\u{b}' && t[i] != '\u{c}'
}

/// Whether every pair of `entries` has a plain key and a plain value.
pub open spec fn plain_entries(entries: IniEntries) -> bool {
    forall|j: int|
        0 <= j < entries.len() ==> plain_key(#[trigger] entries[j].0) && plain_value(entries[j].1)
}

/// Whether the parser reads the writer's text for `doc` back as `doc`: the general
/// section comes first and is empty, and the named sections that follow have plain,
/// distinct names and plain pairs.
pub open spec fn writable(doc: IniDocument) -> bool {
    &&& doc.len() >= 2
    &&& doc[0] == (None::<Seq<char>>, Seq::<(Seq<char>, Seq<char>)>::empty())
    &&& forall|i: int|
        1 <= i < doc.len() ==> (#[trigger] doc[i]).0 is Some && plain_name(doc[i].0->0)
            && plain_entries(doc[i].1)
    &&& forall|i: int, j: int| 1 <= i < j < doc.len() ==> doc[i].0 != doc[j].0
}

/// `Ini::new`: a document with only the empty general section.
#[verifier::external_body]
pub(crate) fn ini_new() -> (r: Ini)
    ensures
        ini_document(r) == empty_document(),
{
    Ini::new()
}

/// `Ini::set_to` with a named section: in the first section of that name every value of
/// the key is dropped and the new pair goes last; where no section has the name, a new
/// section with that pair goes last.
#[verifier::external_body]
pub(crate) fn ini_set(ini: &mut Ini, section: &str, key: &str, value: &str)
    ensures
        ini_document(*final(ini)) == doc_set(ini_document(*old(ini)), section@, key@, value@),
{
    ini.set_to(Some(section), key.to_owned(), value.to_owned())
}

/// `Ini::get_from` with a named section: the first value of `key` in the first section
/// called `section`.
#[verifier::external_body]
pub(crate) fn ini_get(ini: &Ini, section: &str, key: &str) -> (r: Option<String>)
    ensures
        match r {
            Some(v) => doc_lookup(ini_document(*ini), section@, key@) == Some(v@),
            None => doc_lookup(ini_document(*ini), section@, key@) is None,
        },
{
    ini.get_from(Some(section), key).map(|v| v.to_owned())
}

/// `Ini::read_from` on the bytes `bytes`: they are read as UTF-8 text, which fails on
/// invalid UTF-8, and the text is parsed.
#[verifier::external_body]
pub(crate) fn ini_read(bytes: &[u8]) -> (r: Option<Ini>)
    ensures
        r is Some <==> (vstd::utf8::valid_utf8(bytes@) && ini_parse(
            vstd::utf8::decode_utf8(bytes@),
        ) is Some),
        r matches Some(ini) ==> ini_parse(vstd::utf8::decode_utf8(bytes@)) == Some(
            ini_document(ini),
        ),
{
    let mut reader: &[u8] = bytes;
    Ini::read_from(&mut reader).ok()
}

/// `Ini::write_to` into an empty buffer, with the default options. Where the document is
/// writable, the text starts with the first named section's `[`, names and keys are
/// written as they are, values have their backslashes and control characters escaped,
/// and the parser reads the text back as the same document.
#[verifier::external_body]
pub(crate) fn ini_write(ini: &Ini) -> (r: Vec<u8>)
    ensures
        r@ == ini_text(ini_document(*ini)),
        writable(ini_document(*ini)) ==> r@.len() > 0 && r@[0] == 0x5b && vstd::utf8::valid_utf8(
            r@,
        ) && ini_parse(vstd::utf8::decode_utf8(r@)) == Some(ini_document(*ini)),
{
    let mut out: Vec<u8> = Vec::new();
    let _ = ini.write_to(&mut out);
    out
}

/// Where no section has the name `name`, none is found.
pub(crate) proof fn lemma_find_section_none(doc: IniDocument, name: Seq<char>)
    requires
        forall|i: int| 0 <= i < doc.len() ==> (#[trigger] doc[i]).0 != Some(name),
    ensures
        find_section(doc, name) is None,
    decreases doc.len(),
{
    if doc.len() > 0 {
        assert forall|i: int| 0 <= i < doc.drop_last().len() implies (
        #[trigger] doc.drop_last()[i]).0 != Some(name) by {
            assert(doc.drop_last()[i] == doc[i]);
        }
        lemma_find_section_none(doc.drop_last(), name);
    }
}

/// The first section named `name` is found.
pub(crate) proof fn lemma_find_section_at(doc: IniDocument, name: Seq<char>, i: int)
    requires
        0 <= i < doc.len(),
        doc[i].0 == Some(name),
        forall|j: int| 0 <= j < i ==> (#[trigger] doc[j]).0 != Some(name),
    ensures
        find_section(doc, name) == Some(i),
    decreases doc.len(),
{
    let p = doc.drop_last();
    if i < doc.len() - 1 {
        assert(p[i] == doc[i]);
        assert forall|j: int| 0 <= j < i implies (#[trigger] p[j]).0 != Some(name) by {
            assert(p[j] == doc[j]);
        }
        lemma_find_section_at(p, name, i);
    } else {
        assert forall|j: int| 0 <= j < p.len() implies (#[trigger] p[j]).0 != Some(name) by {
            assert(p[j] == doc[j]);
        }
        lemma_find_section_none(p, name);
    }
}

/// Where no pair has the key `key`, none is found.
pub(crate) proof fn lemma_find_key_none(entries: IniEntries, key: Seq<char>)
    requires
        forall|j: int| 0 <= j < entries.len() ==> (#[trigger] entries[j]).0 != key,
    ensures
        find_key(entries, key) is None,
    decreases entries.len(),
{
    if entries.len() > 0 {
        let p = entries.drop_last();
        assert forall|j: int| 0 <= j < p.len() implies (#[trigger] p[j]).0 != key by {
            assert(p[j] == entries[j]);
        }
        lemma_find_key_none(p, key);
    }
}

/// The first pair with the key `key` is found.
pub(crate) proof fn lemma_find_key_at(entries: IniEntries, key: Seq<char>, j: int)
    requires
        0 <= j < entries.len(),
        entries[j].0 == key,
        forall|k: int| 0 <= k < j ==> (#[trigger] entries[k]).0 != key,
    ensures
        find_key(entries, key) == Some(j),
    decreases entries.len(),
{
    let p = entries.drop_last();
    if j < entries.len() - 1 {
        assert(p[j] == entries[j]);
        assert forall|k: int| 0 <= k < j implies (#[trigger] p[k]).0 != key by {
            assert(p[k] == entries[k]);
        }
        lemma_find_key_at(p, key, j);
    } else {
        assert forall|k: int| 0 <= k < p.len() implies (#[trigger] p[k]).0 != key by {
            assert(p[k] == entries[k]);
        }
        lemma_find_key_none(p, key);
    }
}

/// Dropping a key that no pair has leaves the pairs as they are.
pub(crate) proof fn lemma_without_absent_key(entries: IniEntries, key: Seq<char>)
    requires
        forall|j: int| 0 <= j < entries.len() ==> (#[trigger] entries[j]).0 != key,
    ensures
        without_key(entries, key) == entries,
    decreases entries.len(),
{
    if entries.len() > 0 {
        let p = entries.drop_last();
        assert forall|j: int| 0 <= j < p.len() implies (#[trigger] p[j]).0 != key by {
            assert(p[j] == entries[j]);
        }
        lemma_without_absent_key(p, key);
        assert(p.push(entries.last()) =~= entries);
    }
}

/// Setting a key in a section that the document lacks appends that section.
pub(crate) proof fn lemma_set_new_section(
    doc: IniDocument,
    section: Seq<char>,
    key: Seq<char>,
    value: Seq<char>,
)
    requires
        forall|i: int| 0 <= i < doc.len() ==> (#[trigger] doc[i]).0 != Some(section),
    ensures
        doc_set(doc, section, key, value) == doc.push((Some(section), seq![(key, value)])),
{
    lemma_find_section_none(doc, section);
}

/// Setting a new key in the last section, where no earlier section has its name, appends
/// the pair to it.
pub(crate) proof fn lemma_set_in_last_section(
    doc: IniDocument,
    section: Seq<char>,
    key: Seq<char>,
    value: Seq<char>,
)
    requires
        doc.len() > 0,
        doc.last().0 == Some(section),
        forall|i: int| 0 <= i < doc.len() - 1 ==> (#[trigger] doc[i]).0 != Some(section),
        forall|j: int| 0 <= j < doc.last().1.len() ==> (#[trigger] doc.last().1[j]).0 != key,
    ensures
        doc_set(doc, section, key, value) == doc.update(
            doc.len() - 1,
            (Some(section), doc.last().1.push((key, value))),
        ),
{
    lemma_find_section_at(doc, section, doc.len() - 1);
    lemma_without_absent_key(doc.last().1, key);
}

/// A lookup finds the first pair with the key in the first section of the name.
pub(crate) proof fn lemma_lookup_at(
    doc: IniDocument,
    section: Seq<char>,
    i: int,
    key: Seq<char>,
    j: int,
)
    requires
        0 <= i < doc.len(),
        doc[i].0 == Some(section),
        forall|k: int| 0 <= k < i ==> (#[trigger] doc[k]).0 != Some(section),
        0 <= j < doc[i].1.len(),
        doc[i].1[j].0 == key,
        forall|k: int| 0 <= k < j ==> (#[trigger] doc[i].1[k]).0 != key,
    ensures
        doc_lookup(doc, section, key) == Some(doc[i].1[j].1),
{
    lemma_find_section_at(doc, section, i);
    lemma_find_key_at(doc[i].1, key, j);
}

/// Whether every character of `t` is a lower-case ASCII letter, a digit, `_` or `.`.
pub open spec fn ascii_word(t: Seq<char>) -> bool
    decreases t.len(),
{
    t.len() == 0 || ((('a' <= t[0] <= 'z') || ('0' <= t[0] <= '9') || t[0] == '_' || t[0]
        == '.') && ascii_word(t.drop_first()))
}

/// A non-empty word of lower-case letters, digits, `_` and `.` is a plain name, key and
/// value.
pub(crate) proof fn lemma_ascii_word_plain(t: Seq<char>)
    requires
        ascii_word(t),
        t.len() > 0,
    ensures
        plain_name(t),
        plain_key(t),
        plain_value(t),
{
    lemma_ascii_word_chars(t);
}

proof fn lemma_ascii_word_chars(t: Seq<char>)
    requires
        ascii_word(t),
    ensures
        forall|i: int|
            0 <= i < t.len() ==> ('a' <= #[trigger] t[i] <= 'z') || ('0' <= t[i] <= '9') || t[i]
                == '_' || t[i] == '.',
    decreases t.len(),
{
    if t.len() > 0 {
        lemma_ascii_word_chars(t.drop_first());
        assert forall|i: int| 0 <= i < t.len() implies ('a' <= #[trigger] t[i] <= 'z') || ('0'
            <= t[i] <= '9') || t[i] == '_' || t[i] == '.' by {
            if i > 0 {
                assert(t[i] == t.drop_first()[i - 1]);
            }
        }
    }
}

} // verus!
