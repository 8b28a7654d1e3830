//! Interpretation of one desktop entry (the `[Desktop Entry]` section of a
//! `.desktop` file) as an application record.

use vstd::prelude::*;
use crate::normalize::{norm_part, push_norm};
use crate::rank::{lemma_views_push, views};
use crate::text::{before_first, prefix_before, push_char, strip_suffix, text_eq, without_suffix};

verus! {

#[verifier::external_type_specification]
#[verifier::external_body]
pub struct ExIni(ini::Ini);

#[verifier::external_type_specification]
#[verifier::external_body]
pub struct ExProperties(ini::Properties);

#[verifier::external_type_specification]
#[verifier::external_body]
pub struct ExParseError(ini::ParseError);

/// The entries of an ini section: each key with the first value stored under it.
pub uninterp spec fn properties_of(p: ini::Properties) -> Map<Seq<char>, Seq<char>>;

/// The named sections of an ini document: each section name with the
/// entries of the first section stored under it.
pub uninterp spec fn ini_sections(i: ini::Ini) -> Map<Seq<char>, Map<Seq<char>, Seq<char>>>;

/// The named sections that `ini::Ini::load_from_str` reads from the text,
/// or nothing when the text is not a well-formed ini document.
pub uninterp spec fn parsed_ini(text: Seq<char>) -> Option<Map<Seq<char>, Map<Seq<char>, Seq<char>>>>;

/// The text that `String::from_utf8_lossy` decodes from the bytes.
pub uninterp spec fn lossy_text(b: Seq<u8>) -> Seq<char>;

/// The file name of a path, as `Path::file_name` finds it.
pub uninterp spec fn file_name_of(p: Seq<char>) -> Option<Seq<char>>;

/// Relies on `ini::Properties::get`: the first value stored under the key,
/// compared case-sensitively.
#[verifier::external_body]
fn property(p: &ini::Properties, key: &str) -> (r: Option<String>)
    ensures
        r.is_some() == properties_of(*p).contains_key(key@),
        r matches Some(v) ==> properties_of(*p)[key@] == v@,
{
    p.get(key).map(|v| v.to_string())
}

/// Relies on `ini::Properties::new`: a section without entries.
#[verifier::external_body]
fn no_properties() -> (r: ini::Properties)
    ensures
        forall|k: Seq<char>| !(#[trigger] properties_of(r).contains_key(k)),
{
    ini::Properties::new()
}

/// Relies on `ini::Ini::section`: a copy of the first section of that name,
/// if present.
#[verifier::external_body]
fn section(ini: &ini::Ini, name: &str) -> (r: Option<ini::Properties>)
    ensures
        r.is_some() == ini_sections(*ini).contains_key(name@),
        r matches Some(p) ==> properties_of(p) == ini_sections(*ini)[name@],
{
    ini.section(Some(name)).cloned()
}

/// Relies on `ini::Ini::load_from_str`: the parsed document, or why it is
/// malformed.
#[verifier::external_body]
fn load_ini(text: &str) -> (r: Result<ini::Ini, ini::ParseError>)
    ensures
        r is Ok == parsed_ini(text@).is_some(),
        r matches Ok(i) ==> ini_sections(i) == parsed_ini(text@).unwrap(),
{
    ini::Ini::load_from_str(text)
}

/// Relies on `String::from_utf8_lossy`: the decoded text depends on the bytes alone.
#[verifier::external_body]
fn decode_lossy(b: &[u8]) -> (r: String)
    ensures
        r@ == lossy_text(b@),
{
    String::from_utf8_lossy(b).into_owned()
}

/// Relies on `Path::file_name`: the last component of the path, if it names a file.
#[verifier::external_body]
fn path_file_name(p: &str) -> (r: Option<String>)
    ensures
        opt_view(r) == file_name_of(p@),
{
    std::path::Path::new(p).file_name().and_then(|f| f.to_str()).map(|f| f.to_string())
}

/// An application found in a desktop entry.
pub struct AppRecord {
    pub desktop_id: String,
    pub name: String,
    pub generic_name: Option<String>,
    pub comment: Option<String>,
    pub exec_cmd: Option<String>,
    pub icon: Option<String>,
    pub categories: Vec<String>,
    pub keywords: Vec<String>,
    pub nodisplay: bool,
    pub desktop_path: String,
    pub search_blob: String,
}

impl AppRecord {
    /// The title shown for the application.
    pub fn title(&self) -> (r: &str)
        ensures
            r@ == self.name@,
    {
        self.name.as_str()
    }

    /// The generic name, or else the comment.
    pub fn subtitle(&self) -> (r: Option<&str>)
        ensures
            match r {
                Some(s) => match self.generic_name {
                    Some(g) => s@ == g@,
                    None => self.comment matches Some(c) && s@ == c@,
                },
                None => self.generic_name.is_none() && self.comment.is_none(),
            },
    {
        match &self.generic_name {
            Some(g) => Some(g.as_str()),
            None => match &self.comment {
                Some(c) => Some(c.as_str()),
                None => None,
            },
        }
    }
}

/// Why a desktop file could not be read as an entry.
#[derive(Debug)]
pub enum DesktopError {
    /// The file is not a well-formed ini document.
    Malformed,
}

/// An optional text as the contracts see it.
pub open spec fn opt_view(o: Option<String>) -> Option<Seq<char>> {
    match o {
        Some(s) => Some(s@),
        None => None,
    }
}

/// The keys tried for `key` under the locale `lang` (such as `en_US.UTF-8`),
/// most specific first: `key[en_US]`, `key[en]`, then `key`.
pub open spec fn locale_keys(key: Seq<char>, lang: Seq<char>) -> Seq<Seq<char>> {
    let main = before_first(lang, '.');
    if main.len() > 0 {
        let a = before_first(main, '_');
        seq![key + "["@ + main + "]"@, key + "["@ + a + "]"@, key]
    } else {
        seq![key]
    }
}

/// The value of the first of `keys` that the section holds.
pub open spec fn first_present(props: Map<Seq<char>, Seq<char>>, keys: Seq<Seq<char>>) -> Option<Seq<char>>
    decreases keys.len(),
{
    if keys.len() == 0 {
        None
    } else if props.contains_key(keys[0]) {
        Some(props[keys[0]])
    } else {
        first_present(props, keys.drop_first())
    }
}

/// The value of `key` best suited to the locale `lang`.
pub open spec fn entry(props: Map<Seq<char>, Seq<char>>, key: Seq<char>, lang: Seq<char>) -> Option<Seq<char>> {
    first_present(props, locale_keys(key, lang))
}

/// The non-empty pieces of `s` between `;` separators; `cur` is the piece
/// begun before `s`.
pub open spec fn pieces(s: Seq<char>, cur: Seq<char>) -> Seq<Seq<char>>
    decreases s.len(),
{
    if s.len() == 0 {
        if cur.len() > 0 {
            seq![cur]
        } else {
            Seq::empty()
        }
    } else if s[0] == ';' {
        (if cur.len() > 0 {
            seq![cur]
        } else {
            Seq::empty()
        }) + pieces(s.drop_first(), Seq::empty())
    } else {
        pieces(s.drop_first(), cur.push(s[0]))
    }
}

/// A `;`-separated list value, or the empty list when absent.
pub open spec fn list_of(v: Option<Seq<char>>) -> Seq<Seq<char>> {
    match v {
        Some(s) => pieces(s, Seq::empty()),
        None => Seq::empty(),
    }
}

/// Whether a boolean value is set.
pub open spec fn flag_set(v: Option<Seq<char>>) -> bool {
    v == Some("true"@) || v == Some("1"@)
}

/// The desktop id of the file at `path`: its file name without `.desktop`.
pub open spec fn desktop_id_of(path: Seq<char>) -> Seq<char> {
    let stem = match file_name_of(path) {
        Some(f) => f,
        None => Seq::empty(),
    };
    match without_suffix(stem, ".desktop"@) {
        Some(t) => t,
        None => stem,
    }
}

/// A present value as a one-element list, an absent one as the empty list.
pub open spec fn opt_seq(o: Option<Seq<char>>) -> Seq<Seq<char>> {
    match o {
        Some(s) => seq![s],
        None => Seq::empty(),
    }
}

/// Each of `parts` in normal form, each after a space.
pub open spec fn joined(parts: Seq<Seq<char>>) -> Seq<char>
    decreases parts.len(),
{
    if parts.len() == 0 {
        Seq::empty()
    } else {
        joined(parts.drop_last()) + seq![' '] + norm_part(parts.last())
    }
}

/// The text that application searches match against: the normal forms of
/// the name, generic name, comment, keywords and categories.
pub open spec fn blob_of(props: Map<Seq<char>, Seq<char>>, name: Seq<char>, lang: Seq<char>) -> Seq<char> {
    norm_part(name) + joined(
        opt_seq(entry(props, "GenericName"@, lang)) + opt_seq(entry(props, "Comment"@, lang)) + list_of(
            entry(props, "Keywords"@, lang),
        ) + list_of(entry(props, "Categories"@, lang)),
    )
}

/// `a` is the record of the entry `props` of the file at `path`.
pub open spec fn record_of(a: AppRecord, props: Map<Seq<char>, Seq<char>>, path: Seq<char>, lang: Seq<char>) -> bool {
    let name = match entry(props, "Name"@, lang) {
        Some(n) => n,
        None => desktop_id_of(path),
    };
    &&& a.desktop_id@ == desktop_id_of(path)
    &&& a.name@ == name
    &&& opt_view(a.generic_name) == entry(props, "GenericName"@, lang)
    &&& opt_view(a.comment) == entry(props, "Comment"@, lang)
    &&& opt_view(a.exec_cmd) == entry(props, "Exec"@, lang)
    &&& opt_view(a.icon) == entry(props, "Icon"@, lang)
    &&& views(a.categories@) == list_of(entry(props, "Categories"@, lang))
    &&& views(a.keywords@) == list_of(entry(props, "Keywords"@, lang))
    &&& a.nodisplay == flag_set(entry(props, "NoDisplay"@, lang))
    &&& a.desktop_path@ == path
    &&& a.search_blob@ == blob_of(props, name, lang)
}

/// The `[Desktop Entry]` section, or an empty one when absent.
pub open spec fn desktop_section(sections: Map<Seq<char>, Map<Seq<char>, Seq<char>>>) -> Map<Seq<char>, Seq<char>> {
    if sections.contains_key("Desktop Entry"@) {
        sections["Desktop Entry"@]
    } else {
        Map::empty()
    }
}

/// The desktop id of the file at `path`.
pub fn desktop_id_from_path(path: &str) -> (r: String)
    ensures
        r@ == desktop_id_of(path@),
{
    let stem = match path_file_name(path) {
        Some(f) => f,
        None => String::new(),
    };
    match strip_suffix(stem.as_str(), ".desktop") {
        Some(t) => String::from_str(t),
        None => stem,
    }
}

fn bracketed(key: &str, tag: &str) -> (r: String)
    ensures
        r@ == key@ + "["@ + tag@ + "]"@,
{
    let mut k = String::from_str(key);
    k.append("[");
    k.append(tag);
    k.append("]");
    k
}

/// The value of `key` in the section best suited to the locale `lang`.
pub fn get_best_locale(sec: &ini::Properties, key: &str, lang: &str) -> (r: Option<String>)
    ensures
        opt_view(r) == entry(properties_of(*sec), key@, lang@),
{
    let main = prefix_before(lang, '.');
    let mut keys: Vec<String> = Vec::new();
    if main.unicode_len() > 0 {
        let a = prefix_before(main, '_');
        keys.push(bracketed(key, main));
        keys.push(bracketed(key, a));
    }
    keys.push(String::from_str(key));
    let ghost ks = locale_keys(key@, lang@);
    assert(views(keys@) =~= ks);
    let ghost props = properties_of(*sec);
    let mut i: usize = 0;
    assert(ks.skip(0) =~= ks);
    while i < keys.len()
        invariant
            views(keys@) == ks,
            ks == locale_keys(key@, lang@),
            props == properties_of(*sec),
            0 <= i <= keys.len(),
            first_present(props, ks) == first_present(props, ks.skip(i as int)),
        decreases keys.len() - i,
    {
        assert(ks.skip(i as int).drop_first() =~= ks.skip(i + 1));
        assert(ks.skip(i as int)[0] == keys@[i as int]@);
        assert(views(keys@)[i as int] == keys@[i as int]@);
        match property(sec, keys[i].as_str()) {
            Some(v) => {
                assert(first_present(props, ks.skip(i as int)) == Some(v@));
                assert(entry(properties_of(*sec), key@, lang@) == first_present(props, ks));
                assert(opt_view(Some(v)) == Some(v@));
                return Some(v);
            },
            None => {},
        }
        i = i + 1;
    }
    None
}

/// The non-empty pieces of a `;`-separated list.
pub fn split_list(s: &str) -> (r: Vec<String>)
    ensures
        views(r@) == pieces(s@, Seq::empty()),
{
    let n = s.unicode_len();
    let mut out: Vec<String> = Vec::new();
    let mut cur = String::new();
    let mut i: usize = 0;
    assert(s@.skip(0) =~= s@);
    while i < n
        invariant
            n == s@.len(),
            0 <= i <= n,
            views(out@) + pieces(s@.skip(i as int), cur@) == pieces(s@, Seq::empty()),
        decreases n - i,
    {
        let ghost rest = s@.skip(i as int);
        assert(rest.drop_first() =~= s@.skip(i + 1));
        let c = s.get_char(i);
        if c == ';' {
            if cur.unicode_len() > 0 {
                let ghost o = views(out@);
                out.push(cur);
                assert(views(out@) =~= o + seq![cur@]);
                assert(views(out@) + pieces(rest.drop_first(), Seq::empty()) =~= o + pieces(rest, cur@));
            } else {
                assert(pieces(rest, cur@) =~= pieces(rest.drop_first(), Seq::empty()));
            }
            cur = String::new();
        } else {
            push_char(&mut cur, c);
        }
        i = i + 1;
    }
    assert(s@.skip(n as int) =~= Seq::<char>::empty());
    if cur.unicode_len() > 0 {
        let ghost o = views(out@);
        out.push(cur);
        assert(views(out@) =~= o + seq![cur@]);
    } else {
        assert(views(out@) =~= views(out@) + pieces(Seq::<char>::empty(), cur@));
    }
    out
}

fn list_value(v: &Option<String>) -> (r: Vec<String>)
    ensures
        views(r@) == list_of(opt_view(*v)),
{
    match v {
        Some(s) => split_list(s.as_str()),
        None => {
            let r: Vec<String> = Vec::new();
            assert(views(r@) =~= Seq::<Seq<char>>::empty());
            r
        },
    }
}

fn clone_opt(v: &Option<String>) -> (r: Option<String>)
    ensures
        opt_view(r) == opt_view(*v),
{
    match v {
        Some(s) => Some(s.clone()),
        None => None,
    }
}

/// Reads the entry `sec` of the file at `path` under the locale `lang`: an
/// application record exactly when its `Type` is `Application`.
pub fn app_record_from_section(sec: &ini::Properties, path: &str, lang: &str) -> (r: Option<AppRecord>)
    ensures
        r.is_some() == (entry(properties_of(*sec), "Type"@, lang@) == Some("Application"@)),
        r matches Some(a) ==> record_of(a, properties_of(*sec), path@, lang@),
{
    let ty = get_best_locale(sec, "Type", lang);
    let is_app = match &ty {
        Some(t) => text_eq(t.as_str(), "Application"),
        None => false,
    };
    if !is_app {
        return None;
    }
    let name = match get_best_locale(sec, "Name", lang) {
        Some(n) => n,
        None => desktop_id_from_path(path),
    };
    let generic = get_best_locale(sec, "GenericName", lang);
    let comment = get_best_locale(sec, "Comment", lang);
    let exec_line = get_best_locale(sec, "Exec", lang);
    let icon = get_best_locale(sec, "Icon", lang);
    let nodisplay = match get_best_locale(sec, "NoDisplay", lang) {
        Some(s) => text_eq(s.as_str(), "true") || text_eq(s.as_str(), "1"),
        None => false,
    };
    let categories = list_value(&get_best_locale(sec, "Categories", lang));
    let keywords = list_value(&get_best_locale(sec, "Keywords", lang));
    let desktop_id = desktop_id_from_path(path);

    let mut parts: Vec<String> = Vec::new();
    match &generic {
        Some(g) => parts.push(g.clone()),
        None => {},
    }
    match &comment {
        Some(c) => parts.push(c.clone()),
        None => {},
    }
    let mut i: usize = 0;
    let ghost head = views(parts@);
    while i < keywords.len()
        invariant
            0 <= i <= keywords.len(),
            views(parts@) == head + views(keywords@).take(i as int),
        decreases keywords.len() - i,
    {
        let ghost old_parts = parts@;
        let x = keywords[i].clone();
        parts.push(x);
        proof {
            lemma_views_push(old_parts, x);
            assert(views(keywords@).take(i + 1) =~= views(keywords@).take(i as int).push(views(keywords@)[i as int]));
        }
        i = i + 1;
        assert(views(parts@) =~= head + views(keywords@).take(i as int));
    }
    assert(views(keywords@).take(keywords.len() as int) =~= views(keywords@));
    let ghost head2 = views(parts@);
    i = 0;
    while i < categories.len()
        invariant
            0 <= i <= categories.len(),
            views(parts@) == head2 + views(categories@).take(i as int),
        decreases categories.len() - i,
    {
        let ghost old_parts = parts@;
        let x = categories[i].clone();
        parts.push(x);
        proof {
            lemma_views_push(old_parts, x);
            assert(views(categories@).take(i + 1) =~= views(categories@).take(i as int).push(views(categories@)[i as int]));
        }
        i = i + 1;
        assert(views(parts@) =~= head2 + views(categories@).take(i as int));
    }
    assert(views(categories@).take(categories.len() as int) =~= views(categories@));
    let ghost all = views(parts@);
    let ghost props = properties_of(*sec);
    assert(all =~= opt_seq(entry(props, "GenericName"@, lang@)) + opt_seq(entry(props, "Comment"@, lang@))
        + list_of(entry(props, "Keywords"@, lang@)) + list_of(entry(props, "Categories"@, lang@)));

    let mut blob = String::new();
    push_norm(&mut blob, name.as_str());
    i = 0;
    while i < parts.len()
        invariant
            0 <= i <= parts.len(),
            all == views(parts@),
            blob@ == norm_part(name@) + joined(all.take(i as int)),
        decreases parts.len() - i,
    {
        assert(all.take(i + 1).drop_last() =~= all.take(i as int));
        push_char(&mut blob, ' ');
        push_norm(&mut blob, parts[i].as_str());
        i = i + 1;
        assert(blob@ =~= norm_part(name@) + joined(all.take(i as int)));
    }
    assert(all.take(parts.len() as int) =~= all);
    Some(AppRecord {
        desktop_id,
        name,
        generic_name: generic,
        comment,
        exec_cmd: exec_line,
        icon,
        categories,
        keywords,
        nodisplay,
        desktop_path: String::from_str(path),
        search_blob: blob,
    })
}

/// Reads a desktop file's bytes (decoded leniently as UTF-8) as an
/// application record: `Malformed` when it is no ini document, no record when
/// it holds no application entry, and otherwise the record of its
/// `[Desktop Entry]` section (an absent section reads as an empty one).
pub fn parse_desktop_file(bytes: &[u8], path: &str, lang: &str) -> (r: Result<Option<AppRecord>, DesktopError>)
    ensures
        r is Err == parsed_ini(lossy_text(bytes@)).is_none(),
        r matches Ok(o) ==> {
            let sec = desktop_section(parsed_ini(lossy_text(bytes@)).unwrap());
            &&& o.is_some() == (entry(sec, "Type"@, lang@) == Some("Application"@))
            &&& o matches Some(a) ==> record_of(a, sec, path@, lang@)
        },
{
    let txt = decode_lossy(bytes);
    let ini = match load_ini(txt.as_str()) {
        Ok(i) => i,
        Err(_) => {
            return Err(DesktopError::Malformed);
        },
    };
    let sec = match section(&ini, "Desktop Entry") {
        Some(s) => s,
        None => {
            let e = no_properties();
            assert(properties_of(e) =~= Map::<Seq<char>, Seq<char>>::empty());
            e
        },
    };
    Ok(app_record_from_section(&sec, path, lang))
}

} // verus!
