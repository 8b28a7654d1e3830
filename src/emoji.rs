//! A provider over a small bundled catalog of emoji.

use vstd::prelude::*;
use crate::model::{best_first, keys_unique, 
    field, fields_view, key_owner, lemma_key_owner, preview_opt_view, FieldValue, FieldView,
    Preview, PreviewView, ResultItem,
};
use crate::provider::{Effect, Provider};
use crate::rank::{distinct_idx, lemma_ranked_descends, lemma_ranked_distinct, insert_pos, insert_ranked, lemma_ranked_members, ranked, top, top_hits, views, Hit};
use crate::text::{
    contains, is_prefix, lower_of, lowercase, occurs_in, starts_with, strip_prefix, text_eq,
    trim_text, trimmed, without_prefix,
};

verus! {

/// The identifier of this provider and the prefix of its keys.
pub const PROVIDER_ID: &'static str = "emoji";

/// Most results one search returns.
pub const MAX_RESULTS: usize = 20;

/// One catalog entry.
pub struct EmojiRec {
    pub key: String,
    pub glyph: String,
    pub name: String,
    pub shortcodes: Vec<String>,
    pub keywords: Vec<String>,
}

/// The emoji provider: an immutable catalog.
pub struct EmojiProvider {
    data: Vec<EmojiRec>,
}

/// Text as matching sees it: trimmed, then in lower case.
pub open spec fn normalized(s: Seq<char>) -> Seq<char> {
    lower_of(trimmed(s))
}

/// The query that the catalog is matched against: normalized, with a leading
/// `/emoji` or else `/em` alias taken off and what remains trimmed again.
pub open spec fn search_text(query: Seq<char>) -> Seq<char> {
    let q = normalized(query);
    match without_prefix(q, "/emoji"@) {
        Some(t) => trimmed(t),
        None => match without_prefix(q, "/em"@) {
            Some(t) => trimmed(t),
            None => q,
        },
    }
}

/// How a catalog text is compared with the query.
#[derive(Clone, Copy)]
pub enum Match {
    Exact,
    Prefix,
    Infix,
}

/// Whether the catalog text `s` matches the query `q` in the way `m` asks.
pub open spec fn match_spec(m: Match, s: Seq<char>, q: Seq<char>) -> bool {
    match m {
        Match::Exact => normalized(s) == q,
        Match::Prefix => is_prefix(q, normalized(s)),
        Match::Infix => occurs_in(q, normalized(s)),
    }
}

/// Whether some text of `list` matches the query `q` in the way `m` asks.
pub open spec fn any_match(m: Match, list: Seq<String>, q: Seq<char>) -> bool {
    exists|i: int| 0 <= i < list.len() && match_spec(m, #[trigger] list[i]@, q)
}

/// The score in thousandths of one entry for the query `q`, if it matches:
/// every entry for an empty query, then an exact shortcode, then a name or
/// keyword that starts with the query, then one that contains it.
pub open spec fn emoji_score(rec: EmojiRec, q: Seq<char>) -> Option<u16> {
    if q.len() == 0 {
        Some(100)
    } else if any_match(Match::Exact, rec.shortcodes@, q) {
        Some(1000)
    } else if match_spec(Match::Prefix, rec.name@, q) || any_match(Match::Prefix, rec.keywords@, q) {
        Some(800)
    } else if match_spec(Match::Infix, rec.name@, q) || any_match(Match::Infix, rec.keywords@, q) {
        Some(400)
    } else {
        None
    }
}

/// The scored entries, in catalog order.
pub open spec fn emoji_hits(data: Seq<EmojiRec>, q: Seq<char>) -> Seq<Hit>
    decreases data.len(),
{
    if data.len() == 0 {
        Seq::empty()
    } else {
        let h = emoji_hits(data.drop_last(), q);
        match emoji_score(data.last(), q) {
            Some(s) => h.push((s, (data.len() - 1) as usize)),
            None => h,
        }
    }
}

/// The names of the entries, which ties between equal scores are ordered by.
pub open spec fn names(data: Seq<EmojiRec>) -> Seq<Seq<char>> {
    data.map_values(|r: EmojiRec| r.name@)
}

/// The hits presented for the already normalized query `q`, in order.
pub open spec fn matched_ranking(data: Seq<EmojiRec>, q: Seq<char>) -> Seq<Hit> {
    top(ranked(names(data), emoji_hits(data, q)), MAX_RESULTS as int)
}

/// The hits a search for `query` presents, in order.
pub open spec fn emoji_ranking(data: Seq<EmojiRec>, query: Seq<char>) -> Seq<Hit> {
    matched_ranking(data, search_text(query))
}

/// The first text of the list, or null when it is empty.
pub open spec fn first_or_null(l: Seq<String>) -> FieldView {
    if l.len() > 0 {
        FieldView::Text(l[0]@)
    } else {
        FieldView::Null
    }
}

/// `r` is the result item for entry `rec` with score `score`.
pub open spec fn emoji_item(r: ResultItem, rec: EmojiRec, score: u16) -> bool {
    &&& r.key@ == rec.key@
    &&& r.title@ == rec.name@
    &&& r.provider_id@ == PROVIDER_ID@
    &&& r.score == score
    &&& r.extras matches Some(x) && fields_view(x@) == seq![
        ("glyph"@, FieldView::Text(rec.glyph@)),
        ("shortcodes"@, first_or_null(rec.shortcodes@)),
    ]
}

/// The first entry with key `key`.
pub open spec fn lookup(data: Seq<EmojiRec>, key: Seq<char>) -> Option<EmojiRec>
    decreases data.len(),
{
    if data.len() == 0 {
        None
    } else if data[0].key@ == key {
        Some(data[0])
    } else {
        lookup(data.drop_first(), key)
    }
}

/// The preview card of an entry.
pub open spec fn card_of(rec: EmojiRec) -> PreviewView {
    (
        "card"@,
        seq![
            ("glyph"@, FieldView::Text(rec.glyph@)),
            ("title"@, FieldView::Text(rec.name@)),
            ("shortcodes"@, first_or_null(rec.shortcodes@)),
            ("keywords"@, FieldView::List(views(rec.keywords@))),
        ],
    )
}

/// Normalizes a query: trimmed, then in lower case.
pub fn normalize_query(query: &str) -> (r: String)
    ensures
        r@ == normalized(query@),
{
    lowercase(trim_text(query))
}

/// Normalizes a catalog text: trimmed, then in lower case.
pub fn normalize_string(s: &str) -> (r: String)
    ensures
        r@ == normalized(s@),
{
    lowercase(trim_text(s))
}

/// Whether the normalized `haystack` starts with `needle`.
pub fn starts_with_normalized(haystack: &str, needle: &str) -> (r: bool)
    ensures
        r == is_prefix(needle@, normalized(haystack@)),
{
    let h = normalize_string(haystack);
    starts_with(h.as_str(), needle)
}

/// Whether `needle` occurs in the normalized `haystack`.
pub fn contains_normalized(haystack: &str, needle: &str) -> (r: bool)
    ensures
        r == occurs_in(needle@, normalized(haystack@)),
{
    let h = normalize_string(haystack);
    contains(h.as_str(), needle)
}

fn matches_one(m: Match, s: &str, q: &str) -> (r: bool)
    ensures
        r == match_spec(m, s@, q@),
{
    match m {
        Match::Exact => {
            let n = normalize_string(s);
            text_eq(n.as_str(), q)
        },
        Match::Prefix => starts_with_normalized(s, q),
        Match::Infix => contains_normalized(s, q),
    }
}

fn any_matches(m: Match, list: &Vec<String>, q: &str) -> (r: bool)
    ensures
        r == any_match(m, list@, q@),
{
    let mut i: usize = 0;
    while i < list.len()
        invariant
            0 <= i <= list.len(),
            forall|j: int| 0 <= j < i ==> !match_spec(m, #[trigger] list@[j]@, q@),
        decreases list.len() - i,
    {
        if matches_one(m, list[i].as_str(), q) {
            return true;
        }
        i = i + 1;
    }
    false
}

fn score_of(rec: &EmojiRec, q: &str) -> (r: Option<u16>)
    ensures
        r == emoji_score(*rec, q@),
{
    if q.unicode_len() == 0 {
        Some(100)
    } else if any_matches(Match::Exact, &rec.shortcodes, q) {
        Some(1000)
    } else if matches_one(Match::Prefix, rec.name.as_str(), q) || any_matches(
        Match::Prefix,
        &rec.keywords,
        q,
    ) {
        Some(800)
    } else if matches_one(Match::Infix, rec.name.as_str(), q) || any_matches(
        Match::Infix,
        &rec.keywords,
        q,
    ) {
        Some(400)
    } else {
        None
    }
}

fn first_field(l: &Vec<String>) -> (r: FieldValue)
    ensures
        r@ == first_or_null(l@),
{
    if l.len() > 0 {
        FieldValue::Text(l[0].clone())
    } else {
        FieldValue::Null
    }
}

fn clone_all(l: &Vec<String>) -> (r: Vec<String>)
    ensures
        views(r@) == views(l@),
{
    let mut r: Vec<String> = Vec::new();
    let mut i: usize = 0;
    while i < l.len()
        invariant
            0 <= i <= l.len(),
            r.len() == i,
            forall|k: int| 0 <= k < i ==> (#[trigger] r@[k])@ == l@[k]@,
        decreases l.len() - i,
    {
        r.push(l[i].clone());
        i = i + 1;
    }
    assert(views(r@) =~= views(l@));
    r
}

proof fn lemma_hits_distinct(data: Seq<EmojiRec>, q: Seq<char>)
    requires
        data.len() <= usize::MAX,
    ensures
        distinct_idx(emoji_hits(data, q)),
    decreases data.len(),
{
    if data.len() > 0 {
        let p = data.drop_last();
        lemma_hits_distinct(p, q);
        lemma_hits_in_range(p, q);
        let h = emoji_hits(p, q);
        let all = emoji_hits(data, q);
        assert forall|i: int, j: int| 0 <= i < j < all.len() implies (#[trigger] all[i]).1 != (#[trigger] all[j]).1 by {
            assert(all[i] == h[i]);
            if j < h.len() {
                assert(all[j] == h[j]);
            }
        }
    }
}

proof fn lemma_hits_in_range(data: Seq<EmojiRec>, q: Seq<char>)
    requires
        data.len() <= usize::MAX,
    ensures
        forall|i: int| 0 <= i < emoji_hits(data, q).len() ==> (#[trigger] emoji_hits(data, q)[i]).1 < data.len(),
    decreases data.len(),
{
    if data.len() > 0 {
        let p = data.drop_last();
        lemma_hits_in_range(p, q);
        let h = emoji_hits(p, q);
        assert forall|i: int| 0 <= i < emoji_hits(data, q).len() implies (#[trigger] emoji_hits(data, q)[i]).1 < data.len() by {
            if i < h.len() {
                assert(emoji_hits(data, q)[i] == h[i]);
            }
        }
    }
}

fn text(s: &str) -> (r: String)
    ensures
        r@ == s@,
{
    String::from_str(s)
}

fn record(key: &str, glyph: &str, name: &str, shortcodes: Vec<String>, keywords: Vec<String>) -> (r: EmojiRec)
    ensures
        r.key@ == key@,
        r.glyph@ == glyph@,
        r.name@ == name@,
        r.shortcodes == shortcodes,
        r.keywords == keywords,
{
    EmojiRec { key: text(key), glyph: text(glyph), name: text(name), shortcodes, keywords }
}

proof fn lemma_catalog_key(local: &str, key: &str)
    requires
        key@ == PROVIDER_ID@ + seq![':'] + local@,
    ensures
        key_owner(key@) == PROVIDER_ID@,
{
    reveal_strlit("emoji");
    lemma_key_owner(PROVIDER_ID@, local@);
}

/// No two entries share a key.
pub open spec fn keys_distinct(data: Seq<EmojiRec>) -> bool {
    forall|i: int, j: int| 0 <= i < j < data.len() ==> (#[trigger] data[i]).key@ != (#[trigger] data[j]).key@
}

/// The entry `r` holds exactly the given key, glyph, name, shortcodes and keywords.
pub open spec fn entry_is(
    r: EmojiRec,
    key: Seq<char>,
    glyph: Seq<char>,
    name: Seq<char>,
    shortcodes: Seq<Seq<char>>,
    keywords: Seq<Seq<char>>,
) -> bool {
    &&& r.key@ == key
    &&& r.glyph@ == glyph
    &&& r.name@ == name
    &&& views(r.shortcodes@) == shortcodes
    &&& views(r.keywords@) == keywords
}

/// The provider holds the bundled catalog, in this order.
pub open spec fn bundled_catalog(p: EmojiProvider) -> bool {
    let d = p.records();
    &&& d.len() == 3
    &&& entry_is(
        d[0],
        "emoji:joy"@,
        "\u{1F602}"@,
        "Face with Tears of Joy"@,
        seq!["joy"@, "lol"@],
        seq!["laugh"@, "happy"@, "tears"@],
    )
    &&& entry_is(
        d[1],
        "emoji:smile"@,
        "\u{1F642}"@,
        "Slightly Smiling Face"@,
        seq!["slight_smile"@],
        seq!["smile"@, "happy"@],
    )
    &&& entry_is(
        d[2],
        "emoji:grin"@,
        "\u{1F601}"@,
        "Beaming Face with Smiling Eyes"@,
        seq!["grin"@],
        seq!["grin"@, "smile"@, "happy"@, "teeth"@],
    )
}

impl EmojiProvider {
    /// Every key of the catalog routes to this provider.
    pub closed spec fn wf(&self) -> bool {
        &&& forall|i: int| 0 <= i < self.data.len() ==> key_owner(#[trigger] self.data[i].key@) == PROVIDER_ID@
        &&& keys_distinct(self.data@)
    }

    /// The catalog entries.
    pub closed spec fn records(&self) -> Seq<EmojiRec> {
        self.data@
    }

    /// Builds the provider over its bundled catalog.
    pub fn new() -> (r: Self)
        ensures
            r.wf(),
            bundled_catalog(r),
    {
        let joy = record(
            "emoji:joy",
            "\u{1F602}",
            "Face with Tears of Joy",
            vec![text("joy"), text("lol")],
            vec![text("laugh"), text("happy"), text("tears")],
        );
        let smile = record(
            "emoji:smile",
            "\u{1F642}",
            "Slightly Smiling Face",
            vec![text("slight_smile")],
            vec![text("smile"), text("happy")],
        );
        let grin = record(
            "emoji:grin",
            "\u{1F601}",
            "Beaming Face with Smiling Eyes",
            vec![text("grin")],
            vec![text("grin"), text("smile"), text("happy"), text("teeth")],
        );
        proof {
            reveal_strlit("emoji:joy");
            reveal_strlit("emoji:smile");
            reveal_strlit("emoji:grin");
            reveal_strlit("joy");
            reveal_strlit("smile");
            reveal_strlit("grin");
            reveal_strlit("emoji");
            assert("emoji:joy"@ =~= PROVIDER_ID@ + seq![':'] + "joy"@);
            assert("emoji:smile"@ =~= PROVIDER_ID@ + seq![':'] + "smile"@);
            assert("emoji:grin"@ =~= PROVIDER_ID@ + seq![':'] + "grin"@);
            lemma_catalog_key("joy", "emoji:joy");
            lemma_catalog_key("smile", "emoji:smile");
            lemma_catalog_key("grin", "emoji:grin");
            assert("emoji:joy"@[6] != "emoji:smile"@[6]);
            assert("emoji:joy"@[6] != "emoji:grin"@[6]);
            assert("emoji:smile"@[6] != "emoji:grin"@[6]);
            assert(views(joy.shortcodes@) =~= seq!["joy"@, "lol"@]);
            assert(views(joy.keywords@) =~= seq!["laugh"@, "happy"@, "tears"@]);
            assert(views(smile.shortcodes@) =~= seq!["slight_smile"@]);
            assert(views(smile.keywords@) =~= seq!["smile"@, "happy"@]);
            assert(views(grin.shortcodes@) =~= seq!["grin"@]);
            assert(views(grin.keywords@) =~= seq!["grin"@, "smile"@, "happy"@, "teeth"@]);
        }
        EmojiProvider { data: vec![joy, smile, grin] }
    }

    /// `r` is what a search for the normalized query `q` returns: one item
    /// for each hit of the ranking, in its order, each routed to this provider.
    pub open spec fn matched_results(&self, q: Seq<char>, r: Seq<ResultItem>) -> bool {
        &&& r.len() == matched_ranking(self.records(), q).len()
        &&& forall|i: int|
            0 <= i < r.len() ==> {
                let h = #[trigger] matched_ranking(self.records(), q)[i];
                &&& h.1 < self.records().len()
                &&& emoji_item(r[i], self.records()[h.1 as int], h.0)
            }
        &&& forall|i: int|
            0 <= i < r.len() ==> {
                &&& (#[trigger] r[i]).provider_id@ == PROVIDER_ID@
                &&& key_owner(r[i].key@) == PROVIDER_ID@
            }
    }

    /// `r` is what a search for `query` returns.
    pub open spec fn search_results(&self, query: Seq<char>, r: Seq<ResultItem>) -> bool {
        self.matched_results(search_text(query), r)
    }

    fn item_of(rec: &EmojiRec, score: u16) -> (r: ResultItem)
        ensures
            emoji_item(r, *rec, score),
    {
        let extras = vec![
            field("glyph", FieldValue::Text(rec.glyph.clone())),
            field("shortcodes", first_field(&rec.shortcodes)),
        ];
        assert(fields_view(extras@) =~= seq![
            ("glyph"@, FieldView::Text(rec.glyph@)),
            ("shortcodes"@, first_or_null(rec.shortcodes@)),
        ]);
        ResultItem {
            key: rec.key.clone(),
            title: rec.name.clone(),
            provider_id: text(PROVIDER_ID),
            score,
            extras: Some(extras),
        }
    }

    /// Searches the catalog: every entry that matches the query is scored,
    /// the hits are presented best first (ties by title), and at most
    /// `MAX_RESULTS` are returned.
    pub fn search(&self, query: &str) -> (r: Vec<ResultItem>)
        requires
            self.wf(),
        ensures
            self.search_results(query@, r@),
            best_first(r@),
            keys_unique(r@),
    {
        let q = normalize_query(query);
        let q2: &str = match strip_prefix(q.as_str(), "/emoji") {
            Some(t) => trim_text(t),
            None => match strip_prefix(q.as_str(), "/em") {
                Some(t) => trim_text(t),
                None => q.as_str(),
            },
        };
        assert(q2@ == search_text(query@));
        self.search_matched(q2)
    }

    /// Searches the catalog for the normalized query `q` (see `emoji_score`).
    pub fn search_matched(&self, q: &str) -> (r: Vec<ResultItem>)
        requires
            self.wf(),
        ensures
            self.matched_results(q@, r@),
            best_first(r@),
            keys_unique(r@),
    {
        let n = self.data.len();
        let mut titles: Vec<String> = Vec::new();
        let mut i: usize = 0;
        while i < n
            invariant
                n == self.data.len(),
                0 <= i <= n,
                titles.len() == i,
                forall|k: int| 0 <= k < i ==> (#[trigger] titles@[k])@ == self.data@[k].name@,
            decreases n - i,
        {
            titles.push(self.data[i].name.clone());
            i = i + 1;
        }
        let ghost t = names(self.data@);
        assert(views(titles@) =~= t);
        let mut hits: Vec<Hit> = Vec::new();
        i = 0;
        while i < n
            invariant
                n == self.data.len(),
                titles.len() == n,
                views(titles@) == t,
                t == names(self.data@),
                0 <= i <= n,
                hits@ == ranked(t, emoji_hits(self.data@.take(i as int), q@)),
                forall|j: int| 0 <= j < hits.len() ==> (#[trigger] hits@[j]).1 < i,
            decreases n - i,
        {
            let ghost prev = self.data@.take(i as int);
            assert(self.data@.take(i + 1).drop_last() =~= prev);
            match score_of(&self.data[i], q) {
                Some(s) => {
                    let ghost h = emoji_hits(prev, q@);
                    assert(h.push((s, i)).drop_last() =~= h);
                    let ghost before_insert = hits@;
                    insert_ranked(&mut hits, (s, i), &titles);
                    assert forall|j: int| 0 <= j < hits.len() implies (#[trigger] hits@[j]).1 < i + 1 by {
                        let k = insert_pos(t, before_insert, (s, i));
                        if j < k {
                            assert(hits@[j] == before_insert[j]);
                        } else if j > k {
                            assert(hits@[j] == before_insert[j - 1]);
                        }
                    }
                },
                None => {},
            }
            i = i + 1;
        }
        assert(self.data@.take(n as int) =~= self.data@);
        let chosen = top_hits(&hits, MAX_RESULTS);
        proof {
            lemma_hits_in_range(self.data@, q@);
            lemma_ranked_members(t, emoji_hits(self.data@, q@));
        }
        let mut r: Vec<ResultItem> = Vec::new();
        let mut j: usize = 0;
        while j < chosen.len()
            invariant
                n == self.data.len(),
                self.wf(),
                chosen@ == matched_ranking(self.data@, q@),
                forall|k: int| 0 <= k < chosen.len() ==> (#[trigger] chosen@[k]).1 < n,
                0 <= j <= chosen.len(),
                r.len() == j,
                forall|k: int|
                    0 <= k < j ==> {
                        let h = #[trigger] chosen@[k];
                        emoji_item(r[k], self.data@[h.1 as int], h.0)
                    },
                forall|k: int|
                    0 <= k < j ==> {
                        &&& (#[trigger] r[k]).provider_id@ == PROVIDER_ID@
                        &&& key_owner(r[k].key@) == PROVIDER_ID@
                    },
            decreases chosen.len() - j,
        {
            let h = chosen[j];
            let it = Self::item_of(&self.data[h.1], h.0);
            r.push(it);
            j = j + 1;
        }
        proof {
            lemma_ranked_descends(t, emoji_hits(self.data@, q@), MAX_RESULTS as int);
            lemma_hits_distinct(self.data@, q@);
            lemma_ranked_distinct(t, emoji_hits(self.data@, q@), MAX_RESULTS as int);
            assert forall|a: int, b: int| 0 <= a < b < r.len() implies (#[trigger] r@[a]).key@ != (#[trigger] r@[b]).key@ by {
                let ha = chosen@[a];
                let hb = chosen@[b];
                assert(ha.1 != hb.1);
                if ha.1 < hb.1 {
                    assert(self.data@[ha.1 as int].key@ != self.data@[hb.1 as int].key@);
                } else {
                    assert(self.data@[hb.1 as int].key@ != self.data@[ha.1 as int].key@);
                }
            }
            assert forall|a: int, b: int| 0 <= a < b < r.len() implies (#[trigger] r@[a]).score >= (#[trigger] r@[b]).score by {
                assert(chosen@[a].0 >= chosen@[b].0);
            }
        }
        r
    }

    /// The preview card of the entry with key `key`; absent when no entry has it.
    pub fn preview(&self, key: &str) -> (r: Option<Preview>)
        ensures
            preview_opt_view(r) == match lookup(self.records(), key@) {
                Some(rec) => Some(card_of(rec)),
                None => None,
            },
    {
        let n = self.data.len();
        let mut i: usize = 0;
        assert(self.data@.skip(0) =~= self.data@);
        while i < n
            invariant
                n == self.data.len(),
                0 <= i <= n,
                lookup(self.data@, key@) == lookup(self.data@.skip(i as int), key@),
            decreases n - i,
        {
            assert(self.data@.skip(i as int).drop_first() =~= self.data@.skip(i + 1));
            let rec = &self.data[i];
            if text_eq(rec.key.as_str(), key) {
                let data = vec![
                    field("glyph", FieldValue::Text(rec.glyph.clone())),
                    field("title", FieldValue::Text(rec.name.clone())),
                    field("shortcodes", first_field(&rec.shortcodes)),
                    field("keywords", FieldValue::List(clone_all(&rec.keywords))),
                ];
                let p = Preview { preview_kind: text("card"), data };
                assert(p@ =~= card_of(*rec));
                return Some(p);
            }
            i = i + 1;
        }
        None
    }

    /// Copying an entry's glyph succeeds exactly when the key is in the catalog.
    pub fn execute_copy_glyph(&self, key: &str) -> (r: Result<bool, UnknownEmoji>)
        ensures
            match r {
                Ok(b) => b && lookup(self.records(), key@).is_some(),
                Err(e) => e.key@ == key@ && lookup(self.records(), key@).is_none(),
            },
    {
        let n = self.data.len();
        let mut i: usize = 0;
        assert(self.data@.skip(0) =~= self.data@);
        while i < n
            invariant
                n == self.data.len(),
                0 <= i <= n,
                lookup(self.data@, key@) == lookup(self.data@.skip(i as int), key@),
            decreases n - i,
        {
            assert(self.data@.skip(i as int).drop_first() =~= self.data@.skip(i + 1));
            if text_eq(self.data[i].key.as_str(), key) {
                return Ok(true);
            }
            i = i + 1;
        }
        Err(UnknownEmoji { key: text(key) })
    }
}

/// The error of an action on a key that is not in the catalog.
#[derive(Debug)]
pub struct UnknownEmoji {
    pub key: String,
}

impl Provider for EmojiProvider {
    open spec fn spec_id(&self) -> Seq<char> {
        PROVIDER_ID@
    }

    open spec fn inv(&self) -> bool {
        self.wf()
    }

    open spec fn spec_preview(&self, key: Seq<char>) -> Option<PreviewView> {
        match lookup(self.records(), key) {
            Some(rec) => Some(card_of(rec)),
            None => None,
        }
    }

    fn id(&self) -> (r: &str) {
        PROVIDER_ID
    }

    fn search(&self, query: &str) -> (r: Vec<ResultItem>) {
        let r = self.search(query);
        assert(forall|i: int| 0 <= i < r.len() ==> (#[trigger] r@[i]).provider_id@ == PROVIDER_ID@);
        r
    }

    fn preview(&self, key: &str) -> (r: Option<Preview>) {
        self.preview(key)
    }

    /// `copy_glyph` and `copy_shortcode` succeed on a key of the catalog;
    /// anything else is refused.
    fn execute(&self, action: &str, key: &str) -> (r: Effect)
        ensures
            r == Effect::Done(
                (action@ == "copy_glyph"@ || action@ == "copy_shortcode"@) && lookup(
                    self.records(),
                    key@,
                ).is_some(),
            ),
    {
        if text_eq(action, "copy_glyph") || text_eq(action, "copy_shortcode") {
            match self.execute_copy_glyph(key) {
                Ok(b) => Effect::Done(b),
                Err(_) => Effect::Done(false),
            }
        } else {
            Effect::Done(false)
        }
    }
}

} // verus!
