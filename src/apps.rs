//! A provider over the installed applications: an index of desktop entries,
//! kept sorted by desktop id with one record per id.

use vstd::prelude::*;
use crate::desktop::AppRecord;
use crate::model::{best_first, keys_unique, field, fields_view, key_owner, lemma_key_owner, opt_text, preview_opt_view, FieldValue, FieldView, Preview, PreviewView, ResultItem};
use crate::normalize::{norm_spec, normalize_query, query_norm, starts_with_token, title_key, title_prefix};
use crate::provider::{Effect, Provider};
use crate::rank::{distinct_idx, lemma_ranked_descends, lemma_ranked_distinct, insert_pos, insert_ranked, lemma_ranked_members, ranked, top, top_hits, views, Hit};
use crate::text::{lemma_seq_lt_irrefl, lemma_seq_lt_total, lemma_seq_lt_trans, contains, is_prefix, occurs_in, seq_lt, strip_prefix, text_eq, text_lt, trim_text, trimmed, without_prefix};
use fuzzy_matcher::FuzzyMatcher;

verus! {

/// The identifier of this provider and the prefix of its keys.
pub const PROVIDER_ID: &'static str = "apps";

/// What a key of this provider starts with.
pub const KEY_PREFIX: &'static str = "apps:";

/// Most results one search returns.
pub const MAX_RESULTS: usize = 25;

/// The score of `pattern` against `choice` by the skim matcher (version 2,
/// default settings), if it matches at all.
pub uninterp spec fn skim_v2_score(choice: Seq<char>, pattern: Seq<char>) -> Option<i64>;

/// Relies on `fuzzy_matcher::skim::SkimMatcherV2::fuzzy_match` with the
/// default matcher: the score depends on the two texts alone.
#[verifier::external_body]
fn skim_score(choice: &str, pattern: &str) -> (r: Option<i64>)
    ensures
        r == skim_v2_score(choice@, pattern@),
{
    fuzzy_matcher::skim::SkimMatcherV2::default().fuzzy_match(choice, pattern)
}

/// Where a new record goes in an index sorted by desktop id.
pub open spec fn index_pos(s: Seq<AppRecord>, a: AppRecord) -> int
    decreases s.len(),
{
    if s.len() == 0 {
        0
    } else if seq_lt(a.desktop_id@, s[0].desktop_id@) {
        0
    } else {
        1 + index_pos(s.drop_first(), a)
    }
}

/// Whether some record of `s` has the desktop id `id`.
pub open spec fn has_id(s: Seq<AppRecord>, id: Seq<char>) -> bool {
    exists|i: int| 0 <= i < s.len() && (#[trigger] s[i]).desktop_id@ == id
}

/// The index built from records in the order they were found: hidden
/// records are left out, the first record of each desktop id is kept, and
/// the index is ordered by desktop id.
pub open spec fn index_of(recs: Seq<AppRecord>) -> Seq<AppRecord>
    decreases recs.len(),
{
    if recs.len() == 0 {
        recs
    } else {
        let s = index_of(recs.drop_last());
        let a = recs.last();
        if a.nodisplay || has_id(s, a.desktop_id@) {
            s
        } else {
            s.insert(index_pos(s, a), a)
        }
    }
}

/// The query the index is matched against: normalized, with a leading
/// `/apps` or else `/ap` alias taken off and what remains trimmed again.
pub open spec fn apps_query(raw: Seq<char>) -> Seq<char> {
    let q = query_norm(raw);
    match without_prefix(q, "/apps"@) {
        Some(t) => trimmed(t),
        None => match without_prefix(q, "/ap"@) {
            Some(t) => trimmed(t),
            None => q,
        },
    }
}

/// The name, generic name or comment starts with the query, in normal form.
pub open spec fn token_hit(a: AppRecord, q: Seq<char>) -> bool {
    ||| is_prefix(norm_spec(q), norm_spec(a.name@))
    ||| (a.generic_name matches Some(g) && is_prefix(norm_spec(q), norm_spec(g@)))
    ||| (a.comment matches Some(c) && is_prefix(norm_spec(q), norm_spec(c@)))
}

/// A fuzzy score in thousandths: a hundredth of the matcher's score, kept
/// between 0.1 and 0.7.
pub open spec fn fuzzy_thousandths(s: i64) -> u16 {
    if s <= 10 {
        100
    } else if s >= 70 {
        700
    } else {
        (s * 10) as u16
    }
}

/// The score in thousandths of an application for the query `q`, if it matches.
pub open spec fn app_score(a: AppRecord, q: Seq<char>) -> Option<u16> {
    if token_hit(a, q) {
        Some(1000)
    } else {
        match skim_v2_score(a.search_blob@, q) {
            Some(s) => Some(fuzzy_thousandths(s)),
            None => if occurs_in(q, a.search_blob@) {
                Some(350)
            } else {
                None
            },
        }
    }
}

/// The scored applications, in index order.
pub open spec fn app_hits(apps: Seq<AppRecord>, q: Seq<char>) -> Seq<Hit>
    decreases apps.len(),
{
    if apps.len() == 0 {
        Seq::empty()
    } else {
        let h = app_hits(apps.drop_last(), q);
        match app_score(apps.last(), q) {
            Some(s) => h.push((s, (apps.len() - 1) as usize)),
            None => h,
        }
    }
}

/// The part of each title that ties between equal scores are ordered by.
pub open spec fn title_keys(apps: Seq<AppRecord>) -> Seq<Seq<char>> {
    apps.map_values(|a: AppRecord| title_key(a.name@))
}

/// The hits a search for `raw` presents, in order: none for an empty query
/// or one that still starts with `/`.
pub open spec fn app_ranking(apps: Seq<AppRecord>, raw: Seq<char>) -> Seq<Hit> {
    matched_ranking(apps, apps_query(raw))
}

/// The hits presented for the already normalized query `q`, in order.
pub open spec fn matched_ranking(apps: Seq<AppRecord>, q: Seq<char>) -> Seq<Hit> {
    if q.len() == 0 || q[0] == '/' {
        Seq::empty()
    } else {
        top(ranked(title_keys(apps), app_hits(apps, q)), MAX_RESULTS as int)
    }
}

/// `r` is the result item for application `a` with score `score`.
pub open spec fn app_item(r: ResultItem, a: AppRecord, score: u16) -> bool {
    &&& r.key@ == KEY_PREFIX@ + a.desktop_id@
    &&& r.title@ == a.name@
    &&& r.provider_id@ == PROVIDER_ID@
    &&& r.score == score
    &&& r.extras matches Some(x) && fields_view(x@) == seq![
        ("desktopId"@, FieldView::Text(a.desktop_id@)),
        ("iconRef"@, opt_field(a.icon)),
        ("exec"@, opt_field(a.exec_cmd)),
    ]
}

/// An optional text as a payload value: the text, or null.
pub open spec fn opt_field(o: Option<String>) -> FieldView {
    match o {
        Some(s) => FieldView::Text(s@),
        None => FieldView::Null,
    }
}

/// The desktop id that a key names: the key without `apps:`, or the whole
/// key when it has no such prefix.
pub open spec fn key_id(key: Seq<char>) -> Seq<char> {
    match without_prefix(key, KEY_PREFIX@) {
        Some(t) => t,
        None => key,
    }
}

/// The first application with desktop id `id`.
pub open spec fn lookup_app(apps: Seq<AppRecord>, id: Seq<char>) -> Option<AppRecord>
    decreases apps.len(),
{
    if apps.len() == 0 {
        None
    } else if apps[0].desktop_id@ == id {
        Some(apps[0])
    } else {
        lookup_app(apps.drop_first(), id)
    }
}

/// The preview card of an application.
pub open spec fn app_card(a: AppRecord) -> PreviewView {
    (
        "card"@,
        seq![
            ("iconRef"@, opt_field(a.icon)),
            ("title"@, FieldView::Text(a.name@)),
            ("comment"@, opt_field(a.comment)),
            ("categories"@, FieldView::List(views(a.categories@))),
            ("desktopId"@, FieldView::Text(a.desktop_id@)),
            ("path"@, FieldView::Text(a.desktop_path@)),
        ],
    )
}

/// Desktop ids strictly increase along the index, so no two records share one.
pub open spec fn ids_increase(s: Seq<AppRecord>) -> bool {
    forall|i: int, j: int| 0 <= i < j < s.len() ==> seq_lt((#[trigger] s[i]).desktop_id@, (#[trigger] s[j]).desktop_id@)
}

proof fn lemma_insert_sorted(s: Seq<AppRecord>, a: AppRecord, i: int)
    requires
        ids_increase(s),
        0 <= i <= s.len(),
        forall|j: int| 0 <= j < i ==> !seq_lt(a.desktop_id@, (#[trigger] s[j]).desktop_id@),
        i == s.len() || seq_lt(a.desktop_id@, s[i].desktop_id@),
        !has_id(s, a.desktop_id@),
    ensures
        ids_increase(s.insert(i, a)),
{
    let t = s.insert(i, a);
    assert forall|x: int| 0 <= x < i implies seq_lt((#[trigger] s[x]).desktop_id@, a.desktop_id@) by {
        assert(s[x].desktop_id@ != a.desktop_id@);
        lemma_seq_lt_total(a.desktop_id@, s[x].desktop_id@);
    }
    assert forall|x: int| i <= x < s.len() implies seq_lt(a.desktop_id@, (#[trigger] s[x]).desktop_id@) by {
        if x > i {
            lemma_seq_lt_trans(a.desktop_id@, s[i].desktop_id@, s[x].desktop_id@);
        }
    }
    assert forall|x: int, y: int| 0 <= x < y < t.len() implies seq_lt((#[trigger] t[x]).desktop_id@, (#[trigger] t[y]).desktop_id@) by {
        if y < i {
            assert(t[x] == s[x] && t[y] == s[y]);
        } else if y == i {
            assert(t[x] == s[x]);
        } else if x < i {
            assert(t[x] == s[x] && t[y] == s[y - 1]);
            lemma_seq_lt_trans(s[x].desktop_id@, a.desktop_id@, s[y - 1].desktop_id@);
        } else if x == i {
            assert(t[y] == s[y - 1]);
        } else {
            assert(t[x] == s[x - 1] && t[y] == s[y - 1]);
        }
    }
}

/// The error of an action on a desktop id that the index does not hold.
#[derive(Debug)]
pub struct UnknownApp {
    pub desktop_id: String,
}

/// The applications provider.
pub struct AppsProvider {
    apps: Vec<AppRecord>,
}

proof fn lemma_index_pos(s: Seq<AppRecord>, a: AppRecord, i: int)
    requires
        0 <= i <= s.len(),
        forall|j: int| 0 <= j < i ==> !seq_lt(a.desktop_id@, (#[trigger] s[j]).desktop_id@),
        i == s.len() || seq_lt(a.desktop_id@, s[i].desktop_id@),
    ensures
        index_pos(s, a) == i,
    decreases i,
{
    if i > 0 {
        assert forall|j: int| 0 <= j < i - 1 implies !seq_lt(a.desktop_id@, (#[trigger] s.drop_first()[j]).desktop_id@) by {
            assert(s.drop_first()[j] == s[j + 1]);
        }
        lemma_index_pos(s.drop_first(), a, i - 1);
    }
}

proof fn lemma_hits_distinct(apps: Seq<AppRecord>, q: Seq<char>)
    requires
        apps.len() <= usize::MAX,
    ensures
        distinct_idx(app_hits(apps, q)),
    decreases apps.len(),
{
    if apps.len() > 0 {
        let p = apps.drop_last();
        lemma_hits_distinct(p, q);
        lemma_hits_in_range(p, q);
        let h = app_hits(p, q);
        let all = app_hits(apps, q);
        assert forall|i: int, j: int| 0 <= i < j < all.len() implies (#[trigger] all[i]).1 != (#[trigger] all[j]).1 by {
            assert(all[i] == h[i]);
            if j < h.len() {
                assert(all[j] == h[j]);
            }
        }
    }
}

proof fn lemma_hits_in_range(apps: Seq<AppRecord>, q: Seq<char>)
    requires
        apps.len() <= usize::MAX,
    ensures
        forall|i: int| 0 <= i < app_hits(apps, q).len() ==> (#[trigger] app_hits(apps, q)[i]).1 < apps.len(),
    decreases apps.len(),
{
    if apps.len() > 0 {
        let p = apps.drop_last();
        lemma_hits_in_range(p, q);
        let h = app_hits(p, q);
        assert forall|i: int| 0 <= i < app_hits(apps, q).len() implies (#[trigger] app_hits(apps, q)[i]).1 < apps.len() by {
            if i < h.len() {
                assert(app_hits(apps, q)[i] == h[i]);
            }
        }
    }
}

fn id_present(s: &Vec<AppRecord>, id: &str) -> (r: bool)
    ensures
        r == has_id(s@, id@),
{
    let mut i: usize = 0;
    while i < s.len()
        invariant
            0 <= i <= s.len(),
            forall|j: int| 0 <= j < i ==> (#[trigger] s@[j]).desktop_id@ != id@,
        decreases s.len() - i,
    {
        if text_eq(s[i].desktop_id.as_str(), id) {
            return true;
        }
        i = i + 1;
    }
    false
}

fn fuzzy_score(s: i64) -> (r: u16)
    ensures
        r == fuzzy_thousandths(s),
{
    if s <= 10 {
        100
    } else if s >= 70 {
        700
    } else {
        (s * 10) as u16
    }
}

fn score_app(a: &AppRecord, q: &str) -> (r: Option<u16>)
    ensures
        r == app_score(*a, q@),
{
    let hit = starts_with_token(a.name.as_str(), q) || match &a.generic_name {
        Some(g) => starts_with_token(g.as_str(), q),
        None => false,
    } || match &a.comment {
        Some(c) => starts_with_token(c.as_str(), q),
        None => false,
    };
    if hit {
        return Some(1000);
    }
    match skim_score(a.search_blob.as_str(), q) {
        Some(s) => Some(fuzzy_score(s)),
        None => if contains(a.search_blob.as_str(), q) {
            Some(350)
        } else {
            None
        },
    }
}

fn opt_clone(o: &Option<String>) -> (r: FieldValue)
    ensures
        r@ == opt_field(*o),
{
    opt_text(o)
}

fn clone_list(l: &Vec<String>) -> (r: Vec<String>)
    ensures
        views(r@) == views(l@),
{
    let mut r: Vec<String> = Vec::new();
    let mut i: usize = 0;
    while i < l.len()
        invariant
            0 <= i <= l.len(),
            r.len() == i,
            forall|k: int| 0 <= k < i ==> (#[trigger] r@[k])@ == l@[k]@,
        decreases l.len() - i,
    {
        r.push(l[i].clone());
        i = i + 1;
    }
    assert(views(r@) =~= views(l@));
    r
}

fn key_of(id: &str) -> (r: String)
    ensures
        r@ == KEY_PREFIX@ + id@,
{
    let mut k = String::from_str(KEY_PREFIX);
    k.append(id);
    k
}

proof fn lemma_app_key(id: Seq<char>)
    ensures
        key_owner(KEY_PREFIX@ + id) == PROVIDER_ID@,
{
    reveal_strlit("apps:");
    reveal_strlit("apps");
    assert(KEY_PREFIX@ + id =~= PROVIDER_ID@ + seq![':'] + id);
    lemma_key_owner(PROVIDER_ID@, id);
}

impl AppsProvider {
    /// The index is ordered by strictly increasing desktop id.
    #[verifier::type_invariant]
    spec fn index_sorted(&self) -> bool {
        ids_increase(self.apps@)
    }

    /// The index, in desktop-id order.
    pub closed spec fn records(&self) -> Seq<AppRecord> {
        self.apps@
    }

    /// Builds the index from the records found by a scan, in the order they
    /// were found (see `index_of`).
    pub fn new(records: Vec<AppRecord>) -> (r: Self)
        ensures
            r.records() == index_of(records@),
            ids_increase(r.records()),
    {
        let ghost orig = records@;
        let mut rest = records;
        let mut apps: Vec<AppRecord> = Vec::new();
        let ghost mut k: int = 0;
        while rest.len() > 0
            invariant
                0 <= k <= orig.len(),
                rest@ == orig.skip(k),
                apps@ == index_of(orig.take(k)),
                ids_increase(apps@),
            decreases rest.len(),
        {
            let a = rest.remove(0);
            proof {
                assert(orig.take(k + 1).drop_last() =~= orig.take(k));
                assert(orig.take(k + 1).last() == a);
                assert(rest@ =~= orig.skip(k + 1));
            }
            if !a.nodisplay && !id_present(&apps, a.desktop_id.as_str()) {
                let mut i: usize = 0;
                let mut stop = false;
                while i < apps.len() && !stop
                    invariant
                        0 <= i <= apps.len(),
                        forall|j: int| 0 <= j < i ==> !seq_lt(a.desktop_id@, (#[trigger] apps@[j]).desktop_id@),
                        stop ==> i < apps.len() && seq_lt(a.desktop_id@, apps@[i as int].desktop_id@),
                    decreases apps.len() - i + (if stop { 0int } else { 1int }),
                {
                    if text_lt(a.desktop_id.as_str(), apps[i].desktop_id.as_str()) {
                        stop = true;
                    } else {
                        i = i + 1;
                    }
                }
                proof {
                    lemma_index_pos(apps@, a, i as int);
                    lemma_insert_sorted(apps@, a, i as int);
                }
                apps.insert(i, a);
            }
            proof {
                k = k + 1;
            }
        }
        assert(orig.take(k) =~= orig);
        AppsProvider { apps }
    }

    /// `r` is what a search for the normalized query `q` returns: one item
    /// for each hit of the ranking, in its order, each routed to this provider.
    pub open spec fn matched_results(&self, q: Seq<char>, r: Seq<ResultItem>) -> bool {
        &&& r.len() == matched_ranking(self.records(), q).len()
        &&& forall|i: int|
            0 <= i < r.len() ==> {
                let h = #[trigger] matched_ranking(self.records(), q)[i];
                &&& h.1 < self.records().len()
                &&& app_item(r[i], self.records()[h.1 as int], h.0)
            }
        &&& forall|i: int|
            0 <= i < r.len() ==> {
                &&& (#[trigger] r[i]).provider_id@ == PROVIDER_ID@
                &&& key_owner(r[i].key@) == PROVIDER_ID@
            }
    }

    /// `r` is what a search for `query` returns.
    pub open spec fn search_results(&self, query: Seq<char>, r: Seq<ResultItem>) -> bool {
        self.matched_results(apps_query(query), r)
    }

    fn item_of(a: &AppRecord, score: u16) -> (r: ResultItem)
        ensures
            app_item(r, *a, score),
    {
        let extras = vec![
            field("desktopId", FieldValue::Text(a.desktop_id.clone())),
            field("iconRef", opt_clone(&a.icon)),
            field("exec", opt_clone(&a.exec_cmd)),
        ];
        assert(fields_view(extras@) =~= seq![
            ("desktopId"@, FieldView::Text(a.desktop_id@)),
            ("iconRef"@, opt_field(a.icon)),
            ("exec"@, opt_field(a.exec_cmd)),
        ]);
        ResultItem {
            key: key_of(a.desktop_id.as_str()),
            title: String::from_str(a.title()),
            provider_id: String::from_str(PROVIDER_ID),
            score,
            extras: Some(extras),
        }
    }

    /// Searches the index: applications whose name, generic name or comment
    /// starts with the query score 1, others by fuzzy match or containment;
    /// hits are presented best first (ties by title) and at most
    /// `MAX_RESULTS` are returned.
    pub fn search(&self, raw_query: &str) -> (r: Vec<ResultItem>)
        ensures
            self.search_results(raw_query@, r@),
            best_first(r@),
            keys_unique(r@),
    {
        let qn = normalize_query(raw_query);
        let q: &str = match strip_prefix(qn.as_str(), "/apps") {
            Some(t) => trim_text(t),
            None => match strip_prefix(qn.as_str(), "/ap") {
                Some(t) => trim_text(t),
                None => qn.as_str(),
            },
        };
        assert(q@ == apps_query(raw_query@));
        self.search_matched(q)
    }

    /// Searches the index for the normalized query `q` (see `app_score`):
    /// nothing for an empty query or one that starts with `/`.
    pub fn search_matched(&self, q: &str) -> (r: Vec<ResultItem>)
        ensures
            self.matched_results(q@, r@),
            best_first(r@),
            keys_unique(r@),
    {
        if q.unicode_len() == 0 || q.get_char(0) == '/' {
            return Vec::new();
        }
        let n = self.apps.len();
        let mut titles: Vec<String> = Vec::new();
        let mut i: usize = 0;
        while i < n
            invariant
                n == self.apps.len(),
                0 <= i <= n,
                titles.len() == i,
                forall|k: int| 0 <= k < i ==> (#[trigger] titles@[k])@ == title_key(self.apps@[k].name@),
            decreases n - i,
        {
            titles.push(String::from_str(title_prefix(self.apps[i].name.as_str())));
            i = i + 1;
        }
        let ghost t = title_keys(self.apps@);
        assert(views(titles@) =~= t);
        let mut hits: Vec<Hit> = Vec::new();
        i = 0;
        while i < n
            invariant
                n == self.apps.len(),
                titles.len() == n,
                views(titles@) == t,
                t == title_keys(self.apps@),
                0 <= i <= n,
                hits@ == ranked(t, app_hits(self.apps@.take(i as int), q@)),
                forall|j: int| 0 <= j < hits.len() ==> (#[trigger] hits@[j]).1 < i,
            decreases n - i,
        {
            let ghost prev = self.apps@.take(i as int);
            assert(self.apps@.take(i + 1).drop_last() =~= prev);
            match score_app(&self.apps[i], q) {
                Some(s) => {
                    let ghost h = app_hits(prev, q@);
                    assert(h.push((s, i)).drop_last() =~= h);
                    let ghost before_insert = hits@;
                    insert_ranked(&mut hits, (s, i), &titles);
                    assert forall|j: int| 0 <= j < hits.len() implies (#[trigger] hits@[j]).1 < i + 1 by {
                        let k = insert_pos(t, before_insert, (s, i));
                        if j < k {
                            assert(hits@[j] == before_insert[j]);
                        } else if j > k {
                            assert(hits@[j] == before_insert[j - 1]);
                        }
                    }
                },
                None => {},
            }
            i = i + 1;
        }
        assert(self.apps@.take(n as int) =~= self.apps@);
        let chosen = top_hits(&hits, MAX_RESULTS);
        proof {
            lemma_hits_in_range(self.apps@, q@);
            lemma_ranked_members(t, app_hits(self.apps@, q@));
        }
        let mut r: Vec<ResultItem> = Vec::new();
        let mut j: usize = 0;
        while j < chosen.len()
            invariant
                n == self.apps.len(),
                chosen@ == matched_ranking(self.apps@, q@),
                forall|k: int| 0 <= k < chosen.len() ==> (#[trigger] chosen@[k]).1 < n,
                0 <= j <= chosen.len(),
                r.len() == j,
                forall|k: int|
                    0 <= k < j ==> {
                        let h = #[trigger] chosen@[k];
                        app_item(r[k], self.apps@[h.1 as int], h.0)
                    },
                forall|k: int|
                    0 <= k < j ==> {
                        &&& (#[trigger] r[k]).provider_id@ == PROVIDER_ID@
                        &&& key_owner(r[k].key@) == PROVIDER_ID@
                    },
            decreases chosen.len() - j,
        {
            let h = chosen[j];
            let it = Self::item_of(&self.apps[h.1], h.0);
            proof {
                lemma_app_key(self.apps@[h.1 as int].desktop_id@);
            }
            r.push(it);
            j = j + 1;
        }
        proof {
            lemma_ranked_descends(t, app_hits(self.apps@, q@), MAX_RESULTS as int);
            use_type_invariant(self);
            lemma_hits_distinct(self.apps@, q@);
            lemma_ranked_distinct(t, app_hits(self.apps@, q@), MAX_RESULTS as int);
            assert forall|a: int, b: int| 0 <= a < b < r.len() implies (#[trigger] r@[a]).key@ != (#[trigger] r@[b]).key@ by {
                let ha = chosen@[a];
                let hb = chosen@[b];
                let ia = self.apps@[ha.1 as int].desktop_id@;
                let ib = self.apps@[hb.1 as int].desktop_id@;
                assert(ha.1 != hb.1);
                if ha.1 < hb.1 {
                    assert(seq_lt(ia, ib));
                } else {
                    assert(seq_lt(ib, ia));
                }
                lemma_seq_lt_irrefl(ia);
                if r@[a].key@ == r@[b].key@ {
                    assert((KEY_PREFIX@ + ia).subrange(KEY_PREFIX@.len() as int, (KEY_PREFIX@ + ia).len() as int) =~= ia);
                    assert((KEY_PREFIX@ + ib).subrange(KEY_PREFIX@.len() as int, (KEY_PREFIX@ + ib).len() as int) =~= ib);
                }
            }
            assert forall|a: int, b: int| 0 <= a < b < r.len() implies (#[trigger] r@[a]).score >= (#[trigger] r@[b]).score by {
                assert(chosen@[a].0 >= chosen@[b].0);
            }
        }
        r
    }

    fn find(&self, id: &str) -> (r: Option<usize>)
        ensures
            match r {
                Some(i) => i < self.apps.len() && lookup_app(self.apps@, id@) == Some(self.apps@[i as int]),
                None => lookup_app(self.apps@, id@).is_none(),
            },
    {
        let n = self.apps.len();
        let mut i: usize = 0;
        assert(self.apps@.skip(0) =~= self.apps@);
        while i < n
            invariant
                n == self.apps.len(),
                0 <= i <= n,
                lookup_app(self.apps@, id@) == lookup_app(self.apps@.skip(i as int), id@),
            decreases n - i,
        {
            assert(self.apps@.skip(i as int).drop_first() =~= self.apps@.skip(i + 1));
            if text_eq(self.apps[i].desktop_id.as_str(), id) {
                return Some(i);
            }
            i = i + 1;
        }
        None
    }

    /// The preview card of the application that `key` names; absent when the
    /// index does not hold it.
    pub fn preview(&self, key: &str) -> (r: Option<Preview>)
        ensures
            preview_opt_view(r) == match lookup_app(self.records(), key_id(key@)) {
                Some(a) => Some(app_card(a)),
                None => None,
            },
    {
        let id = match strip_prefix(key, KEY_PREFIX) {
            Some(t) => t,
            None => key,
        };
        match self.find(id) {
            Some(i) => {
                let a = &self.apps[i];
                let data = vec![
                    field("iconRef", opt_clone(&a.icon)),
                    field("title", FieldValue::Text(a.name.clone())),
                    field("comment", opt_clone(&a.comment)),
                    field("categories", FieldValue::List(clone_list(&a.categories))),
                    field("desktopId", FieldValue::Text(a.desktop_id.clone())),
                    field("path", FieldValue::Text(a.desktop_path.clone())),
                ];
                let p = Preview { preview_kind: String::from_str("card"), data };
                assert(p@ =~= app_card(*a));
                Some(p)
            },
            None => None,
        }
    }

    /// The desktop id to start for `key`, when the index holds it.
    pub fn execute_launch(&self, key: &str) -> (r: Result<String, UnknownApp>)
        ensures
            match r {
                Ok(id) => id@ == key_id(key@) && lookup_app(self.records(), key_id(key@)).is_some(),
                Err(e) => e.desktop_id@ == key_id(key@) && lookup_app(self.records(), key_id(key@)).is_none(),
            },
    {
        let id = match strip_prefix(key, KEY_PREFIX) {
            Some(t) => t,
            None => key,
        };
        match self.find(id) {
            Some(_) => Ok(String::from_str(id)),
            None => Err(UnknownApp { desktop_id: String::from_str(id) }),
        }
    }
}

impl Provider for AppsProvider {
    open spec fn spec_id(&self) -> Seq<char> {
        PROVIDER_ID@
    }

    open spec fn inv(&self) -> bool {
        true
    }

    open spec fn spec_preview(&self, key: Seq<char>) -> Option<PreviewView> {
        match lookup_app(self.records(), key_id(key)) {
            Some(a) => Some(app_card(a)),
            None => None,
        }
    }

    fn id(&self) -> (r: &str) {
        PROVIDER_ID
    }

    fn search(&self, query: &str) -> (r: Vec<ResultItem>) {
        let r = self.search(query);
        assert(forall|i: int| 0 <= i < r.len() ==> (#[trigger] r@[i]).provider_id@ == PROVIDER_ID@);
        r
    }

    fn preview(&self, key: &str) -> (r: Option<Preview>) {
        self.preview(key)
    }

    /// `launch` asks for the application that the key names to be started;
    /// any other action, or a key the index does not hold, is refused.
    fn execute(&self, action: &str, key: &str) -> (r: Effect)
        ensures
            (action@ == "launch"@ && lookup_app(self.records(), key_id(key@)).is_some()) ==> (r matches Effect::Launch(id) && id@ == key_id(key@)),
            !(action@ == "launch"@ && lookup_app(self.records(), key_id(key@)).is_some()) ==> r == Effect::Done(false),
    {
        if text_eq(action, "launch") {
            match self.execute_launch(key) {
                Ok(id) => Effect::Launch(id),
                Err(_) => Effect::Done(false),
            }
        } else {
            Effect::Done(false)
        }
    }
}

} // verus!
