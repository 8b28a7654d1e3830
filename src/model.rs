//! The data exchanged between the engine, its providers and its clients.

use vstd::prelude::*;

verus! {

/// The protocol compatibility tag carried by every envelope.
pub const API_VERSION: &'static str = "1.0";

/// A versioned wrapper around every request, response and event payload.
pub struct Envelope<T> {
    pub v: String,
    pub data: T,
}

impl<T> Envelope<T> {
    /// Wraps `data` under the current protocol version.
    pub fn wrap(data: T) -> (r: Self)
        ensures
            r.v@ == API_VERSION@,
            r.data == data,
    {
        Envelope { v: String::from_str(API_VERSION), data }
    }
}

/// What the command registry made of a line of input.
pub struct ResolvedCommand {
    pub matched: bool,
    pub provider_id: Option<String>,
    pub command_id: Option<String>,
    pub intent: Option<String>,
    pub reason: Option<String>,
}

impl ResolvedCommand {
    /// An unmatched resolution carries no optional field; a matched one names
    /// both its provider and its command.
    pub open spec fn wf(&self) -> bool {
        if self.matched {
            self.provider_id.is_some() && self.command_id.is_some()
        } else {
            self.provider_id.is_none() && self.command_id.is_none() && self.intent.is_none()
                && self.reason.is_none()
        }
    }
}

/// A value in the structured payload of a result or a preview.
pub enum FieldValue {
    Null,
    Text(String),
    List(Vec<String>),
}

/// One named entry of a structured payload.
pub struct Field {
    pub name: String,
    pub value: FieldValue,
}

/// Builds a field from its name and value.
pub fn field(name: &str, value: FieldValue) -> (r: Field)
    ensures
        r.name@ == name@,
        r.value == value,
{
    Field { name: String::from_str(name), value }
}

/// A text field, or a null one when the text is absent.
pub fn opt_text(v: &Option<String>) -> (r: FieldValue)
    ensures
        match v {
            Some(s) => r matches FieldValue::Text(t) && t@ == s@,
            None => r is Null,
        },
{
    match v {
        Some(s) => FieldValue::Text(s.clone()),
        None => FieldValue::Null,
    }
}

/// A payload value as the contracts see it.
pub enum FieldView {
    Null,
    Text(Seq<char>),
    List(Seq<Seq<char>>),
}

impl View for FieldValue {
    type V = FieldView;

    open spec fn view(&self) -> FieldView {
        match self {
            FieldValue::Null => FieldView::Null,
            FieldValue::Text(t) => FieldView::Text(t@),
            FieldValue::List(l) => FieldView::List(l@.map_values(|x: String| x@)),
        }
    }
}

impl View for Field {
    type V = (Seq<char>, FieldView);

    open spec fn view(&self) -> (Seq<char>, FieldView) {
        (self.name@, self.value@)
    }
}

/// The entries of a payload as the contracts see them.
pub open spec fn fields_view(f: Seq<Field>) -> Seq<(Seq<char>, FieldView)> {
    f.map_values(|x: Field| x@)
}

/// The provider that a key routes to: the part before its first `:`, or the
/// whole key when it holds none.
pub open spec fn key_owner(k: Seq<char>) -> Seq<char>
    decreases k.len(),
{
    if k.len() == 0 {
        k
    } else if k[0] == ':' {
        Seq::empty()
    } else {
        seq![k[0]] + key_owner(k.drop_first())
    }
}

/// A key made of an id without `:`, a `:` and any local part routes to that id.
pub proof fn lemma_key_owner(id: Seq<char>, local: Seq<char>)
    requires
        forall|i: int| 0 <= i < id.len() ==> id[i] != ':',
    ensures
        key_owner(id + seq![':'] + local) == id,
    decreases id.len(),
{
    let k = id + seq![':'] + local;
    if id.len() == 0 {
        assert(k[0] == ':');
    } else {
        lemma_key_owner(id.drop_first(), local);
        assert(k.drop_first() =~= id.drop_first() + seq![':'] + local);
        assert(id =~= seq![id[0]] + id.drop_first());
    }
}

/// The provider part of `key`: what comes before its first `:`.
pub fn key_owner_of(key: &str) -> (r: String)
    ensures
        r@ == key_owner(key@),
{
    let n = key.unicode_len();
    let mut i: usize = 0;
    let mut stop = false;
    while i < n && !stop
        invariant
            n == key@.len(),
            0 <= i <= n,
            forall|j: int| 0 <= j < i ==> key@[j] != ':',
            stop ==> i < n && key@[i as int] == ':',
        decreases n - i + (if stop { 0int } else { 1int }),
    {
        if key.get_char(i) == ':' {
            stop = true;
        } else {
            i = i + 1;
        }
    }
    let r = key.substring_char(0, i);
    proof {
        lemma_owner_upto(key@, i as int);
    }
    String::from_str(r)
}

proof fn lemma_owner_upto(k: Seq<char>, i: int)
    requires
        0 <= i <= k.len(),
        forall|j: int| 0 <= j < i ==> k[j] != ':',
        i == k.len() || k[i] == ':',
    ensures
        key_owner(k) == k.subrange(0, i),
    decreases i,
{
    if i > 0 {
        lemma_owner_upto(k.drop_first(), i - 1);
        assert(k.subrange(0, i) =~= seq![k[0]] + k.drop_first().subrange(0, i - 1));
    } else if k.len() > 0 {
        assert(k.subrange(0, 0) =~= Seq::<char>::empty());
    } else {
        assert(k.subrange(0, 0) =~= k);
    }
}

/// One search hit. `key` is `"<provider_id>:<local id>"`; `score` is the
/// relevance in thousandths, from 0 to 1000.
pub struct ResultItem {
    pub key: String,
    pub title: String,
    pub provider_id: String,
    pub score: u16,
    pub extras: Option<Vec<Field>>,
}

/// Results are presented best first: scores never increase along them.
pub open spec fn best_first(r: Seq<ResultItem>) -> bool {
    forall|i: int, j: int| 0 <= i < j < r.len() ==> (#[trigger] r[i]).score >= (#[trigger] r[j]).score
}

/// No two results share a key.
pub open spec fn keys_unique(r: Seq<ResultItem>) -> bool {
    forall|i: int, j: int| 0 <= i < j < r.len() ==> (#[trigger] r[i]).key@ != (#[trigger] r[j]).key@
}

/// An incremental update of a result list.
pub enum ResultsBatch {
    Reset { items: Vec<ResultItem> },
    Insert { at: usize, items: Vec<ResultItem> },
    End,
}

/// The detail shown for a selected result.
pub struct Preview {
    pub preview_kind: String,
    pub data: Vec<Field>,
}

/// A preview as the contracts see it: its kind and its entries.
pub type PreviewView = (Seq<char>, Seq<(Seq<char>, FieldView)>);

impl View for Preview {
    type V = PreviewView;

    open spec fn view(&self) -> PreviewView {
        (self.preview_kind@, fields_view(self.data@))
    }
}

/// An optional preview as the contracts see it.
pub open spec fn preview_opt_view(p: Option<Preview>) -> Option<PreviewView> {
    match p {
        Some(x) => Some(x@),
        None => None,
    }
}

/// The terminal result of an execute request: `status` is `"ok"` or `"error"`.
pub struct Outcome {
    pub status: String,
    pub message: Option<String>,
}

} // verus!
