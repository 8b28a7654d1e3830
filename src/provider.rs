//! The capability set that every data source offers the engine.

use vstd::prelude::*;
use crate::model::{key_owner, preview_opt_view, Preview, PreviewView, ResultItem};

verus! {

/// What an execute request on a provider comes to.
pub enum Effect {
    /// The action was carried out (`true`), or the action or the key is
    /// unknown to the provider (`false`).
    Done(bool),
    /// The application with this desktop id is to be started; whether that
    /// succeeds is decided by whoever starts it.
    Launch(String),
}

/// A data source: it names itself, searches, previews and executes actions
/// on the results it produced.
pub trait Provider {
    /// The provider's identifier, as the contracts see it.
    spec fn spec_id(&self) -> Seq<char>;

    /// The provider's internal consistency.
    spec fn inv(&self) -> bool;

    /// The preview for `key`, if the key is known to the provider.
    spec fn spec_preview(&self, key: Seq<char>) -> Option<PreviewView>;

    /// The stable identifier used as the prefix of every key.
    fn id(&self) -> (r: &str)
        ensures
            r@ == self.spec_id(),
    ;

    /// Searches the provider's content. Every result belongs to this provider
    /// and its key routes back here.
    fn search(&self, query: &str) -> (r: Vec<ResultItem>)
        requires
            self.inv(),
        ensures
            forall|i: int|
                0 <= i < r.len() ==> {
                    &&& (#[trigger] r[i]).provider_id@ == self.spec_id()
                    &&& key_owner(r[i].key@) == self.spec_id()
                },
    ;

    /// The preview for `key`; absent when the key is unknown.
    fn preview(&self, key: &str) -> (r: Option<Preview>)
        requires
            self.inv(),
        ensures
            preview_opt_view(r) == self.spec_preview(key@),
    ;

    /// Carries out `action` on the result `key`.
    fn execute(&self, action: &str, key: &str) -> (r: Effect)
        requires
            self.inv(),
    ;
}

/// Previewing a key twice on the same provider yields the same payload: the
/// preview is a function of the provider and the key alone.
pub proof fn preview_is_idempotent<P: Provider>(p: &P, key: Seq<char>, a: Option<Preview>, b: Option<Preview>)
    requires
        preview_opt_view(a) == p.spec_preview(key),
        preview_opt_view(b) == p.spec_preview(key),
    ensures
        preview_opt_view(a) == preview_opt_view(b),
{
}

} // verus!
