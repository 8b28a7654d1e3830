//! The engine's orchestration: command resolution, searches with their
//! epoch/token scheme and result stream, and routing of preview and execute
//! requests to the provider that owns a key. Transport stays outside: each
//! call takes the decoded request and returns the events to emit.

use vstd::prelude::*;
use crate::apps::AppsProvider;
use crate::emoji::{bundled_catalog, EmojiProvider};
use crate::model::{key_owner, key_owner_of, Envelope, Outcome, Preview, PreviewView, ResolvedCommand, ResultItem, ResultsBatch, API_VERSION};
use crate::provider::{Effect, Provider};
use crate::registry::{resolves, CommandRegistry};
use crate::text::text_eq;

verus! {

/// The provider searched when a request names none.
pub const DEFAULT_PROVIDER: &'static str = "apps";

/// The token handed back by every search in this engine.
pub const SEARCH_TOKEN: u64 = 1;

/// A decoded search request.
pub struct SearchArgs {
    pub text: String,
    pub provider_ids: Option<Vec<String>>,
    pub epoch: Option<u64>,
}

/// A decoded preview request.
pub struct PreviewArgs {
    pub key: String,
    pub epoch: Option<u64>,
}

/// A `ResultsUpdated` event: one batch of the result stream of a search.
pub struct ResultsUpdated {
    pub epoch: u64,
    pub provider_id: String,
    pub token: u64,
    pub batch: Envelope<ResultsBatch>,
}

/// A `PreviewUpdated` event.
pub struct PreviewUpdated {
    pub epoch: u64,
    pub provider_id: String,
    pub key: String,
    pub preview: Envelope<Preview>,
}

/// What a search hands back: its token at once, and the events to emit.
pub struct SearchReply {
    pub token: u64,
    pub events: Vec<ResultsUpdated>,
}

/// Where an execute request ended up.
pub enum Execution {
    /// The request is decided.
    Finished(Outcome),
    /// The application with this desktop id is to be started; the outcome
    /// then follows from `outcome` with whether that worked.
    Launch(String),
}

/// The provider that a search request selects: the first one it names, or
/// the default one when it names none.
pub open spec fn requested(ids: Option<Vec<String>>) -> Seq<char> {
    match ids {
        Some(v) => if v.len() > 0 {
            v@[0]@
        } else {
            DEFAULT_PROVIDER@
        },
        None => DEFAULT_PROVIDER@,
    }
}

/// The message of a successful execute request.
pub open spec fn ok_message(action: Seq<char>) -> Seq<char> {
    "Action '"@ + action + "' executed successfully"@
}

/// The message of a failed execute request.
pub open spec fn error_message(action: Seq<char>) -> Seq<char> {
    "Failed to execute action '"@ + action + "' or unknown provider/key"@
}

/// The outcome of an execute request for `action` that did (`ok`) or did
/// not succeed.
pub open spec fn outcome_for(o: Outcome, action: Seq<char>, ok: bool) -> bool {
    &&& o.status@ == (if ok { "ok"@ } else { "error"@ })
    &&& o.message matches Some(m) && m@ == (if ok { ok_message(action) } else { error_message(action) })
}

/// The outcome of an execute request for `action`.
pub fn outcome(action: &str, ok: bool) -> (r: Outcome)
    ensures
        outcome_for(r, action@, ok),
{
    if ok {
        let mut m = String::from_str("Action '");
        m.append(action);
        m.append("' executed successfully");
        Outcome { status: String::from_str("ok"), message: Some(m) }
    } else {
        let mut m = String::from_str("Failed to execute action '");
        m.append(action);
        m.append("' or unknown provider/key");
        Outcome { status: String::from_str("error"), message: Some(m) }
    }
}

/// `r` is what a search with `args` returns on the engine `before`, which it
/// leaves as `after`: the same providers; the token; one `Reset` batch with
/// the selected provider's results, then one `End` batch, both carrying one
/// epoch (pinned, or else freshly minted), provider id and token.
pub open spec fn search_done(before: EngineBus, after: EngineBus, args: SearchArgs, r: SearchReply) -> bool {
    &&& after.wf()
    &&& after.emoji_provider() == before.emoji_provider()
    &&& after.apps_provider() == before.apps_provider()
    &&& r.token == SEARCH_TOKEN
    &&& r.events.len() == 2
    &&& match args.epoch {
        Some(e) => r.events[0].epoch == e && after.last_epoch() == before.last_epoch(),
        None => minted(before, after, r.events[0].epoch),
    }
    &&& forall|i: int|
        0 <= i < 2 ==> {
            &&& (#[trigger] r.events[i]).epoch == r.events[0].epoch
            &&& r.events[i].provider_id@ == requested(args.provider_ids)
            &&& r.events[i].token == r.token
            &&& r.events[i].batch.v@ == API_VERSION@
        }
    &&& r.events[0].batch.data matches ResultsBatch::Reset { items } && (if requested(args.provider_ids)
        == crate::emoji::PROVIDER_ID@ {
        before.emoji_provider().search_results(args.text@, items@)
    } else {
        before.apps_provider().search_results(args.text@, items@)
    })
    &&& r.events[1].batch.data is End
}

/// Two searches that pin no epoch, one after the other, carry distinct
/// epochs, the later one greater.
pub proof fn searches_get_increasing_epochs(
    a: EngineBus,
    b: EngineBus,
    c: EngineBus,
    x1: SearchArgs,
    r1: SearchReply,
    x2: SearchArgs,
    r2: SearchReply,
)
    requires
        search_done(a, b, x1, r1),
        search_done(b, c, x2, r2),
        x1.epoch.is_none(),
        x2.epoch.is_none(),
    ensures
        forall|i: int, j: int| 0 <= i < 2 && 0 <= j < 2 ==> (#[trigger] r1.events[i]).epoch < (#[trigger] r2.events[j]).epoch,
{
    assert(r1.events[0].epoch == r1.events[1].epoch);
    assert(r2.events[0].epoch == r2.events[1].epoch);
}

/// `after` minted the epoch `e` from `before`: the next value of the counter.
pub open spec fn minted(before: EngineBus, after: EngineBus, e: u64) -> bool {
    e == before.last_epoch() + 1 && after.last_epoch() == e
}

/// The engine: the command registry, the providers, and the epoch counter.
pub struct EngineBus {
    registry: CommandRegistry,
    emoji: EmojiProvider,
    apps: AppsProvider,
    epoch: u64,
}

impl EngineBus {
    /// The last epoch minted (0 before the first).
    pub closed spec fn last_epoch(&self) -> u64 {
        self.epoch
    }

    /// The emoji provider the engine routes to.
    pub closed spec fn emoji_provider(&self) -> EmojiProvider {
        self.emoji
    }

    /// The applications provider the engine routes to.
    pub closed spec fn apps_provider(&self) -> AppsProvider {
        self.apps
    }

    /// The providers are consistent.
    pub closed spec fn wf(&self) -> bool {
        self.emoji.wf()
    }

    /// Whether `id` names a registered provider.
    pub open spec fn known(id: Seq<char>) -> bool {
        id == crate::emoji::PROVIDER_ID@ || id == crate::apps::PROVIDER_ID@
    }

    /// The preview that the provider owning `key` gives for it.
    pub open spec fn preview_spec(&self, key: Seq<char>) -> Option<PreviewView> {
        if key_owner(key) == crate::emoji::PROVIDER_ID@ {
            self.emoji_provider().spec_preview(key)
        } else if key_owner(key) == crate::apps::PROVIDER_ID@ {
            self.apps_provider().spec_preview(key)
        } else {
            None
        }
    }

    /// The engine over the bundled emoji catalog and the given application
    /// index; no epoch minted yet.
    pub fn new(apps: AppsProvider) -> (r: Self)
        ensures
            r.wf(),
            r.last_epoch() == 0,
            bundled_catalog(r.emoji_provider()),
            r.apps_provider() == apps,
    {
        EngineBus { registry: CommandRegistry::new(), emoji: EmojiProvider::new(), apps, epoch: 0 }
    }

    /// The last epoch minted.
    pub fn current_epoch(&self) -> (r: u64)
        ensures
            r == self.last_epoch(),
    {
        self.epoch
    }

    /// Mints the next epoch.
    pub fn next_epoch(&mut self) -> (r: u64)
        requires
            old(self).last_epoch() < u64::MAX,
        ensures
            minted(*old(self), *final(self), r),
            final(self).wf() == old(self).wf(),
            final(self).emoji_provider() == old(self).emoji_provider(),
            final(self).apps_provider() == old(self).apps_provider(),
    {
        self.epoch = self.epoch + 1;
        self.epoch
    }

    /// Resolves a line of input (see `CommandRegistry::resolve`).
    pub fn resolve_command(&self, text: &str) -> (r: Envelope<ResolvedCommand>)
        ensures
            r.v@ == API_VERSION@,
            resolves(text@, r.data),
    {
        Envelope::wrap(self.registry.resolve(text))
    }

    /// Runs a search: mints an epoch unless the request pins one, searches the
    /// selected provider (an unknown one falls back to the default provider),
    /// and streams the full result list as one `Reset` batch followed by one
    /// `End` batch, both tagged with the same epoch, provider id and token.
    pub fn search(&mut self, args: &SearchArgs) -> (r: SearchReply)
        requires
            old(self).wf(),
            args.epoch.is_some() || old(self).last_epoch() < u64::MAX,
        ensures
            search_done(*old(self), *final(self), *args, r),
    {
        let epoch = match args.epoch {
            Some(e) => e,
            None => self.next_epoch(),
        };
        let provider_id: String = match &args.provider_ids {
            Some(v) => if v.len() > 0 {
                v[0].clone()
            } else {
                String::from_str(DEFAULT_PROVIDER)
            },
            None => String::from_str(DEFAULT_PROVIDER),
        };
        let token = SEARCH_TOKEN;
        let items: Vec<ResultItem> = if text_eq(provider_id.as_str(), crate::emoji::PROVIDER_ID) {
            self.emoji.search(args.text.as_str())
        } else {
            self.apps.search(args.text.as_str())
        };
        let reset = ResultsUpdated {
            epoch,
            provider_id: provider_id.clone(),
            token,
            batch: Envelope::wrap(ResultsBatch::Reset { items }),
        };
        let end = ResultsUpdated { epoch, provider_id, token, batch: Envelope::wrap(ResultsBatch::End) };
        SearchReply { token, events: vec![reset, end] }
    }

    /// Handles a preview request: nothing for an empty key or a key whose
    /// provider is unknown or has no preview for it; otherwise one
    /// `PreviewUpdated` event, tagged with the pinned epoch or else the last
    /// one minted.
    pub fn request_preview(&self, args: &PreviewArgs) -> (r: Option<PreviewUpdated>)
        requires
            self.wf(),
        ensures
            r.is_some() == (args.key@.len() > 0 && self.preview_spec(args.key@).is_some()),
            r matches Some(ev) ==> {
                &&& ev.epoch == match args.epoch {
                    Some(e) => e,
                    None => self.last_epoch(),
                }
                &&& ev.provider_id@ == key_owner(args.key@)
                &&& ev.key@ == args.key@
                &&& ev.preview.v@ == API_VERSION@
                &&& Some(ev.preview.data@) == self.preview_spec(args.key@)
            },
    {
        let key = args.key.as_str();
        if key.unicode_len() == 0 {
            return None;
        }
        let epoch = match args.epoch {
            Some(e) => e,
            None => self.epoch,
        };
        let provider_id = key_owner_of(key);
        let found = if text_eq(provider_id.as_str(), crate::emoji::PROVIDER_ID) {
            self.emoji.preview(key)
        } else if text_eq(provider_id.as_str(), crate::apps::PROVIDER_ID) {
            self.apps.preview(key)
        } else {
            None
        };
        match found {
            Some(p) => Some(PreviewUpdated {
                epoch,
                provider_id,
                key: args.key.clone(),
                preview: Envelope::wrap(p),
            }),
            None => None,
        }
    }

    /// Handles an execute request by routing it to the provider that owns
    /// `key`: an unknown provider, action or key gives an error outcome.
    pub fn execute(&self, action: &str, key: &str) -> (r: Execution)
        requires
            self.wf(),
        ensures
            key_owner(key@) == crate::emoji::PROVIDER_ID@ ==> (r matches Execution::Finished(o)
                && outcome_for(
                o,
                action@,
                (action@ == "copy_glyph"@ || action@ == "copy_shortcode"@) && crate::emoji::lookup(
                    self.emoji_provider().records(),
                    key@,
                ).is_some(),
            )),
            key_owner(key@) == crate::apps::PROVIDER_ID@ ==> if action@ == "launch"@ && crate::apps::lookup_app(
                self.apps_provider().records(),
                crate::apps::key_id(key@),
            ).is_some() {
                r matches Execution::Launch(id) && id@ == crate::apps::key_id(key@)
            } else {
                r matches Execution::Finished(o) && outcome_for(o, action@, false)
            },
            !Self::known(key_owner(key@)) ==> (r matches Execution::Finished(o) && outcome_for(o, action@, false)),
    {
        let provider_id = key_owner_of(key);
        proof {
            lemma_ids_differ();
        }
        let effect = if text_eq(provider_id.as_str(), crate::emoji::PROVIDER_ID) {
            self.emoji.execute(action, key)
        } else if text_eq(provider_id.as_str(), crate::apps::PROVIDER_ID) {
            self.apps.execute(action, key)
        } else {
            Effect::Done(false)
        };
        match effect {
            Effect::Done(ok) => Execution::Finished(outcome(action, ok)),
            Effect::Launch(id) => Execution::Launch(id),
        }
    }
}

proof fn lemma_ids_differ()
    ensures
        crate::apps::PROVIDER_ID@ != crate::emoji::PROVIDER_ID@,
{
    reveal_strlit("apps");
    reveal_strlit("emoji");
    assert(crate::apps::PROVIDER_ID@[0] != crate::emoji::PROVIDER_ID@[0]);
}

/// Epochs minted one after another are distinct and increasing: the second
/// is greater than the first.
pub proof fn minted_epochs_increase(a: EngineBus, b: EngineBus, c: EngineBus, e1: u64, e2: u64)
    requires
        minted(a, b, e1),
        minted(b, c, e2),
    ensures
        e1 < e2,
{
}

} // verus!
