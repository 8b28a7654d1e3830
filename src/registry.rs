//! Resolution of a line of input to the provider and command it asks for.

use vstd::prelude::*;
use crate::model::ResolvedCommand;
use crate::text::{is_prefix, lemma_trim_idempotent, starts_with, trim_text, trimmed};

verus! {

/// The tag that a match by slash-command alias carries as its reason.
pub const SLASH_REASON: &'static str = "slash-command";

/// The provider that the aliases of the (already trimmed) text select, if
/// any. Rules are tried in order, and within a rule the longer alias first.
pub open spec fn route_of(t: Seq<char>) -> Option<Seq<char>> {
    if is_prefix("/emoji"@, t) || is_prefix("/em"@, t) {
        Some("emoji"@)
    } else if is_prefix("/apps"@, t) || is_prefix("/ap"@, t) {
        Some("apps"@)
    } else {
        None
    }
}

/// `r` is the resolution of `text`: matched exactly when an alias starts
/// the trimmed text, and then naming the rule's provider and command, with
/// the slash-command reason and no intent; unmatched, with no optional field.
pub open spec fn resolves(text: Seq<char>, r: ResolvedCommand) -> bool {
    &&& r.wf()
    &&& r.matched == route_of(trimmed(text)).is_some()
    &&& r.matched ==> {
        &&& r.provider_id.unwrap()@ == route_of(trimmed(text)).unwrap()
        &&& r.command_id.unwrap()@ == route_of(trimmed(text)).unwrap()
        &&& r.intent.is_none()
        &&& r.reason matches Some(s) && s@ == SLASH_REASON@
    }
}

/// Resolution looks at the trimmed text only: trimming the input first
/// changes nothing.
pub proof fn resolve_ignores_surrounding_space(t: Seq<char>, r1: ResolvedCommand, r2: ResolvedCommand)
    requires
        resolves(t, r1),
        resolves(trimmed(t), r2),
    ensures
        r1.matched == r2.matched,
        r1.matched ==> r1.provider_id.unwrap()@ == r2.provider_id.unwrap()@,
        r1.matched ==> r1.command_id.unwrap()@ == r2.command_id.unwrap()@,
{
    lemma_trim_idempotent(t);
}

/// The stateless table of slash-command rules.
pub struct CommandRegistry;

impl CommandRegistry {
    pub fn new() -> (r: Self) {
        CommandRegistry
    }

    /// Resolves `text`: the first rule with an alias that starts the trimmed
    /// text names both the provider and the command; without one, nothing
    /// is matched and no optional field is set.
    pub fn resolve(&self, text: &str) -> (r: ResolvedCommand)
        ensures
            resolves(text@, r),
    {
        let t = trim_text(text);
        let target = if starts_with(t, "/emoji") || starts_with(t, "/em") {
            Some("emoji")
        } else if starts_with(t, "/apps") || starts_with(t, "/ap") {
            Some("apps")
        } else {
            None
        };
        match target {
            Some(id) => ResolvedCommand {
                matched: true,
                provider_id: Some(String::from_str(id)),
                command_id: Some(String::from_str(id)),
                intent: None,
                reason: Some(String::from_str(SLASH_REASON)),
            },
            None => ResolvedCommand {
                matched: false,
                provider_id: None,
                command_id: None,
                intent: None,
                reason: None,
            },
        }
    }
}

} // verus!
