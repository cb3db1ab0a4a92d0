//! Hook verdicts, the ordered hook registry, and the two reference hooks:
//! `TracingHook` (observation only) and `AllowDenyHook` (tool-name policy).

use vstd::prelude::*;

use crate::json::JsonValue;
use crate::message::Message;
use crate::role::{clone_strings, strings_view};
use crate::text::str_eq;

verus! {

/// Generic hook outcome: observe or veto.
#[derive(Debug)]
pub enum HookOutcome {
    /// Continue with the observed action.
    Continue,
    /// Abort the action with a human-readable reason.
    Deny(String),
}

/// Outcome for tool-use hooks.
#[derive(Debug)]
pub enum ToolHookOutcome {
    /// Run the tool normally.
    Continue,
    /// Skip the tool; the model sees an error result carrying the reason.
    Deny(String),
    /// Skip the tool and use this JSON value as its result.
    Stub(JsonValue),
}

/// Outcome for pre-inference hooks.
#[derive(Debug)]
pub enum InferenceHookOutcome {
    /// Call the model normally.
    Continue,
    /// Abort the inference loop with a reason.
    Deny(String),
    /// Skip the model call and use this assistant message.
    Stub(Message),
}

/// The identity every hook carries: a stable name for logs and error
/// messages. Lifecycle callbacks are attached to it by the runtime.
pub trait Hook {
    /// Stable name of the hook.
    fn name(&self) -> &str;
}

/// Ordered collection of hooks, walked in registration order.
pub struct HookRegistry<H> {
    hooks: Vec<H>,
}

impl<H> View for HookRegistry<H> {
    type V = Seq<H>;

    closed spec fn view(&self) -> Seq<H> {
        self.hooks@
    }
}

impl<H> HookRegistry<H> {
    /// Empty registry.
    pub fn new() -> (r: Self)
        ensures
            r@ == Seq::<H>::empty(),
    {
        HookRegistry { hooks: Vec::new() }
    }

    /// Register a hook; hooks fire in the order they were registered.
    pub fn register(&mut self, hook: H)
        ensures
            final(self)@ == old(self)@.push(hook),
    {
        self.hooks.push(hook);
    }

    /// Builder-style registration.
    pub fn with(self, hook: H) -> (r: Self)
        ensures
            r@ == self@.push(hook),
    {
        let mut me = self;
        me.register(hook);
        me
    }

    /// Hooks in registration order.
    pub fn list(&self) -> (r: &[H])
        ensures
            r@ == self@,
    {
        self.hooks.as_slice()
    }

    /// True iff no hooks are registered.
    pub fn is_empty(&self) -> (r: bool)
        ensures
            r == (self@.len() == 0),
    {
        self.hooks.len() == 0
    }
}

impl<H> Default for HookRegistry<H> {
    fn default() -> (r: Self)
        ensures
            r@ == Seq::<H>::empty(),
    {
        HookRegistry::new()
    }
}

/// Reference hook that only observes every lifecycle point.
#[derive(Debug, Default, Clone, Copy)]
pub struct TracingHook;

impl Hook for TracingHook {
    fn name(&self) -> (r: &str)
        ensures
            r@ == "tracing"@,
    {
        "tracing"
    }
}

/// Tool approval by name. Allow-list mode: only listed tools run.
/// Deny-list mode: listed tools are denied. The reason is handed to the
/// model when a call is denied.
#[derive(Debug)]
pub struct AllowDenyHook {
    name: String,
    /// Allow-list of tool names. If `Some(_)`, only listed tools run.
    pub allow: Option<Vec<String>>,
    /// Deny-list of tool names. If `Some(_)`, listed tools are denied.
    pub deny: Option<Vec<String>>,
    /// Reason returned to the model when a call is denied.
    pub reason: String,
}

fn clone_names(list: &Option<Vec<String>>) -> (r: Option<Vec<String>>)
    ensures
        names_view(r) == names_view(*list),
{
    match list {
        Some(v) => Some(clone_strings(v)),
        None => None,
    }
}

impl Clone for AllowDenyHook {
    fn clone(&self) -> (r: Self)
        ensures
            r.hook_name() == self.hook_name(),
            r.allow_names() == self.allow_names(),
            r.deny_names() == self.deny_names(),
            r.reason_text() == self.reason_text(),
    {
        AllowDenyHook {
            name: self.name.clone(),
            allow: clone_names(&self.allow),
            deny: clone_names(&self.deny),
            reason: self.reason.clone(),
        }
    }
}

/// The characters of each of `names`.
pub open spec fn strs_view(names: Seq<&str>) -> Seq<Seq<char>> {
    names.map_values(|s: &str| s@)
}

/// The characters of each name of an optional list.
pub open spec fn names_view(list: Option<Vec<String>>) -> Option<Seq<Seq<char>>> {
    match list {
        Some(v) => Some(strings_view(v@)),
        None => None,
    }
}

/// Whether an optional list of names holds `name`.
pub open spec fn listed(list: Option<Seq<Seq<char>>>, name: Seq<char>) -> bool {
    list is Some && list->0.contains(name)
}

/// Whether [`AllowDenyHook`] denies the tool `tool`: it is missing from the
/// allow-list, or present on the deny-list.
pub open spec fn denies(allow: Option<Seq<Seq<char>>>, deny: Option<Seq<Seq<char>>>, tool: Seq<char>) -> bool {
    ||| (allow is Some && !listed(allow, tool))
    ||| listed(deny, tool)
}

/// An allow-list denies exactly the tools it does not list, a deny-list
/// exactly the tools it lists, and with both every tool that either rule
/// denies; with neither, nothing is denied.
pub proof fn lemma_denies_by_lists(allow: Seq<Seq<char>>, deny: Seq<Seq<char>>, tool: Seq<char>)
    ensures
        denies(Some(allow), None, tool) <==> !allow.contains(tool),
        denies(None, Some(deny), tool) <==> deny.contains(tool),
        denies(Some(allow), Some(deny), tool) <==> (!allow.contains(tool) || deny.contains(tool)),
        !denies(None, None, tool),
{
}

fn owned_names(names: &[&str]) -> (r: Vec<String>)
    ensures
        strings_view(r@) == strs_view(names@),
{
    let mut r: Vec<String> = Vec::new();
    let mut i: usize = 0;
    while i < names.len()
        invariant
            i <= names.len(),
            r@.len() == i,
            forall|j: int| 0 <= j < i ==> #[trigger] r@[j]@ == names@[j]@,
        decreases names.len() - i,
    {
        let name: &str = names[i];
        let owned = name.to_owned();
        assert(owned@ == names@[i as int]@);
        r.push(owned);
        i = i + 1;
    }
    assert(strings_view(r@) =~= strs_view(names@));
    r
}

fn contains_name(list: &Vec<String>, name: &str) -> (r: bool)
    ensures
        r == strings_view(list@).contains(name@),
{
    let mut i: usize = 0;
    while i < list.len()
        invariant
            i <= list.len(),
            forall|j: int| 0 <= j < i ==> list@[j]@ != name@,
        decreases list.len() - i,
    {
        if str_eq(list[i].as_str(), name) {
            assert(strings_view(list@)[i as int] == name@);
            return true;
        }
        i = i + 1;
    }
    assert forall|j: int| 0 <= j < strings_view(list@).len() implies strings_view(list@)[j]
        != name@ by {
        assert(strings_view(list@)[j] == list@[j]@);
    }
    false
}

impl AllowDenyHook {
    /// The name the hook reports.
    pub closed spec fn hook_name(self) -> Seq<char> {
        self.name@
    }

    /// The allow-list, if any.
    pub closed spec fn allow_names(self) -> Option<Seq<Seq<char>>> {
        names_view(self.allow)
    }

    /// The deny-list, if any.
    pub closed spec fn deny_names(self) -> Option<Seq<Seq<char>>> {
        names_view(self.deny)
    }

    /// The reason handed to the model on a denial.
    pub closed spec fn reason_text(self) -> Seq<char> {
        self.reason@
    }

    /// Build an allow-list hook: only the named tools may run.
    pub fn allow_only(allow: &[&str]) -> (h: Self)
        ensures
            h.hook_name() == "allow-deny"@,
            h.allow_names() == Some(strs_view(allow@)),
            h.deny_names() is None,
            h.reason_text() == "tool not on allow-list"@,
    {
        AllowDenyHook {
            name: "allow-deny".to_owned(),
            allow: Some(owned_names(allow)),
            deny: None,
            reason: "tool not on allow-list".to_owned(),
        }
    }

    /// Build a deny-list hook: the named tools are denied.
    pub fn deny_list(deny: &[&str]) -> (h: Self)
        ensures
            h.hook_name() == "allow-deny"@,
            h.allow_names() is None,
            h.deny_names() == Some(strs_view(deny@)),
            h.reason_text() == "tool on deny-list"@,
    {
        AllowDenyHook {
            name: "allow-deny".to_owned(),
            allow: None,
            deny: Some(owned_names(deny)),
            reason: "tool on deny-list".to_owned(),
        }
    }

    /// Builder: override the deny reason.
    pub fn with_reason(self, reason: &str) -> (h: Self)
        ensures
            h.hook_name() == self.hook_name(),
            h.allow_names() == self.allow_names(),
            h.deny_names() == self.deny_names(),
            h.reason_text() == reason@,
    {
        let mut me = self;
        me.reason = reason.to_owned();
        me
    }

    /// The verdict on a call of the tool named `tool`: `Deny` with this
    /// hook's reason when the tool is not on the allow-list or is on the
    /// deny-list, `Continue` otherwise. Arguments are never inspected.
    pub fn check_tool(&self, tool: &str) -> (o: ToolHookOutcome)
        ensures
            o is Deny <==> denies(self.allow_names(), self.deny_names(), tool@),
            !(o is Stub),
            o matches ToolHookOutcome::Deny(r) ==> r@ == self.reason_text(),
    {
        match &self.allow {
            Some(allow) => {
                if !contains_name(allow, tool) {
                    return ToolHookOutcome::Deny(self.reason.clone());
                }
            },
            None => {},
        }
        match &self.deny {
            Some(deny) => {
                if contains_name(deny, tool) {
                    return ToolHookOutcome::Deny(self.reason.clone());
                }
            },
            None => {},
        }
        ToolHookOutcome::Continue
    }
}

impl Hook for AllowDenyHook {
    fn name(&self) -> (r: &str)
        ensures
            r@ == self.hook_name(),
    {
        self.name.as_str()
    }
}

} // verus!
