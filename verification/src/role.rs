//! `Role`: the non-persistent identity and instruction overlay applied to
//! model requests, with its single precedence rule `call > session > agent`.

use vstd::prelude::*;

use crate::text::{append_str, push_char, trim_end, trim_end_spec};

verus! {

/// Where in the runtime hierarchy a `Role` was supplied. Earlier variants
/// win during [`Role::merge`].
#[derive(Debug, Clone, Copy, PartialEq, Eq, Hash, Structural)]
pub enum RoleScope {
    /// Per-invocation override (highest precedence).
    Call,
    /// Per-session override (middle precedence).
    Session,
    /// Workflow default (lowest precedence).
    Agent,
}

impl Default for RoleScope {
    fn default() -> (s: Self)
        ensures
            s == RoleScope::Agent,
    {
        RoleScope::Agent
    }
}

/// Identity and instruction text overlaid on a model request.
#[derive(Debug)]
pub struct Role {
    /// One-line identity string.
    pub identity: Option<String>,
    /// Instruction lines, in order.
    pub instructions: Vec<String>,
    /// Where in the hierarchy this role was supplied.
    pub scope: RoleScope,
}

pub fn clone_opt_string(s: &Option<String>) -> (r: Option<String>)
    ensures
        r == *s,
{
    match s {
        Some(x) => Some(x.clone()),
        None => None,
    }
}

pub fn clone_strings(v: &Vec<String>) -> (r: Vec<String>)
    ensures
        r@ == v@,
{
    let r = v.clone();
    assert(r@ =~= v@);
    r
}

/// The characters of each string of `v`.
pub open spec fn strings_view(v: Seq<String>) -> Seq<Seq<char>> {
    v.map_values(|s: String| s@)
}

/// The characters of an optional string.
pub open spec fn opt_string_view(s: Option<String>) -> Option<Seq<char>> {
    match s {
        Some(x) => Some(x@),
        None => None,
    }
}

/// The abstract content of a [`Role`].
pub struct RoleView {
    pub identity: Option<Seq<char>>,
    pub instructions: Seq<Seq<char>>,
    pub scope: RoleScope,
}

impl View for Role {
    type V = RoleView;

    open spec fn view(&self) -> RoleView {
        RoleView {
            identity: opt_string_view(self.identity),
            instructions: strings_view(self.instructions@),
            scope: self.scope,
        }
    }
}

impl Clone for Role {
    fn clone(&self) -> (r: Self)
        ensures
            r@ == self@,
            r.identity == self.identity,
            r.instructions@ == self.instructions@,
            r.scope == self.scope,
    {
        Role {
            identity: clone_opt_string(&self.identity),
            instructions: clone_strings(&self.instructions),
            scope: self.scope,
        }
    }
}

impl Default for Role {
    fn default() -> (r: Self)
        ensures
            r.identity is None,
            r.instructions@.len() == 0,
            r.scope == RoleScope::Agent,
    {
        Role { identity: None, instructions: Vec::new(), scope: RoleScope::Agent }
    }
}

/// The content of an optional role.
pub open spec fn opt_role_view(r: Option<Role>) -> Option<RoleView> {
    match r {
        Some(x) => Some(x@),
        None => None,
    }
}

/// A copy of an optional role with the same content.
pub fn clone_opt_role(r: &Option<Role>) -> (c: Option<Role>)
    ensures
        opt_role_view(c) == opt_role_view(*r),
{
    match r {
        Some(x) => Some(x.clone()),
        None => None,
    }
}

/// An optional borrowed role, as a value.
pub open spec fn opt_role(r: Option<&Role>) -> Option<Role> {
    match r {
        Some(x) => Some(*x),
        None => None,
    }
}

/// The identity chosen by [`Role::merge`]: the one of the highest-precedence
/// role that supplies one.
pub open spec fn merged_identity(agent: Role, session: Option<Role>, call: Option<Role>) -> Option<
    String,
> {
    if call is Some && call->0.identity is Some {
        call->0.identity
    } else if session is Some && session->0.identity is Some {
        session->0.identity
    } else {
        agent.identity
    }
}

/// The instructions of an optional role (none when the role is absent).
pub open spec fn instructions_of(r: Option<Role>) -> Seq<String> {
    match r {
        Some(x) => x.instructions@,
        None => Seq::empty(),
    }
}

/// The instruction lines chosen by [`Role::merge`]: agent, then session,
/// then call (lowest precedence first).
pub open spec fn merged_instructions(agent: Role, session: Option<Role>, call: Option<Role>) -> Seq<
    String,
> {
    agent.instructions@ + instructions_of(session) + instructions_of(call)
}

/// The scope of a merged role: that of the highest-precedence role present.
pub open spec fn merged_scope(session: Option<Role>, call: Option<Role>) -> RoleScope {
    if call is Some {
        RoleScope::Call
    } else if session is Some {
        RoleScope::Session
    } else {
        RoleScope::Agent
    }
}

/// The concatenation of the lines of `lines`, each followed by a newline.
pub open spec fn lines_text(lines: Seq<String>) -> Seq<char>
    decreases lines.len(),
{
    if lines.len() == 0 {
        Seq::empty()
    } else {
        lines_text(lines.drop_last()) + lines.last()@ + seq!['\n']
    }
}

/// The text of a role before trailing white space is trimmed: the identity
/// followed by a blank line, then every instruction on a line of its own.
pub open spec fn role_body_text(identity: Option<String>, lines: Seq<String>) -> Seq<char> {
    match identity {
        Some(id) => id@ + seq!['\n', '\n'] + lines_text(lines),
        None => lines_text(lines),
    }
}

/// What [`Role::render`] returns for a role.
pub open spec fn rendered(r: Role) -> Option<Seq<char>> {
    if r.identity is None && r.instructions@.len() == 0 {
        None
    } else {
        Some(trim_end_spec(role_body_text(r.identity, r.instructions@)))
    }
}

impl Role {
    /// Builder: set the identity line.
    pub fn with_identity(self, identity: &str) -> (r: Self)
        ensures
            r.identity is Some,
            r.identity->0@ == identity@,
            r.instructions == self.instructions,
            r.scope == self.scope,
    {
        let mut me = self;
        me.identity = Some(identity.to_owned());
        me
    }

    /// Builder: append an instruction line.
    pub fn with_instruction(self, instruction: &str) -> (r: Self)
        ensures
            r.identity == self.identity,
            r.instructions@.len() == self.instructions@.len() + 1,
            r.instructions@.drop_last() == self.instructions@,
            r.instructions@.last()@ == instruction@,
            r.scope == self.scope,
    {
        let mut me = self;
        me.instructions.push(instruction.to_owned());
        me
    }

    /// Builder: set the scope.
    pub fn with_scope(self, scope: RoleScope) -> (r: Self)
        ensures
            r.identity == self.identity,
            r.instructions == self.instructions,
            r.scope == scope,
    {
        let mut me = self;
        me.scope = scope;
        me
    }

    /// Merge three roles with the precedence `call > session > agent`: the
    /// identity comes from the highest-precedence role that has one, the
    /// instructions concatenate agent, then session, then call, and the
    /// scope is that of the highest-precedence role present.
    pub fn merge(agent: &Self, session: Option<&Self>, call: Option<&Self>) -> (r: Self)
        ensures
            r.identity == merged_identity(*agent, opt_role(session), opt_role(call)),
            r.instructions@ == merged_instructions(
                *agent,
                opt_role(session),
                opt_role(call),
            ),
            r.scope == merged_scope(opt_role(session), opt_role(call)),
    {
        let identity = match call {
            Some(c) if c.identity.is_some() => clone_opt_string(&c.identity),
            _ => match session {
                Some(s) if s.identity.is_some() => clone_opt_string(&s.identity),
                _ => clone_opt_string(&agent.identity),
            },
        };
        let mut instructions = clone_strings(&agent.instructions);
        let scope;
        match session {
            Some(s) => {
                let mut more = clone_strings(&s.instructions);
                instructions.append(&mut more);
                scope = RoleScope::Session;
            },
            None => {
                scope = RoleScope::Agent;
            },
        }
        let scope = match call {
            Some(c) => {
                let mut more = clone_strings(&c.instructions);
                instructions.append(&mut more);
                RoleScope::Call
            },
            None => scope,
        };
        Role { identity, instructions, scope }
    }

    /// Render the role as one system-prompt string: the identity, a blank
    /// line, then every instruction on its own line, with trailing white
    /// space trimmed. `None` when the role has neither identity nor
    /// instructions.
    pub fn render(&self) -> (out: Option<String>)
        ensures
            out is None <==> rendered(*self) is None,
            out is Some ==> out->0@ == rendered(*self)->0,
    {
        if self.identity.is_none() && self.instructions.len() == 0 {
            return None;
        }
        let mut out = String::new();
        match &self.identity {
            Some(id) => {
                append_str(&mut out, id.as_str());
                push_char(&mut out, '\n');
                push_char(&mut out, '\n');
            },
            None => {},
        }
        let ghost head = out@;
        let mut i: usize = 0;
        while i < self.instructions.len()
            invariant
                i <= self.instructions.len(),
                out@ == head + lines_text(self.instructions@.take(i as int)),
            decreases self.instructions.len() - i,
        {
            append_str(&mut out, self.instructions[i].as_str());
            push_char(&mut out, '\n');
            i = i + 1;
            assert(self.instructions@.take(i as int).drop_last() == self.instructions@.take(
                (i - 1) as int,
            ));
        }
        assert(self.instructions@.take(self.instructions.len() as int) == self.instructions@);
        assert(out@ == role_body_text(self.identity, self.instructions@));
        Some(trim_end(out.as_str()))
    }
}

/// Merging with no session and no call overlay gives back the agent's
/// identity and instructions, in the agent scope.
pub proof fn lemma_merge_without_overlays(agent: Role)
    ensures
        merged_identity(agent, None, None) == agent.identity,
        merged_instructions(agent, None, None) == agent.instructions@,
        merged_scope(None, None) == RoleScope::Agent,
{
    assert(merged_instructions(agent, None, None) =~= agent.instructions@);
}

/// Precedence is `call > session > agent`: an identity supplied by the
/// call wins whatever the session says, and a session identity wins over
/// the agent's when the call supplies none.
pub proof fn lemma_merge_precedence(agent: Role, session: Option<Role>, call: Option<Role>)
    ensures
        call is Some && call->0.identity is Some ==> merged_identity(agent, session, call)
            == call->0.identity,
        (call is None || call->0.identity is None) && session is Some && session->0.identity is Some
            ==> merged_identity(agent, session, call) == session->0.identity,
        call is Some ==> merged_scope(session, call) == RoleScope::Call,
        merged_instructions(agent, session, call).len() == agent.instructions@.len()
            + instructions_of(session).len() + instructions_of(call).len(),
{
}

/// A role renders to nothing exactly when it has neither identity nor
/// instructions; otherwise the identity opens the prompt.
pub proof fn lemma_render_empty(r: Role)
    ensures
        rendered(r) is None <==> (r.identity is None && r.instructions@.len() == 0),
{
}

} // verus!
