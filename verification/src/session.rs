//! Sessions: the persistent conversation history of one workflow
//! invocation, and an in-memory store of them keyed by session id.

use vstd::hash_map::StringHashMap;
use vstd::prelude::*;

use crate::error::BellowsError;
use crate::json::{clone_entries, entry_views, json_error_text, JsonView};
use crate::message::{clone_messages, messages_view, Message, MessageView};
use crate::role::{clone_opt_role, opt_role_view, Role, RoleView};
use crate::text::append_str;

verus! {

/// Whether `c` belongs to the Crockford base-32 alphabet of ULIDs.
pub open spec fn is_crockford(c: char) -> bool {
    ||| '0' <= c <= '9'
    ||| ('A' <= c <= 'Z' && c != 'I' && c != 'L' && c != 'O' && c != 'U')
}

/// The text of a fresh ULID: 26 Crockford base-32 characters.
pub open spec fn is_ulid_text(s: Seq<char>) -> bool {
    s.len() == 26 && forall|i: int| 0 <= i < 26 ==> is_crockford(#[trigger] s[i])
}

/// `ulid::Ulid::new()` rendered by `Ulid::to_string`. The value depends on
/// the clock and on a random source; what holds of every outcome is that it
/// is 26 characters of the Crockford alphabet (`ulid::base32::encode`).
#[verifier::external_body]
fn fresh_ulid() -> (s: String)
    ensures
        is_ulid_text(s@),
{
    ulid::Ulid::new().to_string()
}

/// Stable, sortable session identifier.
#[derive(Debug, Hash)]
pub struct SessionId(pub String);

impl View for SessionId {
    type V = Seq<char>;

    open spec fn view(&self) -> Seq<char> {
        self.0@
    }
}

impl Clone for SessionId {
    fn clone(&self) -> (r: Self)
        ensures
            r@ == self@,
    {
        SessionId(self.0.clone())
    }
}

impl PartialEq for SessionId {
    fn eq(&self, other: &Self) -> (r: bool) {
        self.0 == other.0
    }
}

impl vstd::std_specs::cmp::PartialEqSpecImpl for SessionId {
    open spec fn obeys_eq_spec() -> bool {
        true
    }

    open spec fn eq_spec(&self, other: &Self) -> bool {
        self.0@ == other.0@
    }
}

impl Eq for SessionId {

}

impl SessionId {
    /// Generate a fresh ULID-based session id.
    pub fn new() -> (id: Self)
        ensures
            is_ulid_text(id@),
    {
        SessionId(fresh_ulid())
    }

    /// The id's text (what `Display` writes).
    pub fn as_str(&self) -> (s: &str)
        ensures
            s@ == self@,
    {
        self.0.as_str()
    }
}

impl Default for SessionId {
    fn default() -> (id: Self)
        ensures
            is_ulid_text(id@),
    {
        SessionId::new()
    }
}

/// One agent invocation worth of state.
#[derive(Debug)]
pub struct Session {
    /// Session identifier.
    pub id: SessionId,
    /// Conversation history in chronological order.
    pub history: Vec<Message>,
    /// Session-scoped role overlay.
    pub role: Option<Role>,
    /// Free-form metadata: key/value entries, keys in ascending order.
    pub meta: Vec<(String, crate::json::JsonValue)>,
}

pub struct SessionView {
    pub id: Seq<char>,
    pub history: Seq<MessageView>,
    pub role: Option<RoleView>,
    pub meta: Seq<(Seq<char>, JsonView)>,
}

impl View for Session {
    type V = SessionView;

    open spec fn view(&self) -> SessionView {
        SessionView {
            id: self.id@,
            history: messages_view(self.history@),
            role: opt_role_view(self.role),
            meta: entry_views(self.meta@),
        }
    }
}

impl Clone for Session {
    fn clone(&self) -> (r: Self)
        ensures
            r@ == self@,
    {
        Session {
            id: self.id.clone(),
            history: clone_messages(&self.history),
            role: clone_opt_role(&self.role),
            meta: clone_entries(&self.meta),
        }
    }
}

impl Session {
    /// A fresh session: a new ULID id, no history, no role, no metadata.
    pub fn new() -> (s: Self)
        ensures
            is_ulid_text(s@.id),
            s@.history == Seq::<MessageView>::empty(),
            s@.role is None,
            s@.meta == Seq::<(Seq<char>, JsonView)>::empty(),
    {
        let s = Session { id: SessionId::new(), history: Vec::new(), role: None, meta: Vec::new() };
        assert(s@.history =~= Seq::<MessageView>::empty());
        assert(s@.meta =~= Seq::<(Seq<char>, JsonView)>::empty());
        s
    }

    /// Append a message to the history; returns the new length.
    pub fn push(&mut self, msg: Message) -> (n: usize)
        requires
            old(self).history.len() < usize::MAX,
        ensures
            final(self)@.history == old(self)@.history.push(msg@),
            final(self)@.id == old(self)@.id,
            final(self)@.role == old(self)@.role,
            final(self)@.meta == old(self)@.meta,
            n == final(self)@.history.len(),
    {
        let ghost before = self.history@;
        self.history.push(msg);
        assert(messages_view(self.history@) =~= messages_view(before).push(msg@));
        self.history.len()
    }
}

impl Default for Session {
    fn default() -> (s: Self)
        ensures
            is_ulid_text(s@.id),
            s@.history == Seq::<MessageView>::empty(),
            s@.role is None,
            s@.meta == Seq::<(Seq<char>, JsonView)>::empty(),
    {
        Session::new()
    }
}

/// In-memory session store: the sessions saved so far, by id. Not durable.
pub struct MemoryStore {
    sessions: StringHashMap<Session>,
}

pub open spec fn stored_views(m: Map<Seq<char>, Session>) -> Map<Seq<char>, SessionView> {
    m.map_values(|s: Session| s@)
}

impl View for MemoryStore {
    type V = Map<Seq<char>, SessionView>;

    closed spec fn view(&self) -> Map<Seq<char>, SessionView> {
        stored_views(self.sessions@)
    }
}

impl MemoryStore {
    /// A fresh, empty store.
    pub fn new() -> (st: Self)
        ensures
            st@ == Map::<Seq<char>, SessionView>::empty(),
    {
        let st = MemoryStore { sessions: StringHashMap::new() };
        proof {
            assert(st@ =~= Map::<Seq<char>, SessionView>::empty());
        }
        st
    }

    /// The session saved under `id`, if any (a copy of it).
    pub fn load(&self, id: &SessionId) -> (r: Result<Option<Session>, BellowsError>)
        ensures
            r matches Ok(o) && (match o {
                Some(s) => self@.contains_key(id@) && s@ == self@[id@],
                None => !self@.contains_key(id@),
            }),
    {
        match self.sessions.get(id.0.as_str()) {
            Some(s) => Ok(Some(s.clone())),
            None => Ok(None),
        }
    }

    /// Save (insert or replace) a copy of `session` under its id.
    pub fn save(&mut self, session: &Session) -> (r: Result<(), BellowsError>)
        ensures
            r is Ok,
            final(self)@ == old(self)@.insert(session@.id, session@),
    {
        let ghost before = self.sessions@;
        self.sessions.insert(session.id.0.clone(), session.clone());
        proof {
            assert(stored_views(self.sessions@) =~= stored_views(before).insert(
                session@.id,
                session@,
            ));
        }
        Ok(())
    }

    /// Delete the session saved under `id`; deleting a missing id succeeds.
    pub fn delete(&mut self, id: &SessionId) -> (r: Result<(), BellowsError>)
        ensures
            r is Ok,
            final(self)@ == old(self)@.remove(id@),
    {
        let ghost before = self.sessions@;
        self.sessions.remove(id.0.as_str());
        proof {
            assert(stored_views(self.sessions@) =~= stored_views(before).remove(id@));
        }
        Ok(())
    }
}

impl Default for MemoryStore {
    fn default() -> (st: Self)
        ensures
            st@ == Map::<Seq<char>, SessionView>::empty(),
    {
        MemoryStore::new()
    }
}

/// A store reads back what was saved: after saving `s`, loading its id
/// gives `s`; after deleting an id, loading it gives nothing; neither
/// touches the sessions under other ids; and deleting twice is deleting
/// once.
pub proof fn lemma_store_round_trip(
    m: Map<Seq<char>, SessionView>,
    s: SessionView,
    other: Seq<char>,
)
    requires
        other != s.id,
    ensures
        m.insert(s.id, s).contains_key(s.id),
        m.insert(s.id, s)[s.id] == s,
        !m.insert(s.id, s).remove(s.id).contains_key(s.id),
        m.insert(s.id, s).contains_key(other) == m.contains_key(other),
        m.contains_key(other) ==> m.insert(s.id, s)[other] == m[other],
        m.remove(s.id).contains_key(other) == m.contains_key(other),
        m.contains_key(other) ==> m.remove(s.id)[other] == m[other],
        m.remove(s.id).remove(s.id) == m.remove(s.id),
{
    assert(m.remove(s.id).remove(s.id) =~= m.remove(s.id));
}

/// A `BellowsError::Session` for a JSON (de)serialisation failure: its
/// message is `serialization: ` followed by the error's text.
pub fn json_session_err(e: serde_json::Error) -> (r: BellowsError)
    ensures
        r matches BellowsError::Session(m) && m@.len() >= 15 && m@.take(15) == "serialization: "@,
{
    let mut msg = "serialization: ".to_owned();
    let detail = json_error_text(&e);
    proof {
        reveal_strlit("serialization: ");
    }
    append_str(&mut msg, detail.as_str());
    assert(msg@.take(15) =~= "serialization: "@);
    BellowsError::Session(msg)
}

} // verus!
