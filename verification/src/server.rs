//! What the HTTP server says: the SSE line of each stream event, the JSON
//! bodies of its small endpoints, the web page with its placeholders
//! filled in, and the port it listens on.

use vstd::prelude::*;

use crate::json::{
    compact_text, lemma_member_absent, lemma_member_found, str_member, view_get, entry_views, json_views, lemma_json_views_push, push_member, JsonValue, JsonView,
    NumberView,
};
use crate::model::StopReason;
use crate::stream::StreamEvent;
use crate::text::{append_str, chars_of, decimal, digit_char, occurs_at, push_char};

verus! {

/// Default Bellows server port.
pub const DEFAULT_PORT: u16 = 3548;

// ── Text replacement ────────────────────────────────────────────────────────

/// `r` before each character of `s` and once more at the end: what an
/// empty pattern matches.
pub open spec fn interleave(s: Seq<char>, r: Seq<char>) -> Seq<char>
    decreases s.len(),
{
    if s.len() == 0 {
        r
    } else {
        r + seq![s[0]] + interleave(s.drop_first(), r)
    }
}

/// `s` with every occurrence of `p` replaced by `r`, scanning left to right
/// without overlap, as `str::replace` does. The empty pattern occurs
/// before each character and at the end.
pub open spec fn replace_all(s: Seq<char>, p: Seq<char>, r: Seq<char>) -> Seq<char>
    decreases s.len(),
{
    if p.len() == 0 {
        interleave(s, r)
    } else if s.len() < p.len() {
        s
    } else if s.take(p.len() as int) == p {
        r + replace_all(s.skip(p.len() as int), p, r)
    } else {
        seq![s[0]] + replace_all(s.drop_first(), p, r)
    }
}

/// `to` before each character of `s` and once more at the end.
fn interleave_text(c: &Vec<char>, to: &str) -> (out: String)
    ensures
        out@ == interleave(c@, to@),
{
    let n = c.len();
    let mut out = String::new();
    let mut i: usize = 0;
    assert(c@.skip(0) =~= c@);
    while i < n
        invariant
            i <= n,
            n == c.len(),
            out@ + interleave(c@.skip(i as int), to@) == interleave(c@, to@),
        decreases n - i,
    {
        let ghost rest = c@.skip(i as int);
        assert(rest.drop_first() =~= c@.skip(i + 1));
        let ghost o = out@;
        append_str(&mut out, to);
        push_char(&mut out, c[i]);
        assert(out@ + interleave(c@.skip(i + 1), to@) =~= o + (to@ + seq![rest[0]] + interleave(
            rest.drop_first(),
            to@,
        )));
        i = i + 1;
    }
    assert(c@.skip(n as int) =~= Seq::<char>::empty());
    let ghost o = out@;
    append_str(&mut out, to);
    assert(out@ =~= o + interleave(Seq::<char>::empty(), to@));
    out
}

/// Replace every occurrence of `from` in `s` by `to`, as `str::replace`
/// does.
pub fn replace_text(s: &str, from: &str, to: &str) -> (out: String)
    ensures
        out@ == replace_all(s@, from@, to@),
{
    let c = chars_of(s);
    let p = chars_of(from);
    if p.len() == 0 {
        return interleave_text(&c, to);
    }
    let n = c.len();
    let mut out = String::new();
    let mut i: usize = 0;
    assert(c@.skip(0) =~= c@);
    while i < n
        invariant
            i <= n,
            n == c.len(),
            c@ == s@,
            p@ == from@,
            p.len() > 0,
            out@ + replace_all(c@.skip(i as int), p@, to@) == replace_all(s@, from@, to@),
        decreases n - i,
    {
        let ghost rest = c@.skip(i as int);
        if p.len() <= n - i && occurs_at(&c, &p, i) {
            assert(rest.take(p.len() as int) =~= c@.subrange(i as int, i + p.len()));
            assert(rest.skip(p.len() as int) =~= c@.skip(i + p.len()));
            let ghost o = out@;
            append_str(&mut out, to);
            assert(out@ + replace_all(c@.skip(i + p.len()), p@, to@) =~= o + (to@ + replace_all(
                rest.skip(p.len() as int),
                p@,
                to@,
            )));
            i = i + p.len();
        } else {
            if p.len() <= n - i {
                assert(rest.take(p.len() as int) =~= c@.subrange(i as int, i + p.len()));
            }
            assert(rest.drop_first() =~= c@.skip(i + 1));
            let ghost o = out@;
            push_char(&mut out, c[i]);
            assert(out@ + replace_all(c@.skip(i + 1), p@, to@) =~= o + (seq![rest[0]] + replace_all(
                rest.drop_first(),
                p@,
                to@,
            )));
            i = i + 1;
        }
    }
    assert(c@.skip(n as int) =~= Seq::<char>::empty());
    assert(out@ + Seq::<char>::empty() =~= out@);
    out
}

/// JSON text made safe inside a `<textarea>`: `&` becomes `&amp;`, then
/// `<` becomes `&lt;`.
pub open spec fn textarea_escaped(s: Seq<char>) -> Seq<char> {
    replace_all(replace_all(s, "&"@, "&amp;"@), "<"@, "&lt;"@)
}

/// Escape JSON for embedding inside a `<textarea>`. Only `&` and `<` can
/// open or close markup there; everything else is left as it is, so the
/// JSON still parses.
pub fn escape_for_textarea(s: &str) -> (out: String)
    ensures
        out@ == textarea_escaped(s@),
{
    proof {
        reveal_strlit("&");
        reveal_strlit("<");
    }
    let a = replace_text(s, "&", "&amp;");
    replace_text(a.as_str(), "<", "&lt;")
}

/// Whether `c` occurs nowhere in `s`.
pub open spec fn lacks(s: Seq<char>, c: char) -> bool {
    forall|i: int| 0 <= i < s.len() ==> s[i] != c
}

/// Replacing every `c` by a text without `c` leaves no `c`.
proof fn lemma_replace_char_removes(s: Seq<char>, c: char, r: Seq<char>)
    requires
        lacks(r, c),
    ensures
        lacks(replace_all(s, seq![c], r), c),
    decreases s.len(),
{
    if s.len() >= 1 {
        if s.take(1) == seq![c] {
            lemma_replace_char_removes(s.skip(1), c, r);
            let t = replace_all(s.skip(1), seq![c], r);
            assert forall|i: int| 0 <= i < (r + t).len() implies (r + t)[i] != c by {
                if i >= r.len() {
                    assert((r + t)[i] == t[i - r.len()]);
                }
            }
        } else {
            assert(s[0] != c) by {
                if s[0] == c {
                    assert(s.take(1) =~= seq![c]);
                }
            }
            lemma_replace_char_removes(s.drop_first(), c, r);
            let t = replace_all(s.drop_first(), seq![c], r);
            assert forall|i: int| 0 <= i < (seq![s[0]] + t).len() implies (seq![s[0]] + t)[i] != c by {
                if i >= 1 {
                    assert((seq![s[0]] + t)[i] == t[i - 1]);
                }
            }
        }
    }
}

/// Escaped text holds no `<`, so it cannot close the `<textarea>` it is
/// embedded in or open a tag inside it.
pub proof fn lemma_escaped_has_no_tag_open(s: Seq<char>)
    ensures
        lacks(textarea_escaped(s), '<'),
{
    reveal_strlit("<");
    reveal_strlit("&lt;");
    assert("<"@ =~= seq!['<']);
    lemma_replace_char_removes(replace_all(s, "&"@, "&amp;"@), '<', "&lt;"@);
}

/// `s` with every `c` replaced by `r`, character by character.
pub open spec fn char_replaced(s: Seq<char>, c: char, r: Seq<char>) -> Seq<char>
    decreases s.len(),
{
    if s.len() == 0 {
        s
    } else {
        (if s[0] == c {
            r
        } else {
            seq![s[0]]
        }) + char_replaced(s.drop_first(), c, r)
    }
}

/// The escape of one character.
pub open spec fn escaped_char(c: char) -> Seq<char> {
    if c == '&' {
        "&amp;"@
    } else if c == '<' {
        "&lt;"@
    } else {
        seq![c]
    }
}

/// `s` with every character escaped on its own.
pub open spec fn escaped_chars(s: Seq<char>) -> Seq<char>
    decreases s.len(),
{
    if s.len() == 0 {
        s
    } else {
        escaped_char(s[0]) + escaped_chars(s.drop_first())
    }
}

/// Escaped text read back left to right: `&lt;` is `<`, `&amp;` is `&`,
/// and every other character stands for itself.
pub open spec fn unescaped(t: Seq<char>) -> Seq<char>
    decreases t.len(),
{
    if t.len() == 0 {
        t
    } else if t.len() >= 4 && t.take(4) == "&lt;"@ {
        seq!['<'] + unescaped(t.skip(4))
    } else if t.len() >= 5 && t.take(5) == "&amp;"@ {
        seq!['&'] + unescaped(t.skip(5))
    } else {
        seq![t[0]] + unescaped(t.drop_first())
    }
}

proof fn lemma_replace_one_char(s: Seq<char>, c: char, r: Seq<char>)
    ensures
        replace_all(s, seq![c], r) == char_replaced(s, c, r),
    decreases s.len(),
{
    if s.len() > 0 {
        lemma_replace_one_char(s.drop_first(), c, r);
        assert(s.skip(1) =~= s.drop_first());
        if s[0] == c {
            assert(s.take(1) =~= seq![c]);
        } else {
            assert(s.take(1) != seq![c]) by {
                assert(s.take(1)[0] == s[0]);
            }
        }
    }
}

proof fn lemma_char_replaced_add(a: Seq<char>, b: Seq<char>, c: char, r: Seq<char>)
    ensures
        char_replaced(a + b, c, r) == char_replaced(a, c, r) + char_replaced(b, c, r),
    decreases a.len(),
{
    if a.len() == 0 {
        assert(a + b =~= b);
        assert(char_replaced(a, c, r) + char_replaced(b, c, r) =~= char_replaced(b, c, r));
    } else {
        lemma_char_replaced_add(a.drop_first(), b, c, r);
        assert((a + b).drop_first() =~= a.drop_first() + b);
        assert((a + b)[0] == a[0]);
        let h = if a[0] == c {
            r
        } else {
            seq![a[0]]
        };
        assert(h + (char_replaced(a.drop_first(), c, r) + char_replaced(b, c, r)) =~= (h
            + char_replaced(a.drop_first(), c, r)) + char_replaced(b, c, r));
    }
}

proof fn lemma_char_replaced_absent(s: Seq<char>, c: char, r: Seq<char>)
    requires
        lacks(s, c),
    ensures
        char_replaced(s, c, r) == s,
    decreases s.len(),
{
    if s.len() > 0 {
        assert(lacks(s.drop_first(), c)) by {
            assert forall|i: int| 0 <= i < s.drop_first().len() implies s.drop_first()[i] != c by {
                assert(s.drop_first()[i] == s[i + 1]);
            }
        }
        lemma_char_replaced_absent(s.drop_first(), c, r);
        assert(seq![s[0]] + s.drop_first() =~= s);
    }
}

proof fn lemma_escape_is_per_char(s: Seq<char>)
    ensures
        char_replaced(char_replaced(s, '&', "&amp;"@), '<', "&lt;"@) == escaped_chars(s),
    decreases s.len(),
{
    reveal_strlit("&amp;");
    reveal_strlit("&lt;");
    if s.len() > 0 {
        lemma_escape_is_per_char(s.drop_first());
        let h = if s[0] == '&' {
            "&amp;"@
        } else {
            seq![s[0]]
        };
        lemma_char_replaced_add(h, char_replaced(s.drop_first(), '&', "&amp;"@), '<', "&lt;"@);
        if s[0] == '&' {
            assert(lacks("&amp;"@, '<'));
            lemma_char_replaced_absent("&amp;"@, '<', "&lt;"@);
        } else {
            assert(seq![s[0]].drop_first() =~= Seq::<char>::empty());
            assert(char_replaced(Seq::<char>::empty(), '<', "&lt;"@) == Seq::<char>::empty());
            assert(char_replaced(seq![s[0]], '<', "&lt;"@) == escaped_char(s[0]) + Seq::<char>::empty());
            assert(escaped_char(s[0]) + Seq::<char>::empty() =~= escaped_char(s[0]));
        }
    }
}

/// The escape is exactly per character: `&` becomes `&amp;`, `<` becomes
/// `&lt;`, every other character stays.
pub proof fn lemma_escape_per_char(s: Seq<char>)
    ensures
        textarea_escaped(s) == escaped_chars(s),
{
    reveal_strlit("&");
    reveal_strlit("<");
    assert("&"@ =~= seq!['&']);
    assert("<"@ =~= seq!['<']);
    lemma_replace_one_char(s, '&', "&amp;"@);
    lemma_replace_one_char(char_replaced(s, '&', "&amp;"@), '<', "&lt;"@);
    lemma_escape_is_per_char(s);
}

proof fn lemma_unescape_escaped(s: Seq<char>)
    ensures
        unescaped(escaped_chars(s)) == s,
    decreases s.len(),
{
    reveal_strlit("&amp;");
    reveal_strlit("&lt;");
    if s.len() > 0 {
        lemma_unescape_escaped(s.drop_first());
        let rest = escaped_chars(s.drop_first());
        let t = escaped_chars(s);
        let c = s[0];
        assert(t == escaped_char(c) + rest);
        if c == '&' {
            assert(t.take(4)[1] == 'a');
            assert(t.take(4) != "&lt;"@);
            assert(t.take(5) =~= "&amp;"@);
            assert(t.skip(5) =~= rest);
        } else if c == '<' {
            assert(t.take(4) =~= "&lt;"@);
            assert(t.skip(4) =~= rest);
        } else {
            assert(t[0] == c);
            if t.len() >= 4 {
                assert(t.take(4)[0] == c);
            }
            if t.len() >= 5 {
                assert(t.take(5)[0] == c);
            }
            assert(t.drop_first() =~= rest);
        }
        assert(seq![c] + s.drop_first() =~= s);
    }
}

/// Escaping loses nothing: reading the escaped text back (`&lt;` as `<`,
/// `&amp;` as `&`) gives the original text, and it holds no `<`.
pub proof fn lemma_escape_round_trip(s: Seq<char>)
    ensures
        unescaped(textarea_escaped(s)) == s,
        lacks(textarea_escaped(s), '<'),
{
    lemma_escape_per_char(s);
    lemma_unescape_escaped(s);
    lemma_escaped_has_no_tag_open(s);
}

/// Every event payload is an object whose first member is its `type`.
pub proof fn lemma_payload_names_its_type(ev: StreamEvent)
    ensures
        event_members(ev).len() >= 2,
        event_members(ev)[0].0 == "type"@,
        event_members(ev)[0].1 is Str,
{
}

/// The web page: the template with the agent's name, the escaped example
/// input and the version filled in.
pub open spec fn index_page(
    template: Seq<char>,
    agent: Seq<char>,
    example: Seq<char>,
    version: Seq<char>,
) -> Seq<char> {
    replace_all(
        replace_all(
            replace_all(template, "{{AGENT_NAME}}"@, agent),
            "{{EXAMPLE_INPUT}}"@,
            textarea_escaped(example),
        ),
        "{{VERSION}}"@,
        version,
    )
}

/// Fill the web page template.
pub fn render_index(template: &str, agent: &str, example_input: &str, version: &str) -> (page:
    String)
    ensures
        page@ == index_page(template@, agent@, example_input@, version@),
{
    proof {
        reveal_strlit("{{AGENT_NAME}}");
        reveal_strlit("{{EXAMPLE_INPUT}}");
        reveal_strlit("{{VERSION}}");
    }
    let a = replace_text(template, "{{AGENT_NAME}}", agent);
    let escaped = escape_for_textarea(example_input);
    let b = replace_text(a.as_str(), "{{EXAMPLE_INPUT}}", escaped.as_str());
    replace_text(b.as_str(), "{{VERSION}}", version)
}

// ── JSON bodies ─────────────────────────────────────────────────────────────

/// How a stop reason is spelled on the wire (`snake_case`).
pub open spec fn stop_reason_name(r: StopReason) -> Seq<char> {
    match r {
        StopReason::EndTurn => "end_turn"@,
        StopReason::MaxTokens => "max_tokens"@,
        StopReason::StopSequence => "stop_sequence"@,
        StopReason::ToolUse => "tool_use"@,
        StopReason::Other => "other"@,
    }
}

/// The wire spelling of a stop reason.
pub fn stop_reason_text(r: StopReason) -> (s: &'static str)
    ensures
        s@ == stop_reason_name(r),
{
    match r {
        StopReason::EndTurn => "end_turn",
        StopReason::MaxTokens => "max_tokens",
        StopReason::StopSequence => "stop_sequence",
        StopReason::ToolUse => "tool_use",
        StopReason::Other => "other",
    }
}

pub open spec fn text(s: Seq<char>) -> JsonView {
    JsonView::Str(s)
}

pub open spec fn count(n: u32) -> JsonView {
    JsonView::Number(NumberView::PosInt(n as u64))
}

/// The JSON payload of one stream event on the SSE wire: a flat object
/// whose `type` names the event.
pub open spec fn event_payload(ev: StreamEvent) -> JsonView {
    JsonView::Object(event_members(ev))
}

/// The members of an event's payload.
pub open spec fn event_members(ev: StreamEvent) -> Seq<(Seq<char>, JsonView)> {
    match ev {
        StreamEvent::SessionStart { session_id, provider, model } => seq![
            ("type"@, text("session_start"@)),
            ("session_id"@, text(session_id@)),
            ("provider"@, text(provider@)),
            ("model"@, text(model@)),
        ],
        StreamEvent::TurnStart { turn } => seq![
            ("type"@, text("turn_start"@)),
            ("turn"@, count(turn)),
        ],
        StreamEvent::TextDelta { turn, delta } => seq![
            ("type"@, text("text_delta"@)),
            ("turn"@, count(turn)),
            ("delta"@, text(delta@)),
        ],
        StreamEvent::ToolUseStart { turn, id, name, label } => seq![
            ("type"@, text("tool_use_start"@)),
            ("turn"@, count(turn)),
            ("id"@, text(id@)),
            ("name"@, text(name@)),
            ("label"@, text(label@)),
        ],
        StreamEvent::ToolUseEnd { turn, id, name, ok, denied, error } => {
            let base = seq![
                ("type"@, text("tool_use_end"@)),
                ("turn"@, count(turn)),
                ("id"@, text(id@)),
                ("name"@, text(name@)),
                ("ok"@, JsonView::Bool(ok)),
                ("denied"@, JsonView::Bool(denied)),
            ];
            match error {
                Some(e) => base.push(("error"@, text(e@))),
                None => base,
            }
        },
        StreamEvent::Done { turns, stop_reason, session_id } => seq![
            ("type"@, text("done"@)),
            ("turns"@, count(turns)),
            ("stop_reason"@, text(stop_reason_name(stop_reason))),
            ("tools"@, JsonView::Array(Seq::empty())),
            ("session_id"@, text(session_id@)),
        ],
        StreamEvent::Error { message } => seq![
            ("type"@, text("error"@)),
            ("message"@, text(message@)),
        ],
    }
}

/// Every field of a stream event can be read back from its payload, under
/// the member named after the field, and `type` names the event.
pub proof fn lemma_event_fields_in_payload(ev: StreamEvent)
    ensures
        ({
            let p = event_payload(ev);
            match ev {
                StreamEvent::SessionStart { session_id, provider, model } => {
                    &&& str_member(p, "type"@) == Some("session_start"@)
                    &&& str_member(p, "session_id"@) == Some(session_id@)
                    &&& str_member(p, "provider"@) == Some(provider@)
                    &&& str_member(p, "model"@) == Some(model@)
                },
                StreamEvent::TurnStart { turn } => {
                    &&& str_member(p, "type"@) == Some("turn_start"@)
                    &&& view_get(p, "turn"@) == Some(JsonView::Number(NumberView::PosInt(turn as u64)))
                },
                StreamEvent::TextDelta { turn, delta } => {
                    &&& str_member(p, "type"@) == Some("text_delta"@)
                    &&& view_get(p, "turn"@) == Some(JsonView::Number(NumberView::PosInt(turn as u64)))
                    &&& str_member(p, "delta"@) == Some(delta@)
                },
                StreamEvent::ToolUseStart { turn, id, name, label } => {
                    &&& str_member(p, "type"@) == Some("tool_use_start"@)
                    &&& view_get(p, "turn"@) == Some(JsonView::Number(NumberView::PosInt(turn as u64)))
                    &&& str_member(p, "id"@) == Some(id@)
                    &&& str_member(p, "name"@) == Some(name@)
                    &&& str_member(p, "label"@) == Some(label@)
                },
                StreamEvent::ToolUseEnd { turn, id, name, ok, denied, error } => {
                    &&& str_member(p, "type"@) == Some("tool_use_end"@)
                    &&& view_get(p, "turn"@) == Some(JsonView::Number(NumberView::PosInt(turn as u64)))
                    &&& str_member(p, "id"@) == Some(id@)
                    &&& str_member(p, "name"@) == Some(name@)
                    &&& view_get(p, "ok"@) == Some(JsonView::Bool(ok))
                    &&& view_get(p, "denied"@) == Some(JsonView::Bool(denied))
                    &&& match error {
                        Some(e) => str_member(p, "error"@) == Some(e@),
                        None => view_get(p, "error"@) is None,
                    }
                },
                StreamEvent::Done { turns, stop_reason, session_id } => {
                    &&& str_member(p, "type"@) == Some("done"@)
                    &&& view_get(p, "turns"@) == Some(JsonView::Number(NumberView::PosInt(turns as u64)))
                    &&& str_member(p, "stop_reason"@) == Some(stop_reason_name(stop_reason))
                    &&& view_get(p, "tools"@) == Some(JsonView::Array(Seq::empty()))
                    &&& str_member(p, "session_id"@) == Some(session_id@)
                },
                StreamEvent::Error { message } => {
                    &&& str_member(p, "type"@) == Some("error"@)
                    &&& str_member(p, "message"@) == Some(message@)
                },
            }
        }),
{
    let e = event_members(ev);
    reveal_strlit("type");
    reveal_strlit("session_id");
    reveal_strlit("provider");
    reveal_strlit("model");
    reveal_strlit("turn");
    reveal_strlit("turns");
    reveal_strlit("delta");
    reveal_strlit("id");
    reveal_strlit("name");
    reveal_strlit("label");
    reveal_strlit("ok");
    reveal_strlit("denied");
    reveal_strlit("error");
    reveal_strlit("stop_reason");
    reveal_strlit("tools");
    reveal_strlit("message");
    assert("type"@.len() == 4 && "type"@[0] == 't' && "type"@[1] == 'y');
    assert("session_id"@.len() == 10 && "session_id"@[0] == 's' && "session_id"@[1] == 'e');
    assert("provider"@.len() == 8 && "provider"@[0] == 'p' && "provider"@[1] == 'r');
    assert("model"@.len() == 5 && "model"@[0] == 'm' && "model"@[1] == 'o');
    assert("turn"@.len() == 4 && "turn"@[0] == 't' && "turn"@[1] == 'u');
    assert("turns"@.len() == 5 && "turns"@[0] == 't' && "turns"@[1] == 'u');
    assert("delta"@.len() == 5 && "delta"@[0] == 'd' && "delta"@[1] == 'e');
    assert("id"@.len() == 2 && "id"@[0] == 'i' && "id"@[1] == 'd');
    assert("name"@.len() == 4 && "name"@[0] == 'n' && "name"@[1] == 'a');
    assert("label"@.len() == 5 && "label"@[0] == 'l' && "label"@[1] == 'a');
    assert("ok"@.len() == 2 && "ok"@[0] == 'o' && "ok"@[1] == 'k');
    assert("denied"@.len() == 6 && "denied"@[0] == 'd' && "denied"@[1] == 'e');
    assert("error"@.len() == 5 && "error"@[0] == 'e' && "error"@[1] == 'r');
    assert("stop_reason"@.len() == 11 && "stop_reason"@[0] == 's' && "stop_reason"@[1] == 't');
    assert("tools"@.len() == 5 && "tools"@[0] == 't' && "tools"@[1] == 'o');
    assert("message"@.len() == 7 && "message"@[0] == 'm' && "message"@[1] == 'e');
    match ev {
        StreamEvent::SessionStart { .. } => {
            lemma_member_found(e, "type"@, 0);
            lemma_member_found(e, "session_id"@, 1);
            lemma_member_found(e, "provider"@, 2);
            lemma_member_found(e, "model"@, 3);
        },
        StreamEvent::TurnStart { .. } => {
            lemma_member_found(e, "type"@, 0);
            lemma_member_found(e, "turn"@, 1);
        },
        StreamEvent::TextDelta { .. } => {
            lemma_member_found(e, "type"@, 0);
            lemma_member_found(e, "turn"@, 1);
            lemma_member_found(e, "delta"@, 2);
        },
        StreamEvent::ToolUseStart { .. } => {
            lemma_member_found(e, "type"@, 0);
            lemma_member_found(e, "turn"@, 1);
            lemma_member_found(e, "id"@, 2);
            lemma_member_found(e, "name"@, 3);
            lemma_member_found(e, "label"@, 4);
        },
        StreamEvent::Done { .. } => {
            lemma_member_found(e, "type"@, 0);
            lemma_member_found(e, "turns"@, 1);
            lemma_member_found(e, "stop_reason"@, 2);
            lemma_member_found(e, "tools"@, 3);
            lemma_member_found(e, "session_id"@, 4);
        },
        StreamEvent::Error { .. } => {
            lemma_member_found(e, "type"@, 0);
            lemma_member_found(e, "message"@, 1);
        },
        StreamEvent::ToolUseEnd { error, .. } => {
            lemma_member_found(e, "type"@, 0);
            lemma_member_found(e, "turn"@, 1);
            lemma_member_found(e, "id"@, 2);
            lemma_member_found(e, "name"@, 3);
            lemma_member_found(e, "ok"@, 4);
            lemma_member_found(e, "denied"@, 5);
            match error {
                Some(_) => lemma_member_found(e, "error"@, 6),
                None => lemma_member_absent(e, "error"@),
            }
        },
    }
}

fn str_value(s: &str) -> (v: JsonValue)
    ensures
        v@ == text(s@),
{
    JsonValue::String(s.to_owned())
}

fn count_value(n: u32) -> (v: JsonValue)
    ensures
        v@ == count(n),
{
    JsonValue::unsigned(n as u64)
}

/// The JSON payload of one stream event.
pub fn stream_event_payload(ev: &StreamEvent) -> (v: JsonValue)
    ensures
        v@ == event_payload(*ev),
{
    let mut e: Vec<(String, JsonValue)> = Vec::new();
    match ev {
        StreamEvent::SessionStart { session_id, provider, model } => {
            push_member(&mut e, "type", str_value("session_start"));
            push_member(&mut e, "session_id", str_value(session_id.as_str()));
            push_member(&mut e, "provider", str_value(provider.as_str()));
            push_member(&mut e, "model", str_value(model.as_str()));
        },
        StreamEvent::TurnStart { turn } => {
            push_member(&mut e, "type", str_value("turn_start"));
            push_member(&mut e, "turn", count_value(*turn));
        },
        StreamEvent::TextDelta { turn, delta } => {
            push_member(&mut e, "type", str_value("text_delta"));
            push_member(&mut e, "turn", count_value(*turn));
            push_member(&mut e, "delta", str_value(delta.as_str()));
        },
        StreamEvent::ToolUseStart { turn, id, name, label } => {
            push_member(&mut e, "type", str_value("tool_use_start"));
            push_member(&mut e, "turn", count_value(*turn));
            push_member(&mut e, "id", str_value(id.as_str()));
            push_member(&mut e, "name", str_value(name.as_str()));
            push_member(&mut e, "label", str_value(label.as_str()));
        },
        StreamEvent::ToolUseEnd { turn, id, name, ok, denied, error } => {
            push_member(&mut e, "type", str_value("tool_use_end"));
            push_member(&mut e, "turn", count_value(*turn));
            push_member(&mut e, "id", str_value(id.as_str()));
            push_member(&mut e, "name", str_value(name.as_str()));
            push_member(&mut e, "ok", JsonValue::Bool(*ok));
            push_member(&mut e, "denied", JsonValue::Bool(*denied));
            match error {
                Some(m) => push_member(&mut e, "error", str_value(m.as_str())),
                None => {},
            }
        },
        StreamEvent::Done { turns, stop_reason, session_id } => {
            push_member(&mut e, "type", str_value("done"));
            push_member(&mut e, "turns", count_value(*turns));
            push_member(&mut e, "stop_reason", str_value(stop_reason_text(*stop_reason)));
            let none: Vec<JsonValue> = Vec::new();
            let tools = JsonValue::Array(none);
            assert(tools@ =~= JsonView::Array(Seq::empty()));
            push_member(&mut e, "tools", tools);
            push_member(&mut e, "session_id", str_value(session_id.as_str()));
        },
        StreamEvent::Error { message } => {
            push_member(&mut e, "type", str_value("error"));
            push_member(&mut e, "message", str_value(message.as_str()));
        },
    }
    assert(entry_views(e@) =~= event_members(*ev));
    JsonValue::Object(e)
}

/// The `data:` line of one stream event: its payload as compact JSON.
pub fn stream_event_line(ev: &StreamEvent) -> (line: String)
    ensures
        line@ == compact_text(event_payload(*ev)),
{
    stream_event_payload(ev).to_compact_string()
}

/// The body of `GET /v1/agents`: the one mounted agent and its endpoint.
pub open spec fn agents_listing_view(name: Seq<char>) -> JsonView {
    JsonView::Object(
        seq![
            (
                "agents"@,
                JsonView::Array(
                    seq![
                        JsonView::Object(
                            seq![
                                ("name"@, text(name)),
                                ("endpoint"@, text("/v1/agents/"@ + name)),
                            ],
                        ),
                    ],
                ),
            ),
        ],
    )
}

/// The body of `GET /v1/agents`.
pub fn agents_listing(name: &str) -> (v: JsonValue)
    ensures
        v@ == agents_listing_view(name@),
{
    let mut endpoint = "/v1/agents/".to_owned();
    append_str(&mut endpoint, name);
    let mut agent: Vec<(String, JsonValue)> = Vec::new();
    push_member(&mut agent, "name", str_value(name));
    push_member(&mut agent, "endpoint", JsonValue::String(endpoint));
    assert(entry_views(agent@) =~= seq![
        ("name"@, text(name@)),
        ("endpoint"@, text("/v1/agents/"@ + name@)),
    ]);
    let mut list: Vec<JsonValue> = Vec::new();
    let a = JsonValue::Object(agent);
    let ghost av = a@;
    proof {
        lemma_json_views_push(list@, a);
    }
    list.push(a);
    assert(json_views(list@) =~= seq![av]);
    let arr = JsonValue::Array(list);
    let mut top: Vec<(String, JsonValue)> = Vec::new();
    push_member(&mut top, "agents", arr);
    assert(entry_views(top@) =~= seq![("agents"@, JsonView::Array(seq![av]))]);
    JsonValue::Object(top)
}

/// The body of `GET /healthz`.
pub open spec fn health_view() -> JsonView {
    JsonView::Object(seq![("status"@, text("ok"@)), ("service"@, text("bellows"@))])
}

/// The body of `GET /healthz`.
pub fn health_payload() -> (v: JsonValue)
    ensures
        v@ == health_view(),
{
    let mut e: Vec<(String, JsonValue)> = Vec::new();
    push_member(&mut e, "status", str_value("ok"));
    push_member(&mut e, "service", str_value("bellows"));
    assert(entry_views(e@) =~= seq![("status"@, text("ok"@)), ("service"@, text("bellows"@))]);
    JsonValue::Object(e)
}

/// The body the buffered endpoint answers with when a run fails.
pub fn error_payload(message: &str) -> (v: JsonValue)
    ensures
        v@ == JsonView::Object(seq![("error"@, text(message@))]),
{
    let mut e: Vec<(String, JsonValue)> = Vec::new();
    push_member(&mut e, "error", str_value(message));
    assert(entry_views(e@) =~= seq![("error"@, text(message@))]);
    JsonValue::Object(e)
}

// ── Port ────────────────────────────────────────────────────────────────────

pub open spec fn digit_value(c: char) -> int {
    c as int - '0' as int
}

pub open spec fn is_digit(c: char) -> bool {
    '0' <= c <= '9'
}

pub open spec fn all_digits(d: Seq<char>) -> bool {
    forall|i: int| 0 <= i < d.len() ==> is_digit(#[trigger] d[i])
}

/// The value of a run of decimal digits.
pub open spec fn digits_value(s: Seq<char>) -> int
    decreases s.len(),
{
    if s.len() == 0 {
        0
    } else {
        digits_value(s.drop_last()) * 10 + digit_value(s.last())
    }
}

/// The digits of a number text: without a leading `+`.
pub open spec fn unsigned_digits(s: Seq<char>) -> Seq<char> {
    if s.len() > 0 && s[0] == '+' {
        s.drop_first()
    } else {
        s
    }
}

/// What `u16::from_str` gives: an optional `+`, then one or more decimal
/// digits whose value fits in 16 bits.
pub open spec fn parsed_u16(s: Seq<char>) -> Option<u16> {
    let d = unsigned_digits(s);
    if d.len() > 0 && all_digits(d) && digits_value(d) <= 0xffff {
        Some(digits_value(d) as u16)
    } else {
        None
    }
}

proof fn lemma_digits_value_nonneg(s: Seq<char>)
    requires
        all_digits(s),
    ensures
        digits_value(s) >= 0,
    decreases s.len(),
{
    if s.len() > 0 {
        lemma_digits_value_nonneg(s.drop_last());
    }
}

/// A run of digits is worth at least what any prefix of it is worth.
proof fn lemma_digits_prefix_le(d: Seq<char>, k: int)
    requires
        0 <= k <= d.len(),
        all_digits(d),
    ensures
        digits_value(d) >= digits_value(d.take(k)),
    decreases d.len() - k,
{
    if k == d.len() {
        assert(d.take(k) =~= d);
    } else {
        lemma_digits_prefix_le(d, k + 1);
        assert(d.take(k + 1).drop_last() =~= d.take(k));
        lemma_digits_value_nonneg(d.take(k));
    }
}

/// The digits of the decimal text of `n` are worth `n`.
proof fn lemma_decimal_digits(n: nat)
    ensures
        decimal(n).len() > 0,
        all_digits(decimal(n)),
        digits_value(decimal(n)) == n,
    decreases n,
{
    if n >= 10 {
        lemma_decimal_digits(n / 10);
        let d = decimal(n);
        assert(d.drop_last() == decimal(n / 10));
        assert(d.last() == digit_char(n % 10));
        assert(digit_value(digit_char(n % 10)) == n % 10);
        assert(digits_value(d) == digits_value(decimal(n / 10)) * 10 + digit_value(d.last()));
        assert((n / 10) * 10 + n % 10 == n);
        assert forall|i: int| 0 <= i < d.len() implies is_digit(#[trigger] d[i]) by {
            if i < d.len() - 1 {
                assert(d[i] == decimal(n / 10)[i]);
            }
        }
    } else {
        let d = decimal(n);
        assert(d.drop_last() =~= Seq::<char>::empty());
        assert(digits_value(d.drop_last()) == 0);
        assert(d.last() == digit_char(n));
        assert(digit_value(digit_char(n)) == n);
        assert(digits_value(d) == digits_value(d.drop_last()) * 10 + digit_value(d.last()));
    }
}

/// Parsing reads back any port number from its decimal text, with or
/// without a leading `+`; a text with a character that is not a digit (after
/// that sign) is not a port number, and neither is an empty one.
pub proof fn lemma_port_text_round_trip(n: u16, s: Seq<char>)
    ensures
        parsed_u16(decimal(n as nat)) == Some(n),
        parsed_u16(seq!['+'] + decimal(n as nat)) == Some(n),
        parsed_u16(Seq::empty()) is None,
        (exists|i: int| 0 <= i < unsigned_digits(s).len() && !is_digit(#[trigger] unsigned_digits(s)[i]))
            ==> parsed_u16(s) is None,
{
    lemma_decimal_digits(n as nat);
    let d = decimal(n as nat);
    assert(d[0] != '+');
    assert((seq!['+'] + d).drop_first() =~= d);
}

/// Parse a port number as `u16::from_str` does.
pub fn parse_u16(s: &str) -> (r: Option<u16>)
    ensures
        r == parsed_u16(s@),
{
    let c = chars_of(s);
    let n = c.len();
    let start: usize = if n > 0 && c[0] == '+' {
        1
    } else {
        0
    };
    let ghost d = unsigned_digits(s@);
    assert(d =~= c@.skip(start as int));
    if start == n {
        return None;
    }
    let mut value: u32 = 0;
    let mut i: usize = start;
    assert(c@.subrange(start as int, start as int) =~= Seq::<char>::empty());
    while i < n
        invariant
            start <= i <= n,
            n == c.len(),
            c@ == s@,
            d == unsigned_digits(s@),
            d =~= c@.skip(start as int),
            forall|k: int| start <= k < i ==> is_digit(#[trigger] c@[k]),
            value as int == digits_value(c@.subrange(start as int, i as int)),
            value <= 0xffff,
        decreases n - i,
    {
        let ch = c[i];
        assert(d[i - start] == c@[i as int]);
        if !('0' <= ch && ch <= '9') {
            assert(!all_digits(d));
            return None;
        }
        let dv = (ch as u32) - ('0' as u32);
        assert(c@.subrange(start as int, i + 1).drop_last() =~= c@.subrange(start as int, i as int));
        let next: u32 = value * 10 + dv;
        if next > 0xffff {
            proof {
                if all_digits(d) {
                    assert(d.take(i + 1 - start) =~= c@.subrange(start as int, i + 1));
                    lemma_digits_prefix_le(d, i + 1 - start);
                }
            }
            return None;
        }
        value = next;
        i = i + 1;
    }
    assert(c@.subrange(start as int, n as int) =~= d);
    Some(value as u16)
}

/// The port to listen on: the value of `PORT` when it parses as a port
/// number, else [`DEFAULT_PORT`].
pub fn port_or_default(env_value: Option<&str>) -> (port: u16)
    ensures
        port == match env_value {
            Some(v) => match parsed_u16(v@) {
                Some(p) => p,
                None => DEFAULT_PORT,
            },
            None => DEFAULT_PORT,
        },
{
    match env_value {
        Some(v) => match parse_u16(v) {
            Some(p) => p,
            None => DEFAULT_PORT,
        },
        None => DEFAULT_PORT,
    }
}

} // verus!
