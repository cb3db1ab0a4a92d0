//! Markdown skills: a YAML frontmatter block between `---` markers, then a
//! Markdown body. Parsing, bundles of skills looked up by name, and the
//! order in which a directory of skills is presented.

use vstd::prelude::*;
use vstd::string::StrSliceExecFns;

use crate::json::{parse_yaml, wf_json, yaml_document, JsonValue, JsonView};
use crate::error::io_error_text;
use crate::text::{append_str, chars_of, occurs_at, str_eq};

verus! {

/// One Markdown skill: parsed frontmatter and raw body.
#[derive(Debug)]
pub struct Skill {
    /// Stable name (derived from the file name or given by the caller).
    pub name: String,
    /// The YAML frontmatter, as a generic JSON value.
    pub frontmatter: JsonValue,
    /// Raw Markdown body (everything after the closing `---`).
    pub body: String,
}

pub struct SkillView {
    pub name: Seq<char>,
    pub frontmatter: JsonView,
    pub body: Seq<char>,
}

impl View for Skill {
    type V = SkillView;

    open spec fn view(&self) -> SkillView {
        SkillView { name: self.name@, frontmatter: self.frontmatter@, body: self.body@ }
    }
}

impl Clone for Skill {
    fn clone(&self) -> (r: Self)
        ensures
            r@ == self@,
    {
        Skill { name: self.name.clone(), frontmatter: self.frontmatter.clone(), body: self.body.clone() }
    }
}

/// Errors of skill loading.
#[derive(Debug)]
pub enum SkillError {
    /// The frontmatter delimiters were missing or malformed.
    BadFrontmatter {
        /// Name of the skill (or path) that failed to parse.
        file: String,
        /// Specific reason.
        reason: String,
    },
    /// The frontmatter is not a YAML document.
    Yaml {
        /// Name of the skill (or path) that failed.
        file: String,
        /// Inner YAML error.
        source: serde_yaml_ng::Error,
    },
    /// I/O error while reading skills from disk.
    Io(std::io::Error),
}

/// `serde_yaml_ng::Error`'s `Display` text. Nothing is stated of it: it
/// describes where and why the YAML failed to parse.
#[verifier::external_body]
fn yaml_error_text(e: &serde_yaml_ng::Error) -> String {
    e.to_string()
}

/// The message that `Display` writes for a frontmatter error.
pub open spec fn bad_frontmatter_text(file: Seq<char>, reason: Seq<char>) -> Seq<char> {
    "malformed frontmatter in `"@ + file + "`: "@ + reason
}

impl SkillError {
    /// The human-readable message of the error (what `Display` writes).
    pub fn text(&self) -> (s: String)
        ensures
            self matches SkillError::BadFrontmatter { file, reason } ==> s@ == bad_frontmatter_text(
                file@,
                reason@,
            ),
            self matches SkillError::Yaml { file, .. } ==> s@.len() >= file@.len() + 18 && s@.take(
                file@.len() + 18int,
            ) == "yaml error in `"@ + file@ + "`: "@,
    {
        match self {
            SkillError::BadFrontmatter { file, reason } => {
                let mut s = "malformed frontmatter in `".to_owned();
                append_str(&mut s, file.as_str());
                append_str(&mut s, "`: ");
                append_str(&mut s, reason.as_str());
                s
            },
            SkillError::Yaml { file, source } => {
                let mut s = "yaml error in `".to_owned();
                append_str(&mut s, file.as_str());
                append_str(&mut s, "`: ");
                let ghost head = s@;
                proof {
                    reveal_strlit("yaml error in `");
                    reveal_strlit("`: ");
                }
                append_str(&mut s, yaml_error_text(source).as_str());
                assert(s@.take(file@.len() + 18int) =~= head);
                s
            },
            SkillError::Io(e) => io_error_text(e),
        }
    }
}

// ── Frontmatter ─────────────────────────────────────────────────────────────

/// Whether `s` begins with `p`.
pub open spec fn starts_with(s: Seq<char>, p: Seq<char>) -> bool {
    p.len() <= s.len() && s.take(p.len() as int) == p
}

/// The first position at or after `i` where `p` occurs in `s`.
pub open spec fn find_from(s: Seq<char>, p: Seq<char>, i: int) -> Option<int>
    decreases s.len() + 1 - i,
{
    if i < 0 || i + p.len() > s.len() {
        None
    } else if s.subrange(i, i + p.len()) == p {
        Some(i)
    } else {
        find_from(s, p, i + 1)
    }
}

/// The first position where `p` occurs in `s` (`str::find`).
pub open spec fn find(s: Seq<char>, p: Seq<char>) -> Option<int> {
    find_from(s, p, 0)
}

/// `s` without its leading newlines (`trim_start_matches('\n')`).
pub open spec fn skip_newlines(s: Seq<char>) -> Seq<char>
    decreases s.len(),
{
    if s.len() > 0 && s[0] == '\n' {
        skip_newlines(s.drop_first())
    } else {
        s
    }
}

/// The frontmatter and body of a skill source: the source must open with
/// `---\n`, and the frontmatter runs to the first `\n---\n`; the body is
/// what follows that marker, without its leading newlines. Any other
/// source has no frontmatter.
pub open spec fn frontmatter_split(src: Seq<char>) -> Option<(Seq<char>, Seq<char>)> {
    if !starts_with(src, "---\n"@) {
        None
    } else {
        let rest = src.skip(4);
        match find(rest, "\n---\n"@) {
            None => None,
            Some(e) => Some((rest.take(e), skip_newlines(rest.skip(e + 5)))),
        }
    }
}

/// The reason given when a source does not open with `---\n`.
pub open spec fn missing_leading_reason() -> Seq<char> {
    "missing leading `---\\n` marker"@
}

/// The reason given when no closing `---` follows the frontmatter.
pub open spec fn missing_closing_reason() -> Seq<char> {
    "missing closing `---` marker"@
}

/// The first position where `p` occurs in `s`.
fn find_in(s: &Vec<char>, p: &Vec<char>) -> (r: Option<usize>)
    ensures
        match find(s@, p@) {
            Some(e) => r == Some(e as usize),
            None => r is None,
        },
{
    let mut i: usize = 0;
    while p.len() <= s.len() && i <= s.len() - p.len()
        invariant
            i <= s.len() + 1,
            find(s@, p@) == find_from(s@, p@, i as int),
        decreases s.len() + 1 - i,
    {
        if occurs_at(s, p, i) {
            return Some(i);
        }
        assert(p.len() > 0) by {
            if p.len() == 0 {
                assert(s@.subrange(i as int, i as int) =~= p@);
            }
        }
        i = i + 1;
    }
    None
}

/// The first position at or after `k` that is not a newline, and what
/// skipping newlines from `k` leaves.
fn skip_newlines_from(s: &Vec<char>, k: usize) -> (e: usize)
    requires
        k <= s.len(),
    ensures
        k <= e <= s.len(),
        skip_newlines(s@.skip(k as int)) == s@.skip(e as int),
{
    let mut e = k;
    while e < s.len() && s[e] == '\n'
        invariant
            k <= e <= s.len(),
            skip_newlines(s@.skip(k as int)) == skip_newlines(s@.skip(e as int)),
        decreases s.len() - e,
    {
        assert(s@.skip(e as int).drop_first() =~= s@.skip(e + 1));
        e = e + 1;
    }
    e
}

/// Split a skill source into its frontmatter and body. Only a source that
/// opens with `---\n` and closes its frontmatter with `\n---\n` is
/// accepted; any other is rejected with `BadFrontmatter` naming `name`.
pub fn split_frontmatter<'a>(name: &str, source: &'a str) -> (r: Result<(&'a str, &'a str), SkillError>)
    ensures
        match frontmatter_split(source@) {
            Some((f, b)) => r matches Ok((x, y)) && x@ == f && y@ == b,
            None => r matches Err(SkillError::BadFrontmatter { file, reason }) && file@ == name@ && (
            if starts_with(source@, "---\n"@) {
                reason@ == missing_closing_reason()
            } else {
                reason@ == missing_leading_reason()
            }),
        },
{
    let lead = chars_of("---\n");
    let close5 = chars_of("\n---\n");
    proof {
        reveal_strlit("---\n");
        reveal_strlit("\n---\n");
        reveal_strlit("missing leading `---\\n` marker");
        reveal_strlit("missing closing `---` marker");
    }
    let src = chars_of(source);
    if src.len() < 4 || !occurs_at(&src, &lead, 0) {
        proof {
            if src.len() >= 4 {
                assert(src@.subrange(0, 4) =~= src@.take(4));
            }
        }
        return Err(
            SkillError::BadFrontmatter {
                file: name.to_owned(),
                reason: "missing leading `---\\n` marker".to_owned(),
            },
        );
    }
    assert(src@.subrange(0, 4) =~= src@.take(4));
    let n = src.len();
    let rest = source.substring_char(4, n);
    assert(rest@ =~= source@.skip(4));
    let r = chars_of(rest);
    match find_in(&r, &close5) {
        None => Err(
            SkillError::BadFrontmatter {
                file: name.to_owned(),
                reason: "missing closing `---` marker".to_owned(),
            },
        ),
        Some(e) => {
            proof {
                lemma_find_bound(r@, close5@, 0);
            }
            let len = r.len();
            let body_start = skip_newlines_from(&r, e + 5);
            let front = rest.substring_char(0, e);
            let body = rest.substring_char(body_start, len);
            assert(front@ =~= r@.take(e as int));
            assert(body@ =~= r@.skip(body_start as int));
            Ok((front, body))
        },
    }
}

/// A position found by `find_from` leaves room for the pattern.
proof fn lemma_find_bound(s: Seq<char>, p: Seq<char>, i: int)
    ensures
        find_from(s, p, i) matches Some(e) ==> i <= e && e + p.len() <= s.len() && s.subrange(
            e,
            e + p.len(),
        ) == p,
    decreases s.len() + 1 - i,
{
    if !(i < 0 || i + p.len() > s.len()) && s.subrange(i, i + p.len()) != p {
        lemma_find_bound(s, p, i + 1);
    }
}

/// Parse one Markdown skill source into a [`Skill`] named `name`.
pub fn parse_skill(name: &str, source: &str) -> (r: Result<Skill, SkillError>)
    ensures
        match frontmatter_split(source@) {
            None => r matches Err(SkillError::BadFrontmatter { file, .. }) && file@ == name@,
            Some((f, b)) => match yaml_document(f) {
                None => r matches Err(SkillError::Yaml { file, .. }) && file@ == name@,
                Some(v) => r matches Ok(s) && s@ == (SkillView { name: name@, frontmatter: v, body: b }),
            },
        },
        r matches Ok(s) ==> wf_json(s.frontmatter@),
{
    let (front, body) = match split_frontmatter(name, source) {
        Ok(parts) => parts,
        Err(e) => return Err(e),
    };
    match parse_yaml(front) {
        Ok(frontmatter) => Ok(Skill { name: name.to_owned(), frontmatter, body: body.to_owned() }),
        Err(source) => Err(SkillError::Yaml { file: name.to_owned(), source }),
    }
}

/// Whether `p` occurs anywhere in `s`.
pub open spec fn contains_text(s: Seq<char>, p: Seq<char>) -> bool {
    exists|i: int| 0 <= i && i + p.len() <= s.len() && #[trigger] s.subrange(i, i + p.len()) == p
}

/// The closing marker is found right after a frontmatter that holds no
/// `\n---` of its own.
proof fn lemma_closing_found(f: Seq<char>, b: Seq<char>, i: int)
    requires
        0 <= i <= f.len(),
        !contains_text(f, "\n---"@),
    ensures
        find_from(f + "\n---\n"@ + b, "\n---\n"@, i) == Some(f.len() as int),
    decreases f.len() - i,
{
    reveal_strlit("\n---\n");
    reveal_strlit("\n---");
    let r = f + "\n---\n"@ + b;
    let p = "\n---\n"@;
    if i == f.len() {
        assert(r.subrange(i, i + 5) =~= p);
    } else {
        if r.subrange(i, i + 5) == p {
            if i + 4 <= f.len() {
                assert(f.subrange(i, i + 4) =~= "\n---"@) by {
                    assert forall|k: int| 0 <= k < 4 implies f.subrange(i, i + 4)[k] == "\n---"@[k] by {
                        assert(r.subrange(i, i + 5)[k] == r[i + k]);
                    }
                }
                assert(contains_text(f, "\n---"@));
            } else {
                let k = f.len() - i;
                assert(r.subrange(i, i + 5)[k] == r[f.len() as int]);
                assert(r[f.len() as int] == '\n');
                assert(p[k] == '-');
            }
        }
        lemma_closing_found(f, b, i + 1);
    }
}

/// A source written as `---\n`, the frontmatter, `\n---\n`, then the body
/// splits back into that frontmatter and that body, when the frontmatter
/// holds no `\n---` and the body does not open with a newline.
pub proof fn lemma_frontmatter_round_trip(f: Seq<char>, b: Seq<char>)
    requires
        !contains_text(f, "\n---"@),
        !(b.len() > 0 && b[0] == '\n'),
    ensures
        frontmatter_split("---\n"@ + f + "\n---\n"@ + b) == Some((f, b)),
{
    reveal_strlit("---\n");
    reveal_strlit("\n---\n");
    let src = "---\n"@ + f + "\n---\n"@ + b;
    assert(src.take(4) =~= "---\n"@);
    let rest = src.skip(4);
    assert(rest =~= f + "\n---\n"@ + b);
    lemma_closing_found(f, b, 0);
    assert(rest.skip(f.len() + 5int) =~= b);
    assert(rest.take(f.len() as int) =~= f);
}

proof fn lemma_find_none(s: Seq<char>, p: Seq<char>, i: int)
    requires
        !contains_text(s, p),
    ensures
        find_from(s, p, i) is None,
    decreases s.len() + 1 - i,
{
    if !(i < 0 || i + p.len() > s.len()) {
        lemma_find_none(s, p, i + 1);
    }
}

/// A source whose frontmatter is never closed by `\n---\n` (a closing
/// `---` without its newline, or none at all) is rejected.
pub proof fn lemma_unclosed_frontmatter_rejected(src: Seq<char>)
    requires
        !contains_text(src.skip(4), "\n---\n"@),
    ensures
        frontmatter_split(src) is None,
{
    lemma_find_none(src.skip(4), "\n---\n"@, 0);
}

// ── Skill sets ──────────────────────────────────────────────────────────────

/// Whether `s[i]` is the first skill of `s` named `name`.
pub open spec fn is_first_named(s: Seq<Skill>, name: Seq<char>, i: int) -> bool {
    &&& 0 <= i < s.len()
    &&& s[i].name@ == name
    &&& forall|j: int| 0 <= j < i ==> (#[trigger] s[j]).name@ != name
}

/// A bundle of skills, looked up by name.
pub trait SkillSet {
    /// The skills of the set, in their stable order.
    spec fn skill_list(&self) -> Seq<Skill>;

    /// The first skill named `name`, if any.
    fn get(&self, name: &str) -> (r: Option<&Skill>)
        ensures
            r matches Some(x) ==> exists|i: int|
                is_first_named(self.skill_list(), name@, i) && *x == #[trigger] self.skill_list()[i],
            r is None ==> forall|i: int|
                0 <= i < self.skill_list().len() ==> (#[trigger] self.skill_list()[i]).name@ != name@,
    ;

    /// All skills, in stable order.
    fn all(&self) -> (r: &[Skill])
        ensures
            r@ == self.skill_list(),
    ;

    /// Number of skills in the set.
    fn len(&self) -> (n: usize)
        ensures
            n == self.skill_list().len(),
    {
        self.all().len()
    }

    /// Whether the set holds no skill.
    fn is_empty(&self) -> (b: bool)
        ensures
            b == (self.skill_list().len() == 0),
    {
        self.all().len() == 0
    }
}

/// The empty skill set, for workflows that declare no skills.
#[derive(Debug, Default, Clone, Copy)]
pub struct EmptySkillSet;

impl SkillSet for EmptySkillSet {
    open spec fn skill_list(&self) -> Seq<Skill> {
        Seq::empty()
    }

    fn get(&self, name: &str) -> (r: Option<&Skill>) {
        None
    }

    fn all(&self) -> (r: &[Skill]) {
        let r: &[Skill] = &[];
        assert(r@ =~= Seq::<Skill>::empty());
        r
    }
}

/// A concrete bundle of skills, in the order given.
#[derive(Debug, Clone, Default)]
pub struct SkillBundle {
    skills: Vec<Skill>,
}

impl SkillBundle {
    /// A bundle of exactly `skills`, in that order.
    pub fn from_vec(skills: Vec<Skill>) -> (b: Self)
        ensures
            b.skill_list() == skills@,
    {
        SkillBundle { skills }
    }
}

impl SkillSet for SkillBundle {
    closed spec fn skill_list(&self) -> Seq<Skill> {
        self.skills@
    }

    fn get(&self, name: &str) -> (r: Option<&Skill>) {
        let mut i: usize = 0;
        while i < self.skills.len()
            invariant
                i <= self.skills.len(),
                forall|j: int| 0 <= j < i ==> (#[trigger] self.skills@[j]).name@ != name@,
            decreases self.skills.len() - i,
        {
            if str_eq(self.skills[i].name.as_str(), name) {
                assert(is_first_named(self.skills@, name@, i as int));
                return Some(&self.skills[i]);
            }
            i = i + 1;
        }
        None
    }

    fn all(&self) -> (r: &[Skill]) {
        self.skills.as_slice()
    }
}

// ── Directory order ─────────────────────────────────────────────────────────

/// Whether `a` sorts before or equal to `b`, character by character
/// (the order of `String`'s `Ord`: UTF-8 bytes sort as code points do).
pub open spec fn text_le(a: Seq<char>, b: Seq<char>) -> bool
    decreases a.len(),
{
    if a.len() == 0 {
        true
    } else if b.len() == 0 {
        false
    } else if a[0] != b[0] {
        a[0] < b[0]
    } else {
        text_le(a.drop_first(), b.drop_first())
    }
}

/// Any two texts are ordered one way or the other.
pub proof fn lemma_text_le_total(a: Seq<char>, b: Seq<char>)
    ensures
        text_le(a, b) || text_le(b, a),
    decreases a.len(),
{
    if a.len() > 0 && b.len() > 0 && a[0] == b[0] {
        lemma_text_le_total(a.drop_first(), b.drop_first());
    }
}

/// The order is transitive.
pub proof fn lemma_text_le_trans(a: Seq<char>, b: Seq<char>, c: Seq<char>)
    requires
        text_le(a, b),
        text_le(b, c),
    ensures
        text_le(a, c),
    decreases a.len(),
{
    if a.len() > 0 && b.len() > 0 && c.len() > 0 && a[0] == b[0] && b[0] == c[0] {
        lemma_text_le_trans(a.drop_first(), b.drop_first(), c.drop_first());
    }
}

/// Whether `a` sorts before or equal to `b`.
fn name_le(a: &str, b: &str) -> (r: bool)
    ensures
        r == text_le(a@, b@),
{
    let x = chars_of(a);
    let y = chars_of(b);
    let mut i: usize = 0;
    assert(x@.skip(0) =~= x@ && y@.skip(0) =~= y@);
    while i < x.len() && i < y.len() && x[i] == y[i]
        invariant
            i <= x.len(),
            i <= y.len(),
            text_le(x@, y@) == text_le(x@.skip(i as int), y@.skip(i as int)),
        decreases x.len() - i,
    {
        assert(x@.skip(i as int).drop_first() =~= x@.skip(i + 1));
        assert(y@.skip(i as int).drop_first() =~= y@.skip(i + 1));
        i = i + 1;
    }
    if i == x.len() {
        true
    } else if i == y.len() {
        false
    } else {
        x[i] < y[i]
    }
}

/// Whether the skills of `s` are in ascending name order.
pub open spec fn sorted_by_name(s: Seq<Skill>) -> bool {
    forall|a: int, b: int| 0 <= a < b < s.len() ==> text_le(s[a].name@, s[b].name@)
}

/// The skills of `s` named `n`, in their order in `s`.
pub open spec fn named(s: Seq<Skill>, n: Seq<char>) -> Seq<Skill> {
    s.filter(|x: Skill| x.name@ == n)
}

/// Every text sorts before or equal to itself.
proof fn lemma_text_le_refl(a: Seq<char>)
    ensures
        text_le(a, a),
    decreases a.len(),
{
    if a.len() > 0 {
        lemma_text_le_refl(a.drop_first());
    }
}

proof fn lemma_named_add(a: Seq<Skill>, b: Seq<Skill>, n: Seq<char>)
    ensures
        named(a + b, n) == named(a, n) + named(b, n),
{
    Seq::filter_distributes_over_add(a, b, |x: Skill| x.name@ == n);
}

proof fn lemma_named_none(m: Seq<Skill>, n: Seq<char>)
    requires
        forall|k: int| 0 <= k < m.len() ==> (#[trigger] m[k]).name@ != n,
    ensures
        named(m, n) == Seq::<Skill>::empty(),
    decreases m.len(),
{
    reveal(Seq::filter);
    if m.len() > 0 {
        lemma_named_none(m.drop_last(), n);
    }
}

proof fn lemma_named_single(x: Skill, n: Seq<char>)
    ensures
        named(seq![x], n) == (if x.name@ == n {
            seq![x]
        } else {
            Seq::<Skill>::empty()
        }),
{
    reveal_with_fuel(Seq::filter, 2);
    assert(seq![x].drop_last() =~= Seq::<Skill>::empty());
    assert(seq![x].last() == x);
}

/// Moving `before[i]` down to position `j`, past skills of other names
/// only, keeps the order of the skills of every name.
proof fn lemma_move_keeps_named(before: Seq<Skill>, i: int, j: int, n: Seq<char>)
    requires
        0 <= j <= i < before.len(),
        forall|k: int| j <= k < i ==> (#[trigger] before[k]).name@ != before[i].name@,
    ensures
        named(before.remove(i).insert(j, before[i]), n) == named(before, n),
{
    let x = before[i];
    let p = before.take(j);
    let m = before.subrange(j, i);
    let s = before.skip(i + 1);
    assert(before =~= p + m + seq![x] + s);
    assert(before.remove(i).insert(j, x) =~= p + seq![x] + m + s);
    lemma_named_add(p + m + seq![x], s, n);
    lemma_named_add(p + m, seq![x], n);
    lemma_named_add(p, m, n);
    lemma_named_add(p + seq![x] + m, s, n);
    lemma_named_add(p + seq![x], m, n);
    lemma_named_add(p, seq![x], n);
    lemma_named_single(x, n);
    if x.name@ == n {
        assert forall|k: int| 0 <= k < m.len() implies (#[trigger] m[k]).name@ != n by {
            assert(m[k] == before[j + k]);
        }
        lemma_named_none(m, n);
        assert(named(p, n) + seq![x] + Seq::<Skill>::empty() =~= named(p, n) + Seq::<Skill>::empty()
            + seq![x]);
    } else {
        assert(named(p, n) + Seq::<Skill>::empty() + named(m, n) =~= named(p, n) + named(m, n)
            + Seq::<Skill>::empty());
    }
}

/// Put skills in ascending name order, keeping the order of equal names.
pub fn sort_by_name(skills: &mut Vec<Skill>)
    ensures
        sorted_by_name(final(skills)@),
        final(skills)@.to_multiset() == old(skills)@.to_multiset(),
        forall|name: Seq<char>| #[trigger] named(final(skills)@, name) == named(old(skills)@, name),
{
    broadcast use vstd::multiset::group_multiset_axioms;

    let ghost orig = skills@;
    let n = skills.len();
    let mut i: usize = 1;
    while i < n
        invariant
            n == skills.len(),
            1 <= i,
            skills@.to_multiset() == orig.to_multiset(),
            forall|name: Seq<char>| #[trigger] named(skills@, name) == named(orig, name),
            forall|a: int, b: int|
                0 <= a < b < i && b < n ==> text_le(skills@[a].name@, skills@[b].name@),
        decreases n - i,
    {
        let ghost before = skills@;
        let x = skills.remove(i);
        let mut j: usize = i;
        while j > 0 && !name_le(skills[j - 1].name.as_str(), x.name.as_str())
            invariant
                j <= i,
                i < n,
                skills.len() == n - 1,
                skills@ == before.remove(i as int),
                forall|k: int| j <= k < i ==> !text_le((#[trigger] skills@[k]).name@, x.name@),
            decreases j,
        {
            j = j - 1;
        }
        let ghost mid = skills@;
        skills.insert(j, x);
        proof {
            let e = before[i as int];
            assert(before.contains(e));
            vstd::seq_lib::to_multiset_remove(before, i as int);
            vstd::seq_lib::to_multiset_insert(mid, j as int, e);
            vstd::seq_lib::to_multiset_contains(before, e);
            assert forall|k: int| j <= k < i implies (#[trigger] before[k]).name@ != e.name@ by {
                assert(mid[k] == before[k]);
                if before[k].name@ == e.name@ {
                    lemma_text_le_refl(e.name@);
                }
            }
            assert forall|name: Seq<char>| #[trigger] named(skills@, name) == named(orig, name) by {
                lemma_move_keeps_named(before, i as int, j as int, name);
                assert(named(before, name) == named(orig, name));
            }
            assert(skills@.to_multiset() =~= before.to_multiset());
            assert forall|a: int, b: int| 0 <= a < b < i + 1 && b < n implies text_le(
                skills@[a].name@,
                skills@[b].name@,
            ) by {
                // Positions below `j` and above it hold the sorted prefix.
                if b < j {
                    assert(skills@[a] == before[a] && skills@[b] == before[b]);
                } else if b == j {
                    assert(skills@[b] == x);
                    assert(skills@[a] == before[a]);
                    assert(text_le(before[(j - 1) as int].name@, x.name@));
                    if a < j - 1 {
                        assert(before[(j - 1) as int] == mid[j - 1]);
                        lemma_text_le_trans(before[a].name@, before[(j - 1) as int].name@, x.name@);
                    }
                } else if a == j {
                    assert(skills@[a] == x);
                    assert(skills@[b] == mid[b - 1]);
                    assert(!text_le(mid[b - 1].name@, x.name@));
                    lemma_text_le_total(mid[b - 1].name@, x.name@);
                } else if a < j {
                    assert(skills@[a] == before[a]);
                    assert(skills@[b] == before[b - 1]);
                } else {
                    assert(skills@[a] == before[a - 1]);
                    assert(skills@[b] == before[b - 1]);
                }
            }
        }
        i = i + 1;
    }
}

/// The position of the last `.` in `s`, if any.
pub open spec fn last_dot(s: Seq<char>) -> Option<int>
    decreases s.len(),
{
    if s.len() == 0 {
        None
    } else if s.last() == '.' {
        Some(s.len() - 1)
    } else {
        last_dot(s.drop_last())
    }
}

/// The skill name for a directory entry named `file`: its stem when its
/// extension (as `Path::extension` reads it: after the last `.`, which must
/// not open the name) is `md`.
pub open spec fn skill_file_stem(file: Seq<char>) -> Option<Seq<char>> {
    match last_dot(file) {
        Some(k) => if k > 0 && file != ".."@ && file.skip(k + 1) == "md"@ {
            Some(file.take(k))
        } else {
            None
        },
        None => None,
    }
}

/// The name of the skill held by the directory entry `file`, or `None`
/// when the entry is not a Markdown (`.md`) file.
pub fn skill_name_for_file(file: &str) -> (r: Option<String>)
    ensures
        match skill_file_stem(file@) {
            Some(stem) => r matches Some(n) && n@ == stem,
            None => r is None,
        },
{
    proof {
        reveal_strlit("..");
        reveal_strlit("md");
    }
    let c = chars_of(file);
    let n = c.len();
    let mut k: usize = n;
    assert(c@.take(n as int) =~= c@);
    while k > 0 && c[k - 1] != '.'
        invariant
            k <= n,
            n == c.len(),
            last_dot(c@) == last_dot(c@.take(k as int)),
        decreases k,
    {
        assert(c@.take(k as int).drop_last() =~= c@.take(k - 1));
        k = k - 1;
    }
    if k == 0 {
        assert(c@.take(0) =~= Seq::<char>::empty());
        return None;
    }
    // The last dot is at `k - 1`.
    assert(c@.take(k as int).last() == '.');
    let dot = k - 1;
    if dot == 0 || str_eq(file, "..") {
        return None;
    }
    let ext = file.substring_char(k, n);
    if str_eq(ext, "md") {
        let stem = file.substring_char(0, dot);
        assert(stem@ =~= c@.take(dot as int));
        assert(ext@ =~= c@.skip(k as int));
        Some(stem.to_owned())
    } else {
        assert(ext@ =~= c@.skip(k as int));
        None
    }
}

} // verus!
