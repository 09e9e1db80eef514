//! Static scan of `class`, `id`, `data-*` and element markers in the
//! **static** HTML of a lowered token stream. Only `Static` tokens are
//! scanned; what a field or condition produces at run time is out of
//! reach here by construction.

use vstd::prelude::*;
use crate::fragment::token::{FlatPageToken, TokenV};
use crate::text::{chars_of, is_unicode_ws, str_eq, string_from_chars, unicode_ws};

verus! {

// ---------------------------------------------------------------------------
// The regular-expression engine
// ---------------------------------------------------------------------------

/// What `regex` yields for `pattern` over `haystack`: `None` if the
/// pattern does not compile, otherwise the successive non-overlapping
/// matches (`captures_iter`), each as its groups (group 0 first), a group
/// that did not take part being `None`.
pub uninterp spec fn regex_captures_all(
    pattern: Seq<char>,
    haystack: Seq<char>,
) -> Option<Seq<Seq<Option<Seq<char>>>>>;

pub open spec fn captures_view(r: Option<Vec<Vec<Option<String>>>>) -> Option<Seq<Seq<Option<Seq<char>>>>> {
    match r {
        None => None,
        Some(v) => Some(
            v@.map_values(
                |c: Vec<Option<String>>|
                    c@.map_values(
                        |g: Option<String>|
                            match g {
                                Some(s) => Some(s@),
                                None => None,
                            },
                    ),
            ),
        ),
    }
}

/// `regex::Regex::new(pattern)` then `captures_iter(haystack)`, every group
/// of every match copied out. The result is named: a function of the
/// pattern and the haystack alone.
#[verifier::external_body]
fn captures_all(pattern: &str, haystack: &str) -> (r: Option<Vec<Vec<Option<String>>>>)
    ensures
        captures_view(r) == regex_captures_all(pattern@, haystack@),
{
    regex::Regex::new(pattern).ok().map(
        |re|
            re.captures_iter(haystack).map(
                |c| c.iter().map(|m| m.map(|m| m.as_str().to_string())).collect(),
            ).collect(),
    )
}

// ---------------------------------------------------------------------------
// A set of marker names
// ---------------------------------------------------------------------------

/// A set of marker names, without duplicates, in order of first insertion.
pub struct MarkerSet {
    items: Vec<String>,
}

pub open spec fn names_view(items: Seq<String>) -> Seq<Seq<char>> {
    items.map_values(|s: String| s@)
}

impl View for MarkerSet {
    type V = Set<Seq<char>>;

    closed spec fn view(&self) -> Set<Seq<char>> {
        names_view(self.items@).to_set()
    }
}

impl MarkerSet {
    #[verifier::type_invariant]
    spec fn no_duplicates(&self) -> bool {
        names_view(self.items@).no_duplicates()
    }

    /// The empty set.
    pub fn new() -> (r: Self)
        ensures
            r@ == Set::<Seq<char>>::empty(),
    {
        let r = MarkerSet { items: Vec::new() };
        assert(names_view(r.items@).to_set() =~= Set::<Seq<char>>::empty());
        r
    }

    /// `name` belongs to the set.
    pub fn contains(&self, name: &str) -> (r: bool)
        ensures
            r == self@.contains(name@),
    {
        let mut i: usize = 0;
        while i < self.items.len()
            invariant
                i <= self.items@.len(),
                forall|k: int| 0 <= k < i ==> self.items@[k]@ != name@,
            decreases self.items.len() - i,
        {
            if str_eq(self.items[i].as_str(), name) {
                assert(names_view(self.items@)[i as int] == name@);
                return true;
            }
            i += 1;
        }
        assert(!names_view(self.items@).contains(name@));
        false
    }

    /// Number of names.
    pub fn len(&self) -> (r: usize)
        ensures
            r == self@.len(),
    {
        proof {
            use_type_invariant(self);
            names_view(self.items@).unique_seq_to_set();
        }
        self.items.len()
    }

    /// The set is empty.
    pub fn is_empty(&self) -> (r: bool)
        ensures
            r == (self@.len() == 0),
    {
        self.len() == 0
    }

    /// Adds `name` (nothing if present).
    pub fn insert(&mut self, name: String)
        ensures
            final(self)@ == old(self)@.insert(name@),
    {
        proof {
            use_type_invariant(&*self);
        }
        let present = self.contains(name.as_str());
        if !present {
            let ghost before = names_view(self.items@);
            let mut items: Vec<String> = Vec::new();
            std::mem::swap(&mut items, &mut self.items);
            items.push(name);
            proof {
                assert(names_view(items@) =~= before.push(name@));
                before.lemma_push_to_set_commute(name@);
                assert forall|a: int, b: int|
                    0 <= a < b < names_view(items@).len() implies names_view(items@)[a]
                    != names_view(items@)[b] by {
                    if b == before.len() {
                        assert(before.contains(before[a]));
                    }
                }
            }
            self.items = items;
        } else {
            assert(old(self)@.insert(name@) =~= old(self)@);
        }
    }

    /// The names, in order of first insertion.
    pub fn names(&self) -> (r: &[String])
        ensures
            names_view(r@).to_set() == self@,
            names_view(r@).no_duplicates(),
    {
        proof {
            use_type_invariant(self);
        }
        self.items.as_slice()
    }
}

// ---------------------------------------------------------------------------
// Marker semantics
// ---------------------------------------------------------------------------

/// The four categories of static markers.
pub enum MarkerKind {
    Class,
    Id,
    DataAttribute,
    Element,
}

/// The pattern of each category; the left anchor `(?:^|[\s<])` keeps an
/// attribute whose name merely ends with `class`/`id` out.
pub open spec fn marker_pattern_spec(kind: MarkerKind) -> Seq<char> {
    match kind {
        MarkerKind::Class => "(?:^|[\\s<])class=(?:\"([^\"]*)\"|'([^']*)')"@,
        MarkerKind::Id => "(?:^|[\\s<])id=(?:\"([^\"]*)\"|'([^']*)')"@,
        MarkerKind::DataAttribute => "(?:^|[\\s<])(data-[a-zA-Z0-9_-]+)(?:=|[\\s>/])"@,
        MarkerKind::Element => "<([a-zA-Z][a-zA-Z0-9-]*)"@,
    }
}

fn marker_pattern(kind: &MarkerKind) -> (r: &'static str)
    ensures
        r@ == marker_pattern_spec(*kind),
{
    match kind {
        MarkerKind::Class => "(?:^|[\\s<])class=(?:\"([^\"]*)\"|'([^']*)')",
        MarkerKind::Id => "(?:^|[\\s<])id=(?:\"([^\"]*)\"|'([^']*)')",
        MarkerKind::DataAttribute => "(?:^|[\\s<])(data-[a-zA-Z0-9_-]+)(?:=|[\\s>/])",
        MarkerKind::Element => "<([a-zA-Z][a-zA-Z0-9-]*)",
    }
}

/// Whether the body of a bracketed character class (ranges `x-y` and
/// single characters, a `-` at the end standing for itself) admits `c`.
pub open spec fn class_admits(body: Seq<char>, c: char) -> bool
    decreases body.len(),
{
    if body.len() == 0 {
        false
    } else if body.len() >= 3 && body[1] == '-' {
        (body[0] <= c && c <= body[2]) || class_admits(body.skip(3), c)
    } else {
        body[0] == c || class_admits(body.skip(1), c)
    }
}

/// `[A-Za-z]`.
pub open spec fn is_ascii_letter(c: char) -> bool {
    ('a' <= c && c <= 'z') || ('A' <= c && c <= 'Z')
}

/// The element pattern is `<` then a captured name: one ASCII letter, then
/// any run of ASCII letters, digits and `-`. So every element name is
/// captured whole, digits included (`<h1>` gives `h1`).
pub proof fn element_names_are_letter_then_alnum_or_dash()
    ensures
        marker_pattern_spec(MarkerKind::Element) == seq!['<', '(', '['] + "a-zA-Z"@ + seq![']', '[']
            + "a-zA-Z0-9-"@ + seq![']', '*', ')'],
        forall|c: char| class_admits("a-zA-Z"@, c) <==> is_ascii_letter(c),
        forall|c: char| class_admits("a-zA-Z0-9-"@, c) <==> (is_ascii_letter(c) || ('0' <= c && c <= '9') || c == '-'),
{
    reveal_strlit("<([a-zA-Z][a-zA-Z0-9-]*)");
    reveal_strlit("a-zA-Z");
    reveal_strlit("a-zA-Z0-9-");
    let first = "a-zA-Z"@;
    let rest = "a-zA-Z0-9-"@;
    assert(marker_pattern_spec(MarkerKind::Element) =~= seq!['<', '(', '['] + first + seq![']', '[']
        + rest + seq![']', '*', ')']);
    assert(first.skip(3) =~= seq!['A', '-', 'Z']);
    assert(first.skip(3).skip(3) =~= Seq::<char>::empty());
    assert forall|c: char| class_admits(first, c) <==> is_ascii_letter(c) by {
        reveal_with_fuel(class_admits, 3);
    }
    assert forall|c: char| #[trigger] class_admits(rest, c) <==> (is_ascii_letter(c) || ('0' <= c && c <= '9')
        || c == '-') by {
        let d = seq!['-'];
        let n = seq!['0', '-', '9', '-'];
        let u = seq!['A', '-', 'Z', '0', '-', '9', '-'];
        assert(d.skip(1) =~= Seq::<char>::empty());
        assert(n.skip(3) =~= d);
        assert(u.skip(3) =~= n);
        assert(rest.skip(3) =~= u);
        assert(class_admits(d, c) == (c == '-')) by {
            reveal_with_fuel(class_admits, 2);
        }
        assert(class_admits(n, c) == (('0' <= c && c <= '9') || c == '-'));
        assert(class_admits(u, c) == (('A' <= c && c <= 'Z') || ('0' <= c && c <= '9') || c == '-'));
    }
    assert(forall|c: char| #[trigger] class_admits("a-zA-Z0-9-"@, c) <==> (is_ascii_letter(c) || ('0'
        <= c && c <= '9') || c == '-'));
}

/// The `data-*` pattern captures `data-` followed by a non-empty run of
/// ASCII letters, digits, `_` and `-`, after the start of the text, a blank
/// or `<`, and before `=`, a blank, `>` or `/`.
pub proof fn data_attribute_names_are_alnum_underscore_dash()
    ensures
        marker_pattern_spec(MarkerKind::DataAttribute) == "(?:^|[\\s<])(data-"@ + seq!['['] + "a-zA-Z0-9_-"@
            + "]+)(?:=|[\\s>/])"@,
        forall|c: char| #[trigger] class_admits("a-zA-Z0-9_-"@, c) <==> (is_ascii_letter(c) || ('0' <= c
            && c <= '9') || c == '_' || c == '-'),
{
    reveal_strlit("(?:^|[\\s<])(data-[a-zA-Z0-9_-]+)(?:=|[\\s>/])");
    reveal_strlit("(?:^|[\\s<])(data-");
    reveal_strlit("]+)(?:=|[\\s>/])");
    reveal_strlit("a-zA-Z0-9_-");
    let body = "a-zA-Z0-9_-"@;
    assert(marker_pattern_spec(MarkerKind::DataAttribute) =~= "(?:^|[\\s<])(data-"@ + seq!['['] + body
        + "]+)(?:=|[\\s>/])"@);
    assert forall|c: char| #[trigger] class_admits(body, c) <==> (is_ascii_letter(c) || ('0' <= c && c
        <= '9') || c == '_' || c == '-') by {
        let e = seq!['_', '-'];
        let n = seq!['0', '-', '9', '_', '-'];
        let u = seq!['A', '-', 'Z', '0', '-', '9', '_', '-'];
        assert(e.skip(1) =~= seq!['-']);
        assert(seq!['-'].skip(1) =~= Seq::<char>::empty());
        assert(n.skip(3) =~= e);
        assert(u.skip(3) =~= n);
        assert(body.skip(3) =~= u);
        assert(class_admits(seq!['-'], c) == (c == '-')) by {
            reveal_with_fuel(class_admits, 2);
        }
        assert(class_admits(e, c) == (c == '_' || c == '-'));
        assert(class_admits(n, c) == (('0' <= c && c <= '9') || c == '_' || c == '-'));
        assert(class_admits(u, c) == (('A' <= c && c <= 'Z') || ('0' <= c && c <= '9') || c == '_'
            || c == '-'));
    }
}

/// Group `g` of a match, if it took part.
pub open spec fn group(cap: Seq<Option<Seq<char>>>, g: int) -> Option<Seq<char>> {
    if 0 <= g < cap.len() {
        cap[g]
    } else {
        None
    }
}

/// The quoted value of an attribute match: group 1, else group 2, else
/// empty.
pub open spec fn attr_value(cap: Seq<Option<Seq<char>>>) -> Seq<char> {
    match group(cap, 1) {
        Some(v) => v,
        None => match group(cap, 2) {
            Some(v) => v,
            None => Seq::empty(),
        },
    }
}

/// Words of `s` split on white space so far, and the word being read.
pub open spec fn split_ws_state(s: Seq<char>) -> (Seq<Seq<char>>, Seq<char>)
    decreases s.len(),
{
    if s.len() == 0 {
        (Seq::empty(), Seq::empty())
    } else {
        let (ws, cur) = split_ws_state(s.drop_last());
        let c = s.last();
        if is_unicode_ws(c) {
            if cur.len() > 0 {
                (ws.push(cur), Seq::empty())
            } else {
                (ws, Seq::empty())
            }
        } else {
            (ws, cur.push(c))
        }
    }
}

/// The non-empty words of `s` separated by white space (`split_whitespace`).
pub open spec fn split_ws(s: Seq<char>) -> Seq<Seq<char>> {
    let (ws, cur) = split_ws_state(s);
    if cur.len() > 0 {
        ws.push(cur)
    } else {
        ws
    }
}

/// The markers one match contributes.
pub open spec fn match_markers(kind: MarkerKind, cap: Seq<Option<Seq<char>>>) -> Set<Seq<char>> {
    match kind {
        MarkerKind::Class => split_ws(attr_value(cap)).to_set(),
        MarkerKind::Id => if attr_value(cap).len() > 0 {
            set![attr_value(cap)]
        } else {
            Set::empty()
        },
        _ => match group(cap, 1) {
            Some(m) => set![m],
            None => Set::empty(),
        },
    }
}

/// The markers of all the matches.
pub open spec fn matches_markers(kind: MarkerKind, caps: Seq<Seq<Option<Seq<char>>>>) -> Set<
    Seq<char>,
>
    decreases caps.len(),
{
    if caps.len() == 0 {
        Set::empty()
    } else {
        matches_markers(kind, caps.drop_last()).union(match_markers(kind, caps.last()))
    }
}

/// The markers of one static text.
pub open spec fn text_markers(kind: MarkerKind, s: Seq<char>) -> Set<Seq<char>> {
    match regex_captures_all(marker_pattern_spec(kind), s) {
        Some(caps) => matches_markers(kind, caps),
        None => Set::empty(),
    }
}

/// The markers of the `Static` tokens of `ts`.
pub open spec fn static_markers(kind: MarkerKind, ts: Seq<TokenV>) -> Set<Seq<char>>
    decreases ts.len(),
{
    if ts.len() == 0 {
        Set::empty()
    } else {
        static_markers(kind, ts.drop_last()).union(
            match ts.last() {
                TokenV::Static(s) => text_markers(kind, s),
                _ => Set::empty(),
            },
        )
    }
}

// ---------------------------------------------------------------------------
// Extraction
// ---------------------------------------------------------------------------

/// Adds the white-space separated words of `v` to `out`.
fn insert_words(out: &mut MarkerSet, v: &str)
    ensures
        final(out)@ == old(out)@.union(split_ws(v@).to_set()),
{
    let cs = chars_of(v);
    let mut cur: Vec<char> = Vec::new();
    let mut i: usize = 0;
    let ghost base = out@;
    assert(v@.take(0) =~= Seq::<char>::empty());
    assert(base.union(Seq::<Seq<char>>::empty().to_set()) =~= base);
    while i < cs.len()
        invariant
            cs@ == v@,
            i <= cs@.len(),
            split_ws_state(v@.take(i as int)).1 == cur@,
            out@ == base.union(split_ws_state(v@.take(i as int)).0.to_set()),
        decreases cs.len() - i,
    {
        let c = cs[i];
        let ghost ws0 = split_ws_state(v@.take(i as int)).0;
        assert(v@.take(i + 1).drop_last() =~= v@.take(i as int));
        assert(v@.take(i + 1).last() == c);
        if unicode_ws(c) {
            if cur.len() > 0 {
                let w = string_from_chars(cur.as_slice());
                out.insert(w);
                proof {
                    ws0.lemma_push_to_set_commute(cur@);
                    assert(base.union(ws0.push(cur@).to_set()) =~= base.union(ws0.to_set()).insert(
                        cur@,
                    ));
                }
            }
            cur = Vec::new();
            assert(cur@ =~= Seq::<char>::empty());
        } else {
            cur.push(c);
        }
        i += 1;
    }
    assert(v@.take(i as int) =~= v@);
    if cur.len() > 0 {
        let w = string_from_chars(cur.as_slice());
        out.insert(w);
        proof {
            let ws0 = split_ws_state(v@).0;
            ws0.lemma_push_to_set_commute(cur@);
            assert(base.union(ws0.push(cur@).to_set()) =~= base.union(ws0.to_set()).insert(cur@));
        }
    }
}

fn group_exec(cap: &Vec<Option<String>>, g: usize) -> (r: Option<&String>)
    ensures
        match r {
            Some(s) => group(cap@.map_values(|x: Option<String>| match x {
                Some(s) => Some(s@),
                None => None,
            }), g as int) == Some(s@),
            None => group(cap@.map_values(|x: Option<String>| match x {
                Some(s) => Some(s@),
                None => None,
            }), g as int) is None,
        },
{
    if g < cap.len() {
        match &cap[g] {
            Some(s) => Some(s),
            None => None,
        }
    } else {
        None
    }
}

/// Adds the markers of one match to `out`.
fn insert_match_markers(out: &mut MarkerSet, kind: &MarkerKind, cap: &Vec<Option<String>>)
    ensures
        final(out)@ == old(out)@.union(match_markers(*kind, cap@.map_values(|x: Option<String>| match x {
            Some(s) => Some(s@),
            None => None,
        }))),
{
    let ghost cv = cap@.map_values(|x: Option<String>| match x {
        Some(s) => Some(s@),
        None => None,
    });
    match kind {
        MarkerKind::Class | MarkerKind::Id => {
            let value: &str = match group_exec(cap, 1) {
                Some(s) => s.as_str(),
                None => match group_exec(cap, 2) {
                    Some(s) => s.as_str(),
                    None => "",
                },
            };
            proof {
                if group(cv, 1) is None && group(cv, 2) is None {
                    reveal_strlit("");
                    assert(value@.len() == 0);
                    assert(value@ =~= Seq::<char>::empty());
                }
            }
            match kind {
                MarkerKind::Class => {
                    insert_words(out, value);
                },
                _ => {
                    let n = chars_of(value).len();
                    if n > 0 {
                        out.insert(string_from_chars(chars_of(value).as_slice()));
                        assert(old(out)@.insert(value@) =~= old(out)@.union(set![value@]));
                    } else {
                        assert(old(out)@.union(Set::<Seq<char>>::empty()) =~= old(out)@);
                    }
                },
            }
        },
        _ => {
            match group_exec(cap, 1) {
                Some(m) => {
                    out.insert(m.clone());
                    assert(old(out)@.insert(m@) =~= old(out)@.union(set![m@]));
                },
                None => {
                    assert(old(out)@.union(Set::<Seq<char>>::empty()) =~= old(out)@);
                },
            }
        },
    }
}

/// The matches of a captures result, as values.
pub open spec fn caps_view(caps: Vec<Vec<Option<String>>>) -> Seq<Seq<Option<Seq<char>>>> {
    captures_view(Some(caps))->Some_0
}

/// Adds to `out` the markers of category `kind` that the matches `caps` of
/// its pattern carry: the words of a `class` value, a non-empty `id`
/// value, or the captured name of a `data-*` attribute or an element.
pub fn add_match_markers(out: &mut MarkerSet, kind: &MarkerKind, caps: &Vec<Vec<Option<String>>>)
    ensures
        final(out)@ == old(out)@.union(matches_markers(*kind, caps_view(*caps))),
{
    let ghost cv = caps_view(*caps);
    let ghost before = out@;
    let mut k: usize = 0;
    assert(cv.take(0) =~= Seq::<Seq<Option<Seq<char>>>>::empty());
    assert(before.union(Set::<Seq<char>>::empty()) =~= before);
    while k < caps.len()
        invariant
            k <= caps@.len(),
            cv == caps_view(*caps),
            cv.len() == caps@.len(),
            out@ == before.union(matches_markers(*kind, cv.take(k as int))),
        decreases caps.len() - k,
    {
        insert_match_markers(out, kind, &caps[k]);
        proof {
            assert(cv.take(k + 1).drop_last() =~= cv.take(k as int));
            assert(cv.take(k + 1).last() == cv[k as int]);
            assert(out@ =~= before.union(matches_markers(*kind, cv.take(k + 1))));
        }
        k += 1;
    }
    assert(cv.take(k as int) =~= cv);
}

/// The markers of category `kind` in the static HTML of `tokens`.
fn extract_markers(kind: MarkerKind, tokens: &[FlatPageToken<'_>]) -> (r: MarkerSet)
    ensures
        r@ == static_markers(kind, tokens.deep_view()),
{
    let ghost ts = tokens.deep_view();
    let pattern = marker_pattern(&kind);
    let mut out = MarkerSet::new();
    let mut i: usize = 0;
    assert(ts.take(0) =~= Seq::<TokenV>::empty());
    while i < tokens.len()
        invariant
            ts == tokens.deep_view(),
            i <= tokens.len(),
            pattern@ == marker_pattern_spec(kind),
            out@ == static_markers(kind, ts.take(i as int)),
        decreases tokens.len() - i,
    {
        assert(ts.take(i + 1).drop_last() =~= ts.take(i as int));
        assert(ts.take(i + 1).last() == tokens[i as int].deep_view());
        match tokens[i] {
            FlatPageToken::Static(s) => {
                let ghost before = out@;
                match captures_all(pattern, s) {
                    Some(caps) => {
                        add_match_markers(&mut out, &kind, &caps);
                    },
                    None => {
                        assert(before.union(Set::<Seq<char>>::empty()) =~= before);
                    },
                }
            },
            _ => {
                assert(out@.union(Set::<Seq<char>>::empty()) =~= out@);
            },
        }
        i += 1;
    }
    assert(ts.take(i as int) =~= ts);
    out
}

/// The tokens of the `class` attributes (split on white space) in the
/// static HTML of a lowered stream.
pub fn extract_static_class_tokens<'src>(tokens: &[FlatPageToken<'src>]) -> (r: MarkerSet)
    ensures
        r@ == static_markers(MarkerKind::Class, tokens.deep_view()),
{
    extract_markers(MarkerKind::Class, tokens)
}

/// The non-empty `id` values (never split) in the static HTML.
pub fn extract_static_id_tokens<'src>(tokens: &[FlatPageToken<'src>]) -> (r: MarkerSet)
    ensures
        r@ == static_markers(MarkerKind::Id, tokens.deep_view()),
{
    extract_markers(MarkerKind::Id, tokens)
}

/// The names of the `data-*` attributes present (never their values) in
/// the static HTML.
pub fn extract_static_data_attribute_tokens<'src>(tokens: &[FlatPageToken<'src>]) -> (r: MarkerSet)
    ensures
        r@ == static_markers(MarkerKind::DataAttribute, tokens.deep_view()),
{
    extract_markers(MarkerKind::DataAttribute, tokens)
}

/// The names of the opening tags (no whitelist) in the static HTML.
pub fn extract_static_element_tokens<'src>(tokens: &[FlatPageToken<'src>]) -> (r: MarkerSet)
    ensures
        r@ == static_markers(MarkerKind::Element, tokens.deep_view()),
{
    extract_markers(MarkerKind::Element, tokens)
}

/// The four categories of static facts, never merged.
pub struct StaticMarkerFacts {
    pub classes: MarkerSet,
    pub ids: MarkerSet,
    pub data_attributes: MarkerSet,
    pub elements: MarkerSet,
}

/// The four categories of static markers of one template at once.
pub fn extract_static_marker_facts<'src>(tokens: &[FlatPageToken<'src>]) -> (r: StaticMarkerFacts)
    ensures
        r.classes@ == static_markers(MarkerKind::Class, tokens.deep_view()),
        r.ids@ == static_markers(MarkerKind::Id, tokens.deep_view()),
        r.data_attributes@ == static_markers(MarkerKind::DataAttribute, tokens.deep_view()),
        r.elements@ == static_markers(MarkerKind::Element, tokens.deep_view()),
{
    StaticMarkerFacts {
        classes: extract_static_class_tokens(tokens),
        ids: extract_static_id_tokens(tokens),
        data_attributes: extract_static_data_attribute_tokens(tokens),
        elements: extract_static_element_tokens(tokens),
    }
}

} // verus!
