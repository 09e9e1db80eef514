//! Lexical scanner: a template source is cut into typed slices (`RawSpan`).
//! No semantics are resolved here (keywords and identifiers look alike).

use vstd::prelude::*;
use crate::text::{ascii_alnum, chars_of, is_ascii_alnum, is_scan_blank, scan_blank};

verus! {

/// Raw syntactic category of a span.
///
/// `Punct` is emitted only inside `{{ … }}` for the `.` separator; inside
/// `{% … %}`, `entity.field` is one `Ident`.
#[derive(Debug, Clone, Copy, PartialEq, Eq, Structural)]
pub enum SpanKind {
    /// Verbatim HTML outside delimiters.
    Literal,
    /// `{{`
    ExprOpen,
    /// `}}`
    ExprClose,
    /// `{%`
    BlockOpen,
    /// `%}`
    BlockClose,
    /// Identifier (entity, field, keyword, file path).
    Ident,
    /// `.` between entity and field inside `{{ … }}`.
    Punct,
}

/// Typed slice of the template source.
#[derive(Debug, Clone, Copy, PartialEq, Eq)]
pub struct RawSpan<'src> {
    pub slice: &'src str,
    pub kind: SpanKind,
}

impl<'src> DeepView for RawSpan<'src> {
    type V = (Seq<char>, SpanKind);

    open spec fn deep_view(&self) -> (Seq<char>, SpanKind) {
        (self.slice@, self.kind)
    }
}

/// State of the scanner between two spans.
#[derive(Debug, Clone, Copy, PartialEq, Eq, Structural)]
pub enum ScanMode {
    /// Between blocks: static HTML up to the next delimiter.
    Literal,
    /// Inside `{{ … }}`.
    InExpr,
    /// Inside `{% … %}`.
    InBlock,
}

/// A delimiter `{{` or `{%` starts at `i`.
pub open spec fn delim_at(s: Seq<char>, i: int) -> bool {
    0 <= i && i + 1 < s.len() && s[i] == '{' && (s[i + 1] == '{' || s[i + 1] == '%')
}

/// The two characters `a b` start at `i`.
pub open spec fn pair_at(s: Seq<char>, i: int, a: char, b: char) -> bool {
    0 <= i && i + 1 < s.len() && s[i] == a && s[i + 1] == b
}

/// First delimiter at or after `from`.
pub open spec fn find_delim(s: Seq<char>, from: int) -> Option<int>
    decreases s.len() - from,
{
    if from < 0 || from >= s.len() {
        None
    } else if delim_at(s, from) {
        Some(from)
    } else {
        find_delim(s, from + 1)
    }
}

/// First index at or after `from` that is not a scanner blank.
pub open spec fn blank_end(s: Seq<char>, from: int) -> int
    decreases s.len() - from,
{
    if from < 0 || from >= s.len() || !is_scan_blank(s[from]) {
        from
    } else {
        blank_end(s, from + 1)
    }
}

/// End of the run of `[A-Za-z0-9_]` starting at `from`.
pub open spec fn ident_end(s: Seq<char>, from: int) -> int
    decreases s.len() - from,
{
    if from < 0 || from >= s.len() || !(is_ascii_alnum(s[from]) || s[from] == '_') {
        from
    } else {
        ident_end(s, from + 1)
    }
}

/// End of the block word starting at `from`: the first blank, `%}` or end.
pub open spec fn word_end(s: Seq<char>, from: int) -> int
    decreases s.len() - from,
{
    if from < 0 || from >= s.len() || is_scan_blank(s[from]) || pair_at(s, from, '%', '}') {
        from
    } else {
        word_end(s, from + 1)
    }
}

/// A span `[start, end)` of kind `kind`, and the scanner state after it.
pub struct SpanStep {
    pub start: int,
    pub end: int,
    pub kind: SpanKind,
    pub next_pos: int,
    pub next_mode: ScanMode,
}

/// The next span the scanner emits from `pos` in `mode`, if any.
pub open spec fn next_step(s: Seq<char>, pos: int, mode: ScanMode) -> Option<SpanStep>
    decreases s.len() - pos,
{
    if pos < 0 || pos >= s.len() {
        None
    } else {
        match mode {
            ScanMode::Literal => match find_delim(s, pos) {
                None => Some(
                    SpanStep {
                        start: pos,
                        end: s.len() as int,
                        kind: SpanKind::Literal,
                        next_pos: s.len() as int,
                        next_mode: ScanMode::Literal,
                    },
                ),
                Some(d) => if d == pos {
                    if s[pos + 1] == '{' {
                        Some(
                            SpanStep {
                                start: pos,
                                end: pos + 2,
                                kind: SpanKind::ExprOpen,
                                next_pos: pos + 2,
                                next_mode: ScanMode::InExpr,
                            },
                        )
                    } else {
                        Some(
                            SpanStep {
                                start: pos,
                                end: pos + 2,
                                kind: SpanKind::BlockOpen,
                                next_pos: pos + 2,
                                next_mode: ScanMode::InBlock,
                            },
                        )
                    }
                } else {
                    Some(
                        SpanStep {
                            start: pos,
                            end: d,
                            kind: SpanKind::Literal,
                            next_pos: d,
                            next_mode: ScanMode::Literal,
                        },
                    )
                },
            },
            ScanMode::InExpr => {
                let p = blank_end(s, pos);
                if p >= s.len() {
                    None
                } else if pair_at(s, p, '}', '}') {
                    Some(
                        SpanStep {
                            start: p,
                            end: p + 2,
                            kind: SpanKind::ExprClose,
                            next_pos: p + 2,
                            next_mode: ScanMode::Literal,
                        },
                    )
                } else if s[p] == '.' {
                    Some(
                        SpanStep {
                            start: p,
                            end: p + 1,
                            kind: SpanKind::Punct,
                            next_pos: p + 1,
                            next_mode: ScanMode::InExpr,
                        },
                    )
                } else if ident_end(s, p) > p {
                    Some(
                        SpanStep {
                            start: p,
                            end: ident_end(s, p),
                            kind: SpanKind::Ident,
                            next_pos: ident_end(s, p),
                            next_mode: ScanMode::InExpr,
                        },
                    )
                } else if p >= pos {
                    // Unexpected character: skipped, scanning goes on.
                    next_step(s, p + 1, ScanMode::InExpr)
                } else {
                    None
                }
            },
            ScanMode::InBlock => {
                let p = blank_end(s, pos);
                if p >= s.len() {
                    None
                } else if pair_at(s, p, '%', '}') {
                    Some(
                        SpanStep {
                            start: p,
                            end: p + 2,
                            kind: SpanKind::BlockClose,
                            next_pos: p + 2,
                            next_mode: ScanMode::Literal,
                        },
                    )
                } else if word_end(s, p) > p {
                    Some(
                        SpanStep {
                            start: p,
                            end: word_end(s, p),
                            kind: SpanKind::Ident,
                            next_pos: word_end(s, p),
                            next_mode: ScanMode::InBlock,
                        },
                    )
                } else {
                    None
                }
            },
        }
    }
}

/// The spans emitted from `pos` in `mode` until the scanner stops, as
/// `(start, end, kind)` triples.
pub open spec fn scan_from(s: Seq<char>, pos: int, mode: ScanMode) -> Seq<(int, int, SpanKind)>
    decreases s.len() - pos,
{
    match next_step(s, pos, mode) {
        None => Seq::empty(),
        Some(st) => if pos < st.next_pos <= s.len() {
            seq![(st.start, st.end, st.kind)] + scan_from(s, st.next_pos, st.next_mode)
        } else {
            Seq::empty()
        },
    }
}

/// What `scan` produces for the source characters `s`: each span's text and
/// kind, in order.
pub open spec fn scan_spec(s: Seq<char>) -> Seq<(Seq<char>, SpanKind)> {
    scan_from(s, 0, ScanMode::Literal).map_values(
        |t: (int, int, SpanKind)| (s.subrange(t.0, t.1), t.2),
    )
}

proof fn lemma_blank_end(s: Seq<char>, from: int)
    requires
        0 <= from,
    ensures
        from <= blank_end(s, from),
        from <= s.len() ==> blank_end(s, from) <= s.len(),
        blank_end(s, from) < s.len() ==> !is_scan_blank(s[blank_end(s, from)]),
    decreases s.len() - from,
{
    if from < s.len() && is_scan_blank(s[from]) {
        lemma_blank_end(s, from + 1);
    }
}

proof fn lemma_ident_end(s: Seq<char>, from: int)
    requires
        0 <= from,
    ensures
        from <= ident_end(s, from),
        from <= s.len() ==> ident_end(s, from) <= s.len(),
    decreases s.len() - from,
{
    if from < s.len() && (is_ascii_alnum(s[from]) || s[from] == '_') {
        lemma_ident_end(s, from + 1);
    }
}

proof fn lemma_word_end(s: Seq<char>, from: int)
    requires
        0 <= from,
    ensures
        from <= word_end(s, from),
        from <= s.len() ==> word_end(s, from) <= s.len(),
    decreases s.len() - from,
{
    if from < s.len() && !is_scan_blank(s[from]) && !pair_at(s, from, '%', '}') {
        lemma_word_end(s, from + 1);
    }
}

proof fn lemma_find_delim(s: Seq<char>, from: int)
    requires
        0 <= from,
    ensures
        match find_delim(s, from) {
            Some(d) => from <= d && d + 1 < s.len() && delim_at(s, d),
            None => true,
        },
    decreases s.len() - from,
{
    if from < s.len() && !delim_at(s, from) {
        lemma_find_delim(s, from + 1);
    }
}

/// Every step moves forward and stays inside the source.
pub proof fn lemma_next_step_bounds(s: Seq<char>, pos: int, mode: ScanMode)
    ensures
        match next_step(s, pos, mode) {
            Some(st) => 0 <= pos <= st.start < st.end == st.next_pos <= s.len(),
            None => true,
        },
    decreases s.len() - pos,
{
    if 0 <= pos < s.len() {
        match mode {
            ScanMode::Literal => {
                lemma_find_delim(s, pos);
            },
            ScanMode::InExpr => {
                let p = blank_end(s, pos);
                lemma_blank_end(s, pos);
                lemma_ident_end(s, p);
                if p < s.len() && !pair_at(s, p, '}', '}') && s[p] != '.' && ident_end(s, p)
                    <= p {
                    lemma_next_step_bounds(s, p + 1, ScanMode::InExpr);
                }
            },
            ScanMode::InBlock => {
                lemma_blank_end(s, pos);
                lemma_word_end(s, blank_end(s, pos));
            },
        }
    }
}

/// The spans emitted from `pos` lie after `pos`, each non-empty, in order
/// and without overlap.
proof fn lemma_scan_from_ordered(s: Seq<char>, pos: int, mode: ScanMode)
    ensures
        forall|k: int|
            0 <= k < scan_from(s, pos, mode).len() ==> {
                let t = #[trigger] scan_from(s, pos, mode)[k];
                pos <= t.0 < t.1 <= s.len()
            },
        forall|k: int|
            0 <= k < scan_from(s, pos, mode).len() - 1 ==> #[trigger] scan_from(s, pos, mode)[k].1
                <= scan_from(s, pos, mode)[k + 1].0,
    decreases s.len() - pos,
{
    lemma_next_step_bounds(s, pos, mode);
    match next_step(s, pos, mode) {
        None => {},
        Some(st) => if pos < st.next_pos <= s.len() {
            lemma_scan_from_ordered(s, st.next_pos, st.next_mode);
            let rest = scan_from(s, st.next_pos, st.next_mode);
            let all = scan_from(s, pos, mode);
            assert(all == seq![(st.start, st.end, st.kind)] + rest);
            assert forall|k: int| 0 <= k < all.len() implies {
                let t = #[trigger] all[k];
                pos <= t.0 < t.1 <= s.len()
            } by {
                if k > 0 {
                    assert(all[k] == rest[k - 1]);
                }
            }
            assert forall|k: int| 0 <= k < all.len() - 1 implies #[trigger] all[k].1 <= all[k + 1].0 by {
                assert(all[k + 1] == rest[k]);
                if k > 0 {
                    assert(all[k] == rest[k - 1]);
                }
            }
        },
    }
}

/// The scanner cuts the source into non-empty slices, in order and without
/// overlap (a delimiter at the head gives no empty literal before it).
pub proof fn scan_spans_are_ordered_nonempty_slices(s: Seq<char>)
    ensures
        forall|k: int|
            0 <= k < scan_from(s, 0, ScanMode::Literal).len() ==> {
                let t = #[trigger] scan_from(s, 0, ScanMode::Literal)[k];
                0 <= t.0 < t.1 <= s.len() && scan_spec(s)[k] == (s.subrange(t.0, t.1), t.2)
            },
        forall|k: int|
            0 <= k < scan_from(s, 0, ScanMode::Literal).len() - 1 ==> #[trigger] scan_from(
                s,
                0,
                ScanMode::Literal,
            )[k].1 <= scan_from(s, 0, ScanMode::Literal)[k + 1].0,
        forall|k: int| 0 <= k < scan_spec(s).len() ==> (#[trigger] scan_spec(s)[k]).0.len() > 0,
{
    lemma_scan_from_ordered(s, 0, ScanMode::Literal);
    let sc = scan_from(s, 0, ScanMode::Literal);
    assert forall|k: int| 0 <= k < scan_spec(s).len() implies (#[trigger] scan_spec(s)[k]).0.len() > 0 by {
        assert(sc[k].0 < sc[k].1);
    }
}

struct Scanner<'src> {
    src: &'src str,
    chars: Vec<char>,
    pos: usize,
    mode: ScanMode,
}

impl<'src> Scanner<'src> {
    spec fn wf(&self) -> bool {
        &&& self.chars@ == self.src@
        &&& self.pos <= self.chars@.len()
    }

    fn new(src: &'src str) -> (r: Self)
        ensures
            r.wf(),
            r.src == src,
            r.pos == 0,
            r.mode == ScanMode::Literal,
    {
        Scanner { src, chars: chars_of(src), pos: 0, mode: ScanMode::Literal }
    }

    /// Moves `pos` past the ASCII blanks.
    fn skip_ws(&mut self)
        requires
            old(self).wf(),
        ensures
            final(self).wf(),
            final(self).src == old(self).src,
            final(self).mode == old(self).mode,
            final(self).pos == blank_end(old(self).src@, old(self).pos as int),
    {
        proof {
            lemma_blank_end(self.src@, self.pos as int);
        }
        let ghost start = self.pos as int;
        while self.pos < self.chars.len() && scan_blank(self.chars[self.pos])
            invariant
                self.wf(),
                self.src == old(self).src,
                self.mode == old(self).mode,
                start <= self.pos,
                blank_end(self.src@, start) == blank_end(self.src@, self.pos as int),
            decreases self.chars.len() - self.pos,
        {
            self.pos += 1;
        }
    }

    fn ident_end_exec(&self, from: usize) -> (r: usize)
        requires
            self.wf(),
            from <= self.chars@.len(),
        ensures
            r == ident_end(self.src@, from as int),
    {
        let mut i = from;
        while i < self.chars.len() && (ascii_alnum(self.chars[i]) || self.chars[i] == '_')
            invariant
                self.wf(),
                from <= i <= self.chars@.len(),
                ident_end(self.src@, from as int) == ident_end(self.src@, i as int),
            decreases self.chars.len() - i,
        {
            i += 1;
        }
        i
    }

    fn word_end_exec(&self, from: usize) -> (r: usize)
        requires
            self.wf(),
            from <= self.chars@.len(),
        ensures
            r == word_end(self.src@, from as int),
    {
        let n = self.chars.len();
        let mut i = from;
        while i < n && !scan_blank(self.chars[i]) && !(self.chars[i] == '%' && i + 1 < n
            && self.chars[i + 1] == '}')
            invariant
                self.wf(),
                n == self.chars@.len(),
                from <= i <= n,
                word_end(self.src@, from as int) == word_end(self.src@, i as int),
            decreases n - i,
        {
            i += 1;
        }
        i
    }

    fn find_delim_exec(&self, from: usize) -> (r: Option<usize>)
        requires
            self.wf(),
            from <= self.chars@.len(),
        ensures
            match r {
                Some(d) => find_delim(self.src@, from as int) == Some(d as int),
                None => find_delim(self.src@, from as int) is None,
            },
    {
        let n = self.chars.len();
        let mut i = from;
        while i < n
            invariant
                self.wf(),
                n == self.chars@.len(),
                from <= i <= n,
                find_delim(self.src@, from as int) == find_delim(self.src@, i as int),
            decreases n - i,
        {
            if i + 1 < n && self.chars[i] == '{' && (self.chars[i + 1] == '{' || self.chars[i
                + 1] == '%') {
                return Some(i);
            }
            i += 1;
        }
        None
    }

    fn emit(&mut self, start: usize, end: usize, kind: SpanKind, mode: ScanMode) -> (r: RawSpan<
        'src,
    >)
        requires
            old(self).wf(),
            start <= end <= old(self).chars@.len(),
        ensures
            final(self).wf(),
            final(self).src == old(self).src,
            final(self).pos == end,
            final(self).mode == mode,
            r.slice@ == old(self).src@.subrange(start as int, end as int),
            r.kind == kind,
    {
        let slice = self.src.substring_char(start, end);
        self.pos = end;
        self.mode = mode;
        RawSpan { slice, kind }
    }

    /// The next span, or `None` once the scanner stops.
    fn next(&mut self) -> (r: Option<RawSpan<'src>>)
        requires
            old(self).wf(),
        ensures
            final(self).wf(),
            final(self).src == old(self).src,
            match next_step(old(self).src@, old(self).pos as int, old(self).mode) {
                None => r is None,
                Some(st) => r matches Some(sp) && sp.slice@ == old(self).src@.subrange(
                    st.start,
                    st.end,
                ) && sp.kind == st.kind && final(self).pos == st.next_pos && final(self).mode
                    == st.next_mode,
            },
        decreases old(self).chars@.len() - old(self).pos,
    {
        let ghost s = self.src@;
        let n = self.chars.len();
        if self.pos >= n {
            return None;
        }
        match self.mode {
            ScanMode::Literal => {
                let p = self.pos;
                proof {
                    lemma_find_delim(s, p as int);
                }
                match self.find_delim_exec(p) {
                    None => Some(self.emit(p, n, SpanKind::Literal, ScanMode::Literal)),
                    Some(d) => {
                        if d == p {
                            if self.chars[p + 1] == '{' {
                                Some(self.emit(p, p + 2, SpanKind::ExprOpen, ScanMode::InExpr))
                            } else {
                                Some(self.emit(p, p + 2, SpanKind::BlockOpen, ScanMode::InBlock))
                            }
                        } else {
                            Some(self.emit(p, d, SpanKind::Literal, ScanMode::Literal))
                        }
                    },
                }
            },
            ScanMode::InExpr => {
                let ghost pos0 = self.pos as int;
                self.skip_ws();
                proof {
                    lemma_blank_end(s, pos0);
                }
                let p = self.pos;
                if p >= n {
                    return None;
                }
                if p + 1 < n && self.chars[p] == '}' && self.chars[p + 1] == '}' {
                    return Some(self.emit(p, p + 2, SpanKind::ExprClose, ScanMode::Literal));
                }
                if self.chars[p] == '.' {
                    return Some(self.emit(p, p + 1, SpanKind::Punct, ScanMode::InExpr));
                }
                let e = self.ident_end_exec(p);
                proof {
                    lemma_ident_end(s, p as int);
                }
                if e > p {
                    Some(self.emit(p, e, SpanKind::Ident, ScanMode::InExpr))
                } else {
                    // Unexpected character: skip it and scan on.
                    self.pos = p + 1;
                    self.next()
                }
            },
            ScanMode::InBlock => {
                let ghost pos0 = self.pos as int;
                self.skip_ws();
                proof {
                    lemma_blank_end(s, pos0);
                }
                let p = self.pos;
                if p >= n {
                    return None;
                }
                if self.chars[p] == '%' && p + 1 < n && self.chars[p + 1] == '}' {
                    return Some(self.emit(p, p + 2, SpanKind::BlockClose, ScanMode::Literal));
                }
                let e = self.word_end_exec(p);
                proof {
                    lemma_word_end(s, p as int);
                }
                if e > p {
                    Some(self.emit(p, e, SpanKind::Ident, ScanMode::InBlock))
                } else {
                    None
                }
            },
        }
    }
}

/// Cuts the template source into spans: HTML literals, the delimiters
/// `{{ }} {% %}`, identifiers and the `.` inside `{{ }}`.
pub fn scan(src: &str) -> (r: Vec<RawSpan<'_>>)
    ensures
        r.deep_view() == scan_spec(src@),
{
    let mut sc = Scanner::new(src);
    let mut out: Vec<RawSpan<'_>> = Vec::new();
    let ghost s = src@;
    assert(Seq::<(Seq<char>, SpanKind)>::empty() + scan_from(s, 0, ScanMode::Literal).map_values(
        |t: (int, int, SpanKind)| (s.subrange(t.0, t.1), t.2),
    ) =~= scan_spec(s));
    loop
        invariant
            sc.wf(),
            sc.src == src,
            s == src@,
            scan_spec(s) == out.deep_view() + scan_from(s, sc.pos as int, sc.mode).map_values(
                |t: (int, int, SpanKind)| (s.subrange(t.0, t.1), t.2),
            ),
        decreases sc.chars@.len() - sc.pos,
    {
        let ghost pos0 = sc.pos as int;
        let ghost mode0 = sc.mode;
        proof {
            lemma_next_step_bounds(s, pos0, mode0);
        }
        match sc.next() {
            None => {
                assert(next_step(s, pos0, mode0) is None);
                assert(scan_from(s, pos0, mode0) =~= Seq::empty());
                assert(out.deep_view() + Seq::<(int, int, SpanKind)>::empty().map_values(
                    |t: (int, int, SpanKind)| (s.subrange(t.0, t.1), t.2),
                ) =~= out.deep_view());
                return out;
            },
            Some(sp) => {
                assert(next_step(s, pos0, mode0) is Some);
                let ghost st = next_step(s, pos0, mode0)->Some_0;
                let ghost rest = scan_from(s, st.next_pos, st.next_mode).map_values(
                    |t: (int, int, SpanKind)| (s.subrange(t.0, t.1), t.2),
                );
                assert(scan_from(s, pos0, mode0) == seq![(st.start, st.end, st.kind)] + scan_from(
                    s,
                    st.next_pos,
                    st.next_mode,
                ));
                assert(scan_from(s, pos0, mode0).map_values(
                    |t: (int, int, SpanKind)| (s.subrange(t.0, t.1), t.2),
                ) =~= seq![(s.subrange(st.start, st.end), st.kind)] + rest);
                assert(sp.slice@ == s.subrange(st.start, st.end));
                assert(sp.kind == st.kind);
                assert(sp.deep_view() == (s.subrange(st.start, st.end), st.kind));
                let ghost old_dv = out.deep_view();
                out.push(sp);
                assert(out.deep_view() =~= old_dv.push(sp.deep_view()));
                assert(old_dv + (seq![(s.subrange(st.start, st.end), st.kind)] + rest) =~= old_dv.push(
                    sp.deep_view(),
                ) + rest);
            },
        }
    }
}

} // verus!
