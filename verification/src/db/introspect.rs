//! What the catalogue introspection decides once the rows are read:
//! length bounds from `CHECK` constraints and type modifiers, sentinels
//! and escaping tags from column comments, the primary-key shape, the
//! capacity of the entity bitmap, and the 64 KB bound on escaped values.

use vstd::prelude::*;
use crate::db::mapping::{Column, PrimaryKey};
use crate::schema::{EscapePolicy, VarlenField};
use crate::text::{
    chars_of, find_char_exec, find_char_from, find_seq_exec, find_seq_from, lemma_find_char_from,
    parse_usize_range, parse_usize_spec, push_str, push_usize, decimal, str_eq, string_from_chars, trim_bounds, trim_spec,
};

verus! {

/// `s` without its trailing `c`s.
pub open spec fn strip_trailing(s: Seq<char>, c: char) -> Seq<char>
    decreases s.len(),
{
    if s.len() > 0 && s.last() == c {
        strip_trailing(s.drop_last(), c)
    } else {
        s
    }
}

/// The text between the first `<=` and the next one (or the end).
pub open spec fn after_first_le(s: Seq<char>) -> Option<Seq<char>> {
    match find_seq_from(s, "<="@, 0) {
        None => None,
        Some(p) => {
            let rest = s.skip(p + 2);
            match find_seq_from(rest, "<="@, 0) {
                None => Some(rest),
                Some(q) => Some(rest.take(q)),
            }
        },
    }
}

/// The bound of a `CHECK (length(col) <= N)` constraint: the text after
/// the first `<=`, trimmed, without closing brackets, as an integer.
pub open spec fn check_limit_spec(consrc: Seq<char>) -> Option<usize> {
    match after_first_le(consrc) {
        None => None,
        Some(a) => parse_usize_spec(trim_spec(strip_trailing(trim_spec(a), ')'))),
    }
}

/// Reads the length bound of a `CHECK` constraint such as
/// `(length(label) <= 255)`; `None` when the form is not recognised (a
/// reversed comparison, an expression, a negative number).
pub fn parse_check_length_limit(consrc: &str) -> (r: Option<usize>)
    ensures
        r == check_limit_spec(consrc@),
{
    let cs = chars_of(consrc);
    let le = chars_of("<=");
    proof {
        reveal_strlit("<=");
    }
    let p = match find_seq_exec(cs.as_slice(), le.as_slice(), 0) {
        Some(p) => p,
        None => return None,
    };
    proof {
        lemma_find_seq_bounds(cs@, le@, 0);
        assert(le@ == "<="@);
        assert(le@.len() == 2);
        assert(p + 2 <= cs@.len());
        assert(p + 2 <= cs.len());
    }
    let start = p + 2;
    let end = match find_seq_exec(cs.as_slice(), le.as_slice(), start) {
        Some(q) => q,
        None => cs.len(),
    };
    proof {
        lemma_find_seq_shift(cs@, le@, start as int);
        lemma_find_seq_bounds(cs@, le@, start as int);
    }
    let ghost a = cs@.subrange(start as int, end as int);
    assert(after_first_le(consrc@) == Some(a)) by {
        let rest = consrc@.skip(p + 2);
        match find_seq_from(rest, "<="@, 0) {
            None => {
                assert(rest =~= a);
            },
            Some(q) => {
                assert(rest.take(q) =~= a);
            },
        }
    }
    let (t0, t1) = trim_bounds(cs.as_slice(), start, end);
    let mut e = t1;
    while e > t0 && cs[e - 1] == ')'
        invariant
            t0 <= e <= t1 <= cs@.len(),
            strip_trailing(trim_spec(a), ')') == strip_trailing(cs@.subrange(t0 as int, e as int), ')'),
        decreases e,
    {
        assert(cs@.subrange(t0 as int, e as int).drop_last() =~= cs@.subrange(t0 as int, e - 1));
        e -= 1;
    }
    assert(strip_trailing(cs@.subrange(t0 as int, e as int), ')') == cs@.subrange(t0 as int, e as int));
    let (u0, u1) = trim_bounds(cs.as_slice(), t0, e);
    parse_usize_range(cs.as_slice(), u0, u1)
}

proof fn lemma_find_seq_bounds(s: Seq<char>, pat: Seq<char>, from: int)
    ensures
        find_seq_from(s, pat, from) matches Some(i) ==> from <= i && i + pat.len() <= s.len(),
    decreases s.len() + 1 - from,
{
    if !(from < 0 || from + pat.len() > s.len()) {
        lemma_find_seq_bounds(s, pat, from + 1);
    }
}

/// Searching from `from` in `s` is searching from 0 in `s.skip(from)`,
/// shifted.
proof fn lemma_find_seq_shift(s: Seq<char>, pat: Seq<char>, from: int)
    requires
        0 <= from <= s.len(),
    ensures
        match find_seq_from(s.skip(from), pat, 0) {
            Some(q) => find_seq_from(s, pat, from) == Some(q + from),
            None => find_seq_from(s, pat, from) is None,
        },
{
    lemma_find_seq_shift_rec(s, pat, from, 0);
}

proof fn lemma_find_seq_shift_rec(s: Seq<char>, pat: Seq<char>, from: int, k: int)
    requires
        0 <= from <= s.len(),
        0 <= k,
    ensures
        match find_seq_from(s.skip(from), pat, k) {
            Some(q) => find_seq_from(s, pat, from + k) == Some(q + from),
            None => find_seq_from(s, pat, from + k) is None,
        },
    decreases s.len() + 1 - from - k,
{
    let t = s.skip(from);
    if !(k + pat.len() > t.len()) {
        assert(crate::text::occurs_at(t, pat, k) == crate::text::occurs_at(s, pat, from + k)) by {
            assert forall|j: int| 0 <= j < pat.len() implies #[trigger] t[k + j] == s[from + k + j] by {}
            if crate::text::occurs_at(t, pat, k) {
                assert(t.subrange(k, k + pat.len()) =~= s.subrange(from + k, from + k + pat.len()));
            }
            if crate::text::occurs_at(s, pat, from + k) {
                assert(t.subrange(k, k + pat.len()) =~= s.subrange(from + k, from + k + pat.len()));
            }
        }
        lemma_find_seq_shift_rec(s, pat, from, k + 1);
    }
}

/// The `marius:sentinel=` tag.
pub open spec fn sentinel_key() -> Seq<char> {
    "marius:sentinel="@
}

/// End of the `;`-separated segment that starts at `a`.
pub open spec fn segment_end(s: Seq<char>, a: int) -> int {
    match find_char_from(s, ';', a) {
        Some(p) => p,
        None => s.len() as int,
    }
}

/// The sentinel of a comment, looking at the segments from `a`: the first
/// trimmed segment that starts with the tag decides; its value, trimmed,
/// must be non-empty.
pub open spec fn sentinel_from(s: Seq<char>, a: int) -> Option<Seq<char>>
    decreases s.len() - a,
{
    if a < 0 || a > s.len() {
        None
    } else {
        let b = segment_end(s, a);
        let seg = trim_spec(s.subrange(a, b));
        if seg.len() >= 16 && seg.take(16) == sentinel_key() {
            let v = trim_spec(seg.skip(16));
            if v.len() == 0 {
                None
            } else {
                Some(v)
            }
        } else if a <= b < s.len() {
            sentinel_from(s, b + 1)
        } else {
            None
        }
    }
}

/// The value of the `marius:sentinel=` tag of a column comment (the
/// comment is split on `;`, each part trimmed); `None` if absent or empty.
pub fn parse_sentinel(description: &str) -> (r: Option<String>)
    ensures
        match r {
            Some(v) => sentinel_from(description@, 0) == Some(v@),
            None => sentinel_from(description@, 0) is None,
        },
{
    let cs = chars_of(description);
    let key = chars_of("marius:sentinel=");
    proof {
        reveal_strlit("marius:sentinel=");
    }
    let mut a: usize = 0;
    while a <= cs.len()
        invariant
            cs@ == description@,
            key@ == sentinel_key(),
            key@.len() == 16,
            a <= cs@.len() + 1,
            sentinel_from(description@, 0) == sentinel_from(description@, a as int),
        decreases cs@.len() + 1 - a,
    {
        proof {
            lemma_find_char_from(cs@, ';', a as int);
        }
        let b = match find_char_exec(cs.as_slice(), ';', a) {
            Some(p) => p,
            None => cs.len(),
        };
        let (t0, t1) = trim_bounds(cs.as_slice(), a, b);
        let ghost seg = cs@.subrange(t0 as int, t1 as int);
        if t1 - t0 >= 16 {
            let mut k: usize = 0;
            let mut same = true;
            while k < 16
                invariant
                    t1 - t0 >= 16,
                    t1 <= cs@.len(),
                    key@.len() == 16,
                    k <= 16,
                    same == (forall|j: int| 0 <= j < k ==> cs@[t0 + j] == key@[j]),
                decreases 16 - k,
            {
                same = same && cs[t0 + k] == key[k];
                k += 1;
            }
            proof {
                if same {
                    assert(seg.take(16) =~= key@);
                } else {
                    let j = choose|j: int| 0 <= j < 16 && cs@[t0 + j] != key@[j];
                    assert(seg.take(16)[j] != key@[j]);
                }
            }
            if same {
                let (v0, v1) = trim_bounds(cs.as_slice(), t0 + 16, t1);
                proof {
                    assert(seg.skip(16) =~= cs@.subrange(t0 + 16, t1 as int));
                }
                if v1 == v0 {
                    return None;
                }
                let v = string_from_chars(vstd::slice::slice_subrange(cs.as_slice(), v0, v1));
                return Some(v);
            }
        }
        if b >= cs.len() {
            return None;
        }
        a = b + 1;
    }
    None
}

/// Escaping policy and segmentation from a column comment:
/// `marius:pre_escaped`, `marius:raw`, `marius:large_content` (raw and
/// segmented), anything else escaped.
pub open spec fn classify_spec(description: Seq<char>) -> (EscapePolicy, bool) {
    let t = trim_spec(description);
    if t == "marius:pre_escaped"@ {
        (EscapePolicy::PreEscaped, false)
    } else if t == "marius:raw"@ {
        (EscapePolicy::Raw, false)
    } else if t == "marius:large_content"@ {
        (EscapePolicy::Raw, true)
    } else {
        (EscapePolicy::Escaped, false)
    }
}

/// Reads the escaping tag of a varlena column's comment.
pub fn classify_description(description: &str) -> (r: (EscapePolicy, bool))
    ensures
        r == classify_spec(description@),
        r.1 ==> r.0 == EscapePolicy::Raw,
{
    let cs = chars_of(description);
    let (a, b) = trim_bounds(cs.as_slice(), 0, cs.len());
    assert(cs@.subrange(0, cs@.len() as int) =~= description@);
    let t = description.substring_char(a, b);
    if str_eq(t, "marius:pre_escaped") {
        (EscapePolicy::PreEscaped, false)
    } else if str_eq(t, "marius:raw") {
        (EscapePolicy::Raw, false)
    } else if str_eq(t, "marius:large_content") {
        (EscapePolicy::Raw, true)
    } else {
        (EscapePolicy::Escaped, false)
    }
}

/// A `varchar(N)` type modifier is `N + 4`; no bound otherwise.
pub fn max_len_from_typmod(typmod: i32) -> (r: Option<usize>)
    ensures
        r == (if typmod > 4 {
            Some((typmod - 4) as usize)
        } else {
            None::<usize>
        }),
{
    if typmod > 4 {
        Some((typmod - 4) as usize)
    } else {
        None
    }
}

/// Largest escaped length accepted for a field that is not segmented.
pub const MAX_ESCAPED_BYTES: usize = 65536;

/// The escaped length of a bounded field when it exceeds 64 KB (the
/// build refuses such a field unless it is tagged `marius:large_content`).
pub fn escaped_limit_exceeded(max_len: usize, policy: EscapePolicy) -> (r: Option<usize>)
    ensures
        ({
            let factor: int = if policy == EscapePolicy::Escaped {
                VarlenField::HTML_ESCAPE_FACTOR as int
            } else {
                1
            };
            match r {
                Some(n) => max_len * factor > MAX_ESCAPED_BYTES && n == (if max_len * factor
                    > usize::MAX {
                    usize::MAX as int
                } else {
                    max_len * factor
                }),
                None => max_len * factor <= MAX_ESCAPED_BYTES,
            }
        }),
{
    let factor = match policy {
        EscapePolicy::Escaped => VarlenField::HTML_ESCAPE_FACTOR,
        _ => 1,
    };
    let escaped = match max_len.checked_mul(factor) {
        Some(x) => x,
        None => usize::MAX,
    };
    if escaped > MAX_ESCAPED_BYTES {
        Some(escaped)
    } else {
        None
    }
}

/// The observed average width exceeds 80% of the bound.
pub fn avg_width_pressure(avg_width: i32, max_len: usize) -> (r: bool)
    ensures
        r == ((avg_width as usize) as int > (max_len * 8) / 10),
{
    let w = avg_width as usize;
    (w as u128) > (max_len as u128) * 8 / 10
}

/// A column as introspected, its sentinel read from the comment.
pub fn column_from_row(
    attnum: i16,
    name: String,
    sql_type: String,
    is_notnull: bool,
    description: &str,
) -> (r: Column)
    ensures
        r.attnum == attnum,
        r.name@ == name@,
        r.sql_type@ == sql_type@,
        r.is_notnull == is_notnull,
        match r.sentinel {
            Some(v) => sentinel_from(description@, 0) == Some(v@),
            None => sentinel_from(description@, 0) is None,
        },
{
    Column { attnum, name, sql_type, is_notnull, sentinel: parse_sentinel(description) }
}

/// The primary key from its columns, in ordinal order: exactly one is a
/// single key; none or several are treated as composite.
pub fn primary_key_from_columns(mut names: Vec<String>) -> (r: PrimaryKey)
    ensures
        names@.len() == 1 ==> (r matches PrimaryKey::Single(n) && n@ == names@[0]@),
        names@.len() != 1 ==> r is Composite,
{
    if names.len() == 1 {
        let n = names.pop().unwrap();
        PrimaryKey::Single(n)
    } else {
        PrimaryKey::Composite
    }
}

/// The notice printed for a primary key of `count` columns: none for a
/// single column, else why the table is treated as composite.
pub open spec fn pk_notice_spec(schema: Seq<char>, table: Seq<char>, count: usize) -> Option<Seq<char>> {
    if count == 0 {
        Some("DB-Forge ["@ + schema + "."@ + table + "] : aucune PK trouvée — traité comme Composite."@)
    } else if count == 1 {
        None
    } else {
        Some("DB-Forge ["@ + schema + "."@ + table + "] : PK composite ("@ + decimal(count as nat)
            + " colonnes) — Collector ignoré."@)
    }
}

/// The notice for a primary key of `count` columns.
pub fn pk_notice(schema: &str, table: &str, count: usize) -> (r: Option<String>)
    ensures
        match r {
            Some(m) => pk_notice_spec(schema@, table@, count) == Some(m@),
            None => pk_notice_spec(schema@, table@, count) is None,
        },
{
    if count == 1 {
        return None;
    }
    let mut m = String::new();
    push_str(&mut m, "DB-Forge [");
    push_str(&mut m, schema);
    push_str(&mut m, ".");
    push_str(&mut m, table);
    if count == 0 {
        push_str(&mut m, "] : aucune PK trouvée — traité comme Composite.");
    } else {
        push_str(&mut m, "] : PK composite (");
        push_usize(&mut m, count);
        push_str(&mut m, " colonnes) — Collector ignoré.");
    }
    proof {
        if count == 0 {
            assert(m@ =~= "DB-Forge ["@ + schema@ + "."@ + table@
                + "] : aucune PK trouvée — traité comme Composite."@);
        } else {
            assert(m@ =~= "DB-Forge ["@ + schema@ + "."@ + table@ + "] : PK composite ("@ + decimal(
                count as nat,
            ) + " colonnes) — Collector ignoré."@);
        }
    }
    Some(m)
}

/// Smallest power of two at or above `n`, searching from `p`.
pub open spec fn next_pow2_from(n: nat, p: nat) -> nat
    decreases (if p < n {
        n - p
    } else {
        0int
    }),
{
    if p == 0 || p >= n {
        p
    } else {
        next_pow2_from(n, 2 * p)
    }
}

/// Entity bitmap capacity for a maximum id with margin: at least 64, in
/// 64-bit words, the word count rounded up to a power of two.
pub open spec fn entity_capacity_spec(with_margin: nat) -> nat {
    let m = if with_margin < 64 {
        64
    } else {
        with_margin
    };
    next_pow2_from(((m + 63) / 64) as nat, 1) * 64
}

proof fn lemma_next_pow2_bound(n: nat, p: nat)
    requires
        p >= 1,
        p <= 2 * n || p == 1,
    ensures
        next_pow2_from(n, p) <= 2 * n || next_pow2_from(n, p) == p,
        next_pow2_from(n, p) >= p,
    decreases (if p < n {
        n - p
    } else {
        0int
    }),
{
    if p < n {
        lemma_next_pow2_bound(n, 2 * p);
    }
}

/// The capacity of the entity bitmap (`MAX_ENTITY_ID`) for a maximum id
/// already increased by its safety margin; `None` when it does not fit in
/// a `usize`.
pub fn entity_capacity(with_margin: usize) -> (r: Option<usize>)
    ensures
        r == (if entity_capacity_spec(with_margin as nat) <= usize::MAX {
            Some(entity_capacity_spec(with_margin as nat) as usize)
        } else {
            None
        }),
{
    let m = if with_margin < 64 {
        64
    } else {
        with_margin
    };
    let words = m / 64 + if m % 64 != 0 {
        1usize
    } else {
        0usize
    };
    assert(words as nat == ((m + 63) / 64) as nat);
    let mut p: usize = 1;
    proof {
        lemma_next_pow2_bound(words as nat, 1);
    }
    while p < words
        invariant
            1 <= p,
            p <= 2 * words || p == 1,
            words <= usize::MAX / 64 + 1,
            next_pow2_from(words as nat, 1) == next_pow2_from(words as nat, p as nat),
        decreases (if p < words {
            words - p
        } else {
            0int
        }),
    {
        p = p * 2;
    }
    p.checked_mul(64)
}

/// A varlena field of `schema.table` as introspected (nullable, no
/// override of the escaped length).
pub fn varlena_field(
    name: String,
    schema: &str,
    table: &str,
    max_len: Option<usize>,
    escape_policy: EscapePolicy,
    is_segment: bool,
) -> (r: VarlenField)
    ensures
        r.name@ == name@,
        r.ref_schema@ == schema@,
        r.ref_table@ == table@,
        r.max_len == max_len,
        r.escape_policy == escape_policy,
        r.is_segment == is_segment,
        r.nullable,
        r.max_escaped_len_override is None,
{
    let mut ref_schema = String::new();
    push_str(&mut ref_schema, schema);
    let mut ref_table = String::new();
    push_str(&mut ref_table, table);
    VarlenField {
        name,
        ref_schema,
        ref_table,
        max_len,
        escape_policy,
        is_segment,
        nullable: true,
        max_escaped_len_override: None,
    }
}

} // verus!
