//! Filling prompt templates, and the token budget of the rollout handed to memory extraction.
use crate::text::{chars_occur_at, occurs_at, string_of, trim, trim_chars};
use vstd::prelude::*;

verus! {

/// The first position at or after `from` where `needle` occurs in `s`.
pub open spec fn find_from(s: Seq<char>, needle: Seq<char>, from: int) -> Option<int>
    decreases s.len() - from,
{
    if from < 0 || from + needle.len() > s.len() {
        None
    } else if occurs_at(s, needle, from) {
        Some(from)
    } else if from >= s.len() {
        None
    } else {
        find_from(s, needle, from + 1)
    }
}

proof fn lemma_find_from(s: Seq<char>, needle: Seq<char>, from: int)
    ensures
        find_from(s, needle, from) matches Some(i) ==> from <= i && i + needle.len() <= s.len()
            && occurs_at(s, needle, i) && s.subrange(i, i + needle.len()) == needle,
    decreases s.len() - from,
{
    if !(from < 0 || from + needle.len() > s.len()) && !occurs_at(s, needle, from) && from < s.len() {
        lemma_find_from(s, needle, from + 1);
    }
}

/// `s` without every leading copy of `p` (`str::trim_start_matches`).
pub open spec fn strip_leading(s: Seq<char>, p: Seq<char>) -> Seq<char>
    decreases s.len(),
{
    if p.len() > 0 && s.len() >= p.len() && s.subrange(0, p.len() as int) == p {
        strip_leading(s.subrange(p.len() as int, s.len() as int), p)
    } else {
        s
    }
}

/// `s` without every trailing copy of `p` (`str::trim_end_matches`).
pub open spec fn strip_trailing(s: Seq<char>, p: Seq<char>) -> Seq<char>
    decreases s.len(),
{
    if p.len() > 0 && s.len() >= p.len() && s.subrange(s.len() - p.len(), s.len() as int) == p {
        strip_trailing(s.subrange(0, s.len() - p.len()), p)
    } else {
        s
    }
}

/// The value a template lookup gives for a key: the first entry of the table with that key.
pub open spec fn lookup(table: Seq<(Seq<char>, Seq<char>)>, key: Seq<char>) -> Option<Seq<char>>
    decreases table.len(),
{
    if table.len() == 0 {
        None
    } else if table[0].0 == key {
        Some(table[0].1)
    } else {
        lookup(table.drop_first(), key)
    }
}

/// A template filled from a table: each `{{ key }}` (the key trimmed, its braces stripped) is
/// replaced by the key's value, and kept as written when the table has no such key; text
/// after an opening `{{` without a closing `}}` is kept as it is.
pub open spec fn spec_render(template: Seq<char>, table: Seq<(Seq<char>, Seq<char>)>) -> Seq<char>
    decreases template.len(),
{
    match find_from(template, "{{"@, 0) {
        None => template,
        Some(start) => {
            let after = template.subrange(start, template.len() as int);
            match find_from(after, "}}"@, 0) {
                None => template,
                Some(end) => {
                    let placeholder = after.subrange(0, end + 2);
                    let key = trim(strip_trailing(strip_leading(placeholder, "{{"@), "}}"@));
                    let value = match lookup(table, key) {
                        Some(v) => v,
                        None => placeholder,
                    };
                    let rest = after.subrange(end + 2, after.len() as int);
                    if 0 <= start && 0 <= end && start + end + 2 <= template.len() {
                        template.subrange(0, start) + value + spec_render(rest, table)
                    } else {
                        template
                    }
                },
            }
        },
    }
}

fn find_chars(s: &[char], needle: &[char], from: usize) -> (r: Option<usize>)
    requires
        from <= s@.len(),
    ensures
        match r {
            Some(i) => find_from(s@, needle@, from as int) == Some(i as int),
            None => find_from(s@, needle@, from as int) is None,
        },
{
    let mut i = from;
    while i < s.len()
        invariant
            from <= i <= s@.len(),
            find_from(s@, needle@, from as int) == find_from(s@, needle@, i as int),
        decreases s@.len() - i,
    {
        if needle.len() > s.len() - i {
            return None;
        }
        if chars_occur_at(s, needle, i) {
            return Some(i);
        }
        i = i + 1;
    }
    proof {
        if needle@.len() == 0 {
            assert(s@.subrange(i as int, i as int) =~= needle@);
            assert(occurs_at(s@, needle@, i as int));
        }
    }
    if needle.len() == 0 {
        return Some(i);
    }
    None
}

fn strip_leading_chars(s: &[char], p: &[char]) -> (r: Vec<char>)
    ensures
        r@ == strip_leading(s@, p@),
{
    let mut start: usize = 0;
    assert(s@.subrange(0, s@.len() as int) =~= s@);
    while p.len() > 0 && p.len() <= s.len() - start && chars_occur_at(s, p, start)
        invariant
            start <= s@.len(),
            strip_leading(s@, p@) == strip_leading(s@.subrange(start as int, s@.len() as int), p@),
        decreases s@.len() - start,
    {
        proof {
            let t = s@.subrange(start as int, s@.len() as int);
            assert(t.subrange(0, p@.len() as int) =~= p@);
            assert(t.subrange(p@.len() as int, t.len() as int) =~= s@.subrange(
                start + p@.len(),
                s@.len() as int,
            ));
        }
        start = start + p.len();
    }
    proof {
        let t = s@.subrange(start as int, s@.len() as int);
        if p@.len() > 0 && t.len() >= p@.len() && t.subrange(0, p@.len() as int) == p@ {
            assert(t.subrange(0, p@.len() as int) =~= s@.subrange(start as int, start + p@.len()));
            assert(occurs_at(s@, p@, start as int));
        }
    }
    crate::text::slice_chars(s, start, s.len())
}

fn strip_trailing_chars(s: &[char], p: &[char]) -> (r: Vec<char>)
    ensures
        r@ == strip_trailing(s@, p@),
{
    let mut end: usize = s.len();
    assert(s@.subrange(0, s@.len() as int) =~= s@);
    while p.len() > 0 && p.len() <= end && chars_occur_at(s, p, end - p.len())
        invariant
            end <= s@.len(),
            strip_trailing(s@, p@) == strip_trailing(s@.subrange(0, end as int), p@),
        decreases end,
    {
        proof {
            let t = s@.subrange(0, end as int);
            assert(t.subrange(t.len() - p@.len(), t.len() as int) =~= p@);
            assert(t.subrange(0, t.len() - p@.len()) =~= s@.subrange(0, end - p@.len()));
        }
        end = end - p.len();
    }
    proof {
        let t = s@.subrange(0, end as int);
        if p@.len() > 0 && t.len() >= p@.len() && t.subrange(t.len() - p@.len(), t.len() as int)
            == p@ {
            assert(t.subrange(t.len() - p@.len(), t.len() as int) =~= s@.subrange(
                end - p@.len(),
                end as int,
            ));
            assert(occurs_at(s@, p@, end - p@.len()));
        }
    }
    crate::text::slice_chars(s, 0, end)
}

/// The value of a key in a lookup table.
pub fn lookup_value<'a>(table: &'a Vec<(String, String)>, key: &[char]) -> (r: Option<&'a String>)
    ensures
        match r {
            Some(v) => lookup(table@.map_values(|e: (String, String)| (e.0@, e.1@)), key@) == Some(v@),
            None => lookup(table@.map_values(|e: (String, String)| (e.0@, e.1@)), key@) is None,
        },
{
    let ghost tv = table@.map_values(|e: (String, String)| (e.0@, e.1@));
    let mut i: usize = 0;
    assert(tv.skip(0) =~= tv);
    while i < table.len()
        invariant
            i <= table@.len(),
            tv == table@.map_values(|e: (String, String)| (e.0@, e.1@)),
            lookup(tv, key@) == lookup(tv.skip(i as int), key@),
        decreases table@.len() - i,
    {
        let ghost rest = tv.skip(i as int);
        assert(rest.drop_first() =~= tv.skip(i + 1));
        assert(rest[0] == (table@[i as int].0@, table@[i as int].1@));
        let k = crate::text::chars_of(table[i].0.as_str());
        if crate::text::chars_eq(k.as_slice(), key) {
            return Some(&table[i].1);
        }
        i = i + 1;
    }
    None
}

/// Fills a template from a table of keys and values.
pub fn render_template(template: &str, table: &Vec<(String, String)>) -> (r: String)
    ensures
        r@ == spec_render(template@, table@.map_values(|e: (String, String)| (e.0@, e.1@))),
{
    let ghost tv = table@.map_values(|e: (String, String)| (e.0@, e.1@));
    let open_v = crate::text::chars_of("{{");
    let close_v = crate::text::chars_of("}}");
    proof {
        reveal_strlit("{{");
        reveal_strlit("}}");
        assert(open_v@.len() == 2);
        assert(close_v@.len() == 2);
    }
    let all = crate::text::chars_of(template);
    let mut out: Vec<char> = Vec::new();
    let mut pos: usize = 0;
    assert(all@.subrange(0, all@.len() as int) =~= all@);
    while pos <= all.len()
        invariant
            pos <= all@.len(),
            all@ == template@,
            open_v@ == "{{"@,
            close_v@ == "}}"@,
            open_v@.len() == 2,
            close_v@.len() == 2,
            tv == table@.map_values(|e: (String, String)| (e.0@, e.1@)),
            out@ + spec_render(all@.subrange(pos as int, all@.len() as int), tv) == spec_render(
                template@,
                tv,
            ),
        decreases all@.len() - pos,
    {
        let rest = crate::text::slice_chars(all.as_slice(), pos, all.len());
        let start = match find_chars(rest.as_slice(), open_v.as_slice(), 0) {
            Some(s) => s,
            None => {
                crate::text::extend_chars(&mut out, rest.as_slice());
                return string_of(out.as_slice());
            },
        };
        proof {
            lemma_find_from(rest@, open_v@, 0);
        }
        let after = crate::text::slice_chars(rest.as_slice(), start, rest.len());
        let end = match find_chars(after.as_slice(), close_v.as_slice(), 0) {
            Some(e) => e,
            None => {
                crate::text::extend_chars(&mut out, rest.as_slice());
                return string_of(out.as_slice());
            },
        };
        proof {
            lemma_find_from(after@, close_v@, 0);
        }
        let placeholder = crate::text::slice_chars(after.as_slice(), 0, end + 2);
        let stripped = strip_leading_chars(placeholder.as_slice(), open_v.as_slice());
        let stripped = strip_trailing_chars(stripped.as_slice(), close_v.as_slice());
        let key = trim_chars(stripped.as_slice());
        let before = crate::text::slice_chars(rest.as_slice(), 0, start);
        crate::text::extend_chars(&mut out, before.as_slice());
        match lookup_value(table, key.as_slice()) {
            Some(v) => {
                let vc = crate::text::chars_of(v.as_str());
                crate::text::extend_chars(&mut out, vc.as_slice());
            },
            None => {
                crate::text::extend_chars(&mut out, placeholder.as_slice());
            },
        }
        proof {
            let r = all@.subrange(pos as int, all@.len() as int);
            assert(rest@ == r);
            assert(after@ == r.subrange(start as int, r.len() as int));
            assert(after@.subrange(end + 2, after@.len() as int) =~= all@.subrange(
                pos + start + end + 2,
                all@.len() as int,
            ));
            assert(before@ == r.subrange(0, start as int));
        }
        pos = pos + start + end + 2;
    }
    string_of(out.as_slice())
}

/// `x` clamped to the range of `i64` (what `i64::saturating_mul` gives for a product `x`).
pub open spec fn saturate_i64(x: int) -> int {
    if x > i64::MAX {
        i64::MAX as int
    } else if x < i64::MIN {
        i64::MIN as int
    } else {
        x
    }
}

/// Integer division by a positive `b` rounding toward zero, as `i64` division does.
pub open spec fn div_toward_zero(a: int, b: int) -> int {
    if a >= 0 {
        a / b
    } else {
        -((-a) / b)
    }
}

/// The token budget of the rollout handed to memory extraction: when the model has a positive
/// context window, that window times the model's effective percentage, then times the
/// extraction's percentage (each product saturating, each divided by 100 toward zero), and at
/// least 1; otherwise the default budget.
pub open spec fn spec_rollout_token_limit(
    context_window: Option<i64>,
    effective_percent: i64,
    context_percent: i64,
    default_limit: usize,
) -> int {
    match context_window {
        Some(w) => if w > 0 {
            let a = div_toward_zero(saturate_i64(w * effective_percent), 100);
            let b = div_toward_zero(saturate_i64(a * context_percent), 100);
            let b = if b < 1 {
                1
            } else {
                b
            };
            if b <= usize::MAX {
                b
            } else {
                default_limit as int
            }
        } else {
            default_limit as int
        },
        None => default_limit as int,
    }
}

fn saturating_mul_i64(a: i64, b: i64) -> (r: i64)
    ensures
        r == saturate_i64(a * b),
{
    assert(-0x8000_0000_0000_0000 * 0x8000_0000_0000_0000 <= (a as int) * (b as int)
        <= 0x8000_0000_0000_0000 * 0x8000_0000_0000_0000) by (nonlinear_arith)
        requires
            -0x8000_0000_0000_0000 <= a <= 0x7fff_ffff_ffff_ffff,
            -0x8000_0000_0000_0000 <= b <= 0x7fff_ffff_ffff_ffff,
    ;
    let p: i128 = (a as i128) * (b as i128);
    if p > i64::MAX as i128 {
        i64::MAX
    } else if p < i64::MIN as i128 {
        i64::MIN
    } else {
        p as i64
    }
}

fn div100_toward_zero(a: i64) -> (r: i64)
    ensures
        r == div_toward_zero(a as int, 100),
{
    if a >= 0 {
        a / 100
    } else {
        let n: i128 = -(a as i128);
        let q: i128 = n / 100;
        (-q) as i64
    }
}

/// The token budget of the rollout handed to memory extraction.
pub fn rollout_token_limit(
    context_window: Option<i64>,
    effective_percent: i64,
    context_percent: i64,
    default_limit: usize,
) -> (r: usize)
    ensures
        r as int == spec_rollout_token_limit(
            context_window,
            effective_percent,
            context_percent,
            default_limit,
        ),
{
    match context_window {
        Some(w) => {
            if w > 0 {
                let a = div100_toward_zero(saturating_mul_i64(w, effective_percent));
                let b = div100_toward_zero(saturating_mul_i64(a, context_percent));
                let b = if b < 1 {
                    1
                } else {
                    b
                };
                if (b as u128) <= (usize::MAX as u128) {
                    b as usize
                } else {
                    default_limit
                }
            } else {
                default_limit
            }
        },
        None => default_limit,
    }
}

/// The prompt of the memory consolidation agent: the template with `{{ memory_root }}` filled.
pub fn build_consolidation_prompt(template: &str, memory_root: &str) -> (r: String)
    ensures
        r@ == spec_render(template@, seq![("memory_root"@, memory_root@)]),
{
    let mut table: Vec<(String, String)> = Vec::new();
    table.push((crate::text::owned("memory_root"), crate::text::owned(memory_root)));
    assert(table@.map_values(|e: (String, String)| (e.0@, e.1@)) =~= seq![
        ("memory_root"@, memory_root@),
    ]);
    render_template(template, &table)
}

proof fn lemma_find_first(s: Seq<char>, needle: Seq<char>, from: int, i: int)
    requires
        0 <= from <= i,
        occurs_at(s, needle, i),
        forall|j: int| from <= j < i ==> !occurs_at(s, needle, j),
    ensures
        find_from(s, needle, from) == Some(i),
    decreases i - from,
{
    if from < i {
        assert(!occurs_at(s, needle, from));
        lemma_find_first(s, needle, from + 1, i);
    }
}

proof fn lemma_find_none(s: Seq<char>, needle: Seq<char>, from: int)
    requires
        0 <= from,
        forall|j: int| from <= j ==> !occurs_at(s, needle, j),
    ensures
        find_from(s, needle, from) is None,
    decreases s.len() - from,
{
    if !(from + needle.len() > s.len()) && from < s.len() {
        assert(!occurs_at(s, needle, from));
        lemma_find_none(s, needle, from + 1);
    }
}

/// `s` holds no `{`.
pub open spec fn no_open_brace(s: Seq<char>) -> bool {
    forall|i: int| 0 <= i < s.len() ==> s[i] != '{'
}

/// A template without `{` is rendered as it is.
pub proof fn law_render_keeps_plain_text(t: Seq<char>, table: Seq<(Seq<char>, Seq<char>)>)
    requires
        no_open_brace(t),
    ensures
        spec_render(t, table) == t,
{
    reveal_strlit("{{");
    assert forall|j: int| 0 <= j implies !occurs_at(t, "{{"@, j) by {
        if occurs_at(t, "{{"@, j) {
            assert(t.subrange(j, j + 2)[0] == t[j]);
        }
    }
    lemma_find_none(t, "{{"@, 0);
}

/// Every placeholder is filled, not only the first: a template made of plain text `a`, a
/// placeholder `{{k}}` (its key `k` without braces) and any text `b` renders as `a`, then the
/// value of the trimmed key when the table has it (else the placeholder as written), then `b`
/// rendered in its turn.
pub proof fn law_render_fills_each_placeholder(
    a: Seq<char>,
    k: Seq<char>,
    b: Seq<char>,
    table: Seq<(Seq<char>, Seq<char>)>,
)
    requires
        no_open_brace(a),
        forall|i: int| 0 <= i < k.len() ==> k[i] != '{' && k[i] != '}',
    ensures
        spec_render(a + "{{"@ + k + "}}"@ + b, table) == a + (match lookup(table, trim(k)) {
            Some(v) => v,
            None => "{{"@ + k + "}}"@,
        }) + spec_render(b, table),
{
    reveal_strlit("{{");
    reveal_strlit("}}");
    let open = "{{"@;
    let close = "}}"@;
    let t = a + open + k + close + b;
    let n = a.len() as int;
    assert(t.subrange(n, n + 2) =~= open);
    assert forall|j: int| 0 <= j < n implies !occurs_at(t, open, j) by {
        if occurs_at(t, open, j) {
            assert(t.subrange(j, j + 2)[0] == t[j]);
            assert(t[j] == a[j]);
        }
    }
    lemma_find_first(t, open, 0, n);
    let after = t.subrange(n, t.len() as int);
    assert(after =~= open + k + close + b);
    let m = k.len() as int + 2;
    assert(after.subrange(m, m + 2) =~= close);
    assert forall|j: int| 0 <= j < m implies !occurs_at(after, close, j) by {
        if occurs_at(after, close, j) {
            assert(after.subrange(j, j + 2)[0] == after[j]);
            if j >= 2 {
                assert(after[j] == k[j - 2]);
            }
        }
    }
    lemma_find_first(after, close, 0, m);
    let ph = after.subrange(0, m + 2);
    assert(ph =~= open + k + close);
    let kc = k + close;
    assert(ph.subrange(0, 2) =~= open);
    assert(ph.subrange(2, ph.len() as int) =~= kc);
    assert(kc.subrange(0, 2) != open) by {
        if k.len() == 0 {
            assert(kc.subrange(0, 2)[0] == '}');
        } else {
            assert(kc.subrange(0, 2)[0] == k[0]);
        }
    }
    assert(strip_leading(kc, open) == kc);
    assert(strip_leading(ph, open) == kc);
    assert(kc.subrange(kc.len() - 2, kc.len() as int) =~= close);
    assert(kc.subrange(0, kc.len() - 2) =~= k);
    if k.len() >= 2 {
        assert(k.subrange(k.len() - 2, k.len() as int) != close) by {
            assert(k.subrange(k.len() - 2, k.len() as int)[1] == k[k.len() - 1]);
        }
    }
    assert(strip_trailing(k, close) == k);
    assert(strip_trailing(kc, close) == k);
    assert(after.subrange(m + 2, after.len() as int) =~= b);
    assert(t.subrange(0, n) =~= a);
}

} // verus!
