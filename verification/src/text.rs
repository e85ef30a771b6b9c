//! Character-level text utilities with their mathematical meaning.
use vstd::prelude::*;

verus! {

// ---------------------------------------------------------------------------
// Character classes
// ---------------------------------------------------------------------------

/// Unicode `White_Space` property (the definition `char::is_whitespace` uses).
pub open spec fn is_ws(c: char) -> bool {
    ||| ('\u{9}' <= c && c <= '\u{d}')
    ||| c == ' '
    ||| c == '\u{85}'
    ||| c == '\u{a0}'
    ||| c == '\u{1680}'
    ||| ('\u{2000}' <= c && c <= '\u{200a}')
    ||| c == '\u{2028}'
    ||| c == '\u{2029}'
    ||| c == '\u{202f}'
    ||| c == '\u{205f}'
    ||| c == '\u{3000}'
}

/// Unicode general category `Cc` (the definition `char::is_control` uses).
pub open spec fn is_cc(c: char) -> bool {
    ||| c <= '\u{1f}'
    ||| ('\u{7f}' <= c && c <= '\u{9f}')
}

/// ASCII letters `A-Z` and `a-z`.
pub open spec fn is_alpha(c: char) -> bool {
    ||| ('A' <= c && c <= 'Z')
    ||| ('a' <= c && c <= 'z')
}

pub fn is_whitespace_char(c: char) -> (b: bool)
    ensures
        b == is_ws(c),
{
    ('\u{9}' <= c && c <= '\u{d}') || c == ' ' || c == '\u{85}' || c == '\u{a0}' || c
        == '\u{1680}' || ('\u{2000}' <= c && c <= '\u{200a}') || c == '\u{2028}' || c
        == '\u{2029}' || c == '\u{202f}' || c == '\u{205f}' || c == '\u{3000}'
}

pub fn is_control_char(c: char) -> (b: bool)
    ensures
        b == is_cc(c),
{
    c <= '\u{1f}' || ('\u{7f}' <= c && c <= '\u{9f}')
}

pub fn is_alpha_char(c: char) -> (b: bool)
    ensures
        b == is_alpha(c),
{
    ('A' <= c && c <= 'Z') || ('a' <= c && c <= 'z')
}

// ---------------------------------------------------------------------------
// Building strings
// ---------------------------------------------------------------------------

/// `String::push`: appends one character.
#[verifier::external_body]
pub(crate) fn push_char(s: &mut String, c: char)
    ensures
        final(s)@ == old(s)@.push(c),
{
    s.push(c);
}

/// The characters of `s`, in order.
pub fn chars_of(s: &str) -> (v: Vec<char>)
    ensures
        v@ == s@,
{
    let mut v: Vec<char> = Vec::new();
    for c in it: s.chars()
        invariant
            v@ == it.seq().take(it.index() as int),
            it.seq() == s@,
    {
        v.push(c);
    }
    v
}

/// Appends `v[from..to]` to `s`.
pub fn push_chars(s: &mut String, v: &Vec<char>, from: usize, to: usize)
    requires
        from <= to <= v@.len(),
    ensures
        final(s)@ == old(s)@ + v@.subrange(from as int, to as int),
{
    let mut i = from;
    while i < to
        invariant
            from <= i <= to <= v@.len(),
            s@ == old(s)@ + v@.subrange(from as int, i as int),
        decreases to - i,
    {
        push_char(s, v[i]);
        i += 1;
        assert(v@.subrange(from as int, i as int) =~= v@.subrange(from as int, i - 1).push(
            v@[i - 1],
        ));
    }
}

/// A new string holding `v[from..to]`.
pub fn string_of(v: &Vec<char>, from: usize, to: usize) -> (s: String)
    requires
        from <= to <= v@.len(),
    ensures
        s@ == v@.subrange(from as int, to as int),
{
    let mut s = String::new();
    push_chars(&mut s, v, from, to);
    s
}

/// A copy of `s` as an owned string.
pub fn owned(s: &str) -> (r: String)
    ensures
        r@ == s@,
{
    let mut r = String::new();
    r.append(s);
    r
}

// ---------------------------------------------------------------------------
// Decimal numbers
// ---------------------------------------------------------------------------

pub open spec fn digit_char(d: nat) -> char {
    if d == 0 {
        '0'
    } else if d == 1 {
        '1'
    } else if d == 2 {
        '2'
    } else if d == 3 {
        '3'
    } else if d == 4 {
        '4'
    } else if d == 5 {
        '5'
    } else if d == 6 {
        '6'
    } else if d == 7 {
        '7'
    } else if d == 8 {
        '8'
    } else {
        '9'
    }
}

/// The decimal notation of `n`, without leading zeros.
pub open spec fn decimal(n: nat) -> Seq<char>
    decreases n,
{
    if n < 10 {
        seq![digit_char(n)]
    } else {
        decimal(n / 10).push(digit_char(n % 10))
    }
}

fn digit_of(d: usize) -> (c: char)
    requires
        d < 10,
    ensures
        c == digit_char(d as nat),
{
    if d == 0 {
        '0'
    } else if d == 1 {
        '1'
    } else if d == 2 {
        '2'
    } else if d == 3 {
        '3'
    } else if d == 4 {
        '4'
    } else if d == 5 {
        '5'
    } else if d == 6 {
        '6'
    } else if d == 7 {
        '7'
    } else if d == 8 {
        '8'
    } else {
        '9'
    }
}

/// Appends the decimal notation of `n`.
pub fn push_decimal(s: &mut String, n: usize)
    ensures
        final(s)@ == old(s)@ + decimal(n as nat),
    decreases n,
{
    if n < 10 {
        push_char(s, digit_of(n));
        assert(decimal(n as nat) == seq![digit_char(n as nat)]);
    } else {
        push_decimal(s, n / 10);
        push_char(s, digit_of(n % 10));
        assert(s@ =~= old(s)@ + decimal(n as nat));
    }
}

// ---------------------------------------------------------------------------
// Prefixes, occurrences and replacement
// ---------------------------------------------------------------------------

pub open spec fn starts_with(s: Seq<char>, p: Seq<char>) -> bool {
    p.len() <= s.len() && s.take(p.len() as int) == p
}

/// `p` occurs somewhere in `s`.
pub open spec fn contains_seq(s: Seq<char>, p: Seq<char>) -> bool {
    exists|i: int| 0 <= i && i + p.len() <= s.len() && #[trigger] s.subrange(i, i + p.len()) == p
}

/// `p` occurs in `v` at position `i`.
pub fn matches_at(v: &Vec<char>, p: &Vec<char>, i: usize) -> (b: bool)
    requires
        i <= v@.len(),
    ensures
        b == (i + p@.len() <= v@.len() && v@.subrange(i as int, i + p@.len()) == p@),
{
    if p.len() > v.len() - i {
        return false;
    }
    let vl = v.len();
    let mut j: usize = 0;
    while j < p.len()
        invariant
            vl == v@.len(),
            i + p@.len() <= v@.len(),
            j <= p@.len(),
            forall|k: int| 0 <= k < j ==> v@[i + k] == p@[k],
        decreases p@.len() - j,
    {
        assert(i + j < v@.len());
        if v[i + j] != p[j] {
            assert(v@.subrange(i as int, i + p@.len())[j as int] != p@[j as int]);
            return false;
        }
        j += 1;
    }
    assert(v@.subrange(i as int, i + p@.len()) =~= p@);
    true
}

/// `a == b` on string slices.
pub fn str_eq(a: &str, b: &str) -> (r: bool)
    ensures
        r == (a@ == b@),
{
    let av = chars_of(a);
    let bv = chars_of(b);
    if av.len() != bv.len() {
        return false;
    }
    let m = matches_at(&av, &bv, 0);
    proof {
        assert(av@.subrange(0, bv@.len() as int) =~= av@);
    }
    m
}

/// `s.starts_with(p)`.
pub fn str_starts_with(s: &str, p: &str) -> (b: bool)
    ensures
        b == starts_with(s@, p@),
{
    let sv = chars_of(s);
    let pv = chars_of(p);
    let r = matches_at(&sv, &pv, 0);
    proof {
        assert(sv@.take(pv@.len() as int) == sv@.subrange(0, pv@.len() as int));
    }
    r
}

/// `s.contains(p)`.
pub fn str_contains(s: &str, p: &str) -> (b: bool)
    ensures
        b == contains_seq(s@, p@),
{
    let sv = chars_of(s);
    let pv = chars_of(p);
    let n = sv.len();
    let mut i: usize = 0;
    while i < n
        invariant
            sv@ == s@,
            pv@ == p@,
            n == sv@.len(),
            i <= n,
            forall|k: int|
                0 <= k < i && k + p@.len() <= s@.len() ==> #[trigger] s@.subrange(k, k + p@.len())
                    != p@,
        decreases n - i,
    {
        if matches_at(&sv, &pv, i) {
            return true;
        }
        i += 1;
    }
    matches_at(&sv, &pv, n)
}

/// Replaces every non-overlapping occurrence of `pat`, scanning from the left
/// (the meaning of `str::replace` for a non-empty pattern).
pub open spec fn replace_all(s: Seq<char>, pat: Seq<char>, rep: Seq<char>) -> Seq<char>
    decreases s.len(),
{
    if pat.len() == 0 || s.len() == 0 {
        s
    } else if starts_with(s, pat) {
        rep + replace_all(s.skip(pat.len() as int), pat, rep)
    } else {
        seq![s[0]] + replace_all(s.skip(1), pat, rep)
    }
}

/// `s.replace(pat, rep)` for a non-empty `pat`.
pub fn replace_str(s: &str, pat: &str, rep: &str) -> (r: String)
    requires
        pat@.len() > 0,
    ensures
        r@ == replace_all(s@, pat@, rep@),
{
    let sv = chars_of(s);
    let pv = chars_of(pat);
    let n = sv.len();
    let m = pv.len();
    let mut out = String::new();
    let mut i: usize = 0;
    proof {
        assert(sv@.skip(0) =~= sv@);
    }
    while i < n
        invariant
            sv@ == s@,
            pv@ == pat@,
            n == sv@.len(),
            m == pv@.len(),
            m > 0,
            i <= n,
            out@ + replace_all(sv@.skip(i as int), pv@, rep@) == replace_all(s@, pat@, rep@),
        decreases n - i,
    {
        let ghost rest = sv@.skip(i as int);
        if matches_at(&sv, &pv, i) {
            proof {
                assert(rest.take(m as int) =~= sv@.subrange(i as int, i + m));
                assert(starts_with(rest, pv@));
                assert(rest.skip(m as int) =~= sv@.skip(i + m));
            }
            out.append(rep);
            i += m;
            proof {
                assert(out@ + replace_all(sv@.skip(i as int), pv@, rep@) =~= replace_all(
                    s@,
                    pat@,
                    rep@,
                ));
            }
        } else {
            proof {
                if starts_with(rest, pv@) {
                    assert(rest.take(m as int) =~= sv@.subrange(i as int, i + m));
                }
                assert(rest.skip(1) =~= sv@.skip(i + 1));
                assert(rest[0] == sv@[i as int]);
            }
            push_char(&mut out, sv[i]);
            i += 1;
            proof {
                assert(out@ + replace_all(sv@.skip(i as int), pv@, rep@) =~= replace_all(
                    s@,
                    pat@,
                    rep@,
                ));
            }
        }
    }
    proof {
        assert(sv@.skip(i as int).len() == 0);
        assert(out@ =~= out@ + replace_all(sv@.skip(i as int), pv@, rep@));
    }
    out
}

/// Replacing a pattern that does not occur leaves the text unchanged.
pub proof fn lemma_replace_absent(s: Seq<char>, pat: Seq<char>, rep: Seq<char>)
    requires
        pat.len() > 0,
        !contains_seq(s, pat),
    ensures
        replace_all(s, pat, rep) == s,
    decreases s.len(),
{
    if s.len() > 0 {
        if starts_with(s, pat) {
            assert(s.subrange(0, 0int + pat.len()) == s.take(pat.len() as int));
            assert(contains_seq(s, pat));
        }
        assert forall|i: int|
            0 <= i && i + pat.len() <= s.skip(1).len() implies #[trigger] s.skip(1).subrange(
            i,
            i + pat.len(),
        ) != pat by {
            assert(s.skip(1).subrange(i, i + pat.len()) =~= s.subrange(i + 1, i + 1 + pat.len()));
        }
        lemma_replace_absent(s.skip(1), pat, rep);
        assert(seq![s[0]] + s.skip(1) =~= s);
    }
}

// ---------------------------------------------------------------------------
// Splitting and joining
// ---------------------------------------------------------------------------

/// The pieces of `s` between occurrences of `sep` (the meaning of
/// `str::split` with a character): there is always one more piece than there
/// are separators, and pieces may be empty.
pub open spec fn split_char(s: Seq<char>, sep: char) -> Seq<Seq<char>>
    decreases s.len(),
{
    if s.len() == 0 {
        seq![Seq::<char>::empty()]
    } else {
        let pre = split_char(s.drop_last(), sep);
        if s.last() == sep {
            pre.push(Seq::<char>::empty())
        } else {
            pre.update(pre.len() - 1, pre.last().push(s.last()))
        }
    }
}

/// The pieces joined back with `sep` between them.
pub open spec fn join_with(parts: Seq<Seq<char>>, sep: Seq<char>) -> Seq<char>
    decreases parts.len(),
{
    if parts.len() == 0 {
        Seq::<char>::empty()
    } else if parts.len() == 1 {
        parts[0]
    } else {
        join_with(parts.drop_last(), sep) + sep + parts.last()
    }
}

pub proof fn lemma_split_len(s: Seq<char>, sep: char)
    ensures
        split_char(s, sep).len() >= 1,
    decreases s.len(),
{
    if s.len() > 0 {
        lemma_split_len(s.drop_last(), sep);
    }
}

/// Splitting and joining again gives back the text, and no piece holds the
/// separator.
pub proof fn lemma_split_join(s: Seq<char>, sep: char)
    ensures
        join_with(split_char(s, sep), seq![sep]) == s,
        forall|k: int|
            0 <= k < split_char(s, sep).len() ==> !(#[trigger] split_char(s, sep)[k]).contains(sep),
    decreases s.len(),
{
    lemma_split_len(s, sep);
    if s.len() == 0 {
        assert(!Seq::<char>::empty().contains(sep));
    } else {
        let pre = split_char(s.drop_last(), sep);
        lemma_split_join(s.drop_last(), sep);
        lemma_split_len(s.drop_last(), sep);
        if s.last() == sep {
            assert(!Seq::<char>::empty().contains(sep));
            assert(split_char(s, sep).drop_last() =~= pre);
            assert(s =~= s.drop_last() + seq![sep] + Seq::<char>::empty());
        } else {
            let parts = split_char(s, sep);
            let last = pre.last().push(s.last());
            assert(!last.contains(sep)) by {
                if last.contains(sep) {
                    let k = choose|k: int| 0 <= k < last.len() && last[k] == sep;
                    assert(pre.last()[k] == sep);
                    assert(pre[pre.len() - 1].contains(sep));
                }
            }
            if pre.len() == 1 {
                assert(parts =~= seq![last]);
                assert(s =~= s.drop_last().push(s.last()));
            } else {
                assert(parts.drop_last() =~= pre.drop_last());
                assert(join_with(pre, seq![sep]) == join_with(pre.drop_last(), seq![sep]) + seq![
                    sep,
                ] + pre.last());
                assert(s =~= s.drop_last().push(s.last()));
                assert(join_with(parts, seq![sep]) =~= s);
            }
        }
    }
}

/// `s.split(sep)`, each piece as an owned string.
pub fn split_str(s: &str, sep: char) -> (parts: Vec<String>)
    ensures
        parts@.len() == split_char(s@, sep).len(),
        forall|k: int| 0 <= k < parts@.len() ==> #[trigger] parts@[k]@ == split_char(s@, sep)[k],
{
    let v = chars_of(s);
    let mut parts: Vec<String> = Vec::new();
    let mut start: usize = 0;
    let mut i: usize = 0;
    proof {
        assert(v@.take(0) =~= Seq::<char>::empty());
    }
    while i < v.len()
        invariant
            v@ == s@,
            start <= i <= v@.len(),
            parts@.len() + 1 == split_char(v@.take(i as int), sep).len(),
            forall|k: int|
                0 <= k < parts@.len() ==> #[trigger] parts@[k]@ == split_char(
                    v@.take(i as int),
                    sep,
                )[k],
            split_char(v@.take(i as int), sep).last() == v@.subrange(start as int, i as int),
        decreases v@.len() - i,
    {
        let ghost pre = split_char(v@.take(i as int), sep);
        proof {
            assert(v@.take(i + 1).drop_last() =~= v@.take(i as int));
            assert(v@.take(i + 1).last() == v@[i as int]);
        }
        if v[i] == sep {
            let piece = string_of(&v, start, i);
            parts.push(piece);
            i += 1;
            start = i;
            proof {
                assert(v@.subrange(start as int, i as int) =~= Seq::<char>::empty());
            }
        } else {
            i += 1;
            proof {
                assert(v@.subrange(start as int, i as int) =~= v@.subrange(
                    start as int,
                    i - 1,
                ).push(v@[i - 1]));
            }
        }
    }
    let last = string_of(&v, start, i);
    parts.push(last);
    proof {
        assert(v@.take(i as int) =~= v@);
    }
    parts
}

/// Joins `parts` with `sep` between consecutive pieces (`[String]::join`).
pub fn join_strings(parts: &Vec<String>, sep: &str) -> (r: String)
    ensures
        r@ == join_with(parts@.map_values(|p: String| p@), sep@),
{
    let ghost views = parts@.map_values(|p: String| p@);
    let mut r = String::new();
    let mut i: usize = 0;
    while i < parts.len()
        invariant
            i <= parts@.len(),
            views == parts@.map_values(|p: String| p@),
            r@ == join_with(views.take(i as int), sep@),
        decreases parts@.len() - i,
    {
        if i > 0 {
            r.append(sep);
        }
        r.append(parts[i].as_str());
        proof {
            assert(views.take(i + 1).drop_last() =~= views.take(i as int));
            if i == 0 {
                assert(views.take(1) =~= seq![views[0]]);
            }
        }
        i += 1;
    }
    proof {
        assert(views.take(i as int) =~= views);
    }
    r
}

// ---------------------------------------------------------------------------
// Trimming
// ---------------------------------------------------------------------------

/// `s` without leading characters of class `ws`, as `trim_start` does for
/// whitespace.
pub open spec fn trim_ws_start(s: Seq<char>) -> Seq<char>
    decreases s.len(),
{
    if s.len() > 0 && is_ws(s[0]) {
        trim_ws_start(s.drop_first())
    } else {
        s
    }
}

pub open spec fn trim_ws_end(s: Seq<char>) -> Seq<char>
    decreases s.len(),
{
    if s.len() > 0 && is_ws(s.last()) {
        trim_ws_end(s.drop_last())
    } else {
        s
    }
}

/// `str::trim`: whitespace removed at both ends.
pub open spec fn trim_ws(s: Seq<char>) -> Seq<char> {
    trim_ws_end(trim_ws_start(s))
}

/// `s` without leading copies of `c` (`trim_start_matches` with a character).
pub open spec fn trim_start_char(s: Seq<char>, c: char) -> Seq<char>
    decreases s.len(),
{
    if s.len() > 0 && s[0] == c {
        trim_start_char(s.drop_first(), c)
    } else {
        s
    }
}

/// `s` without trailing copies of `c` (`trim_end_matches` with a character).
pub open spec fn trim_end_char(s: Seq<char>, c: char) -> Seq<char>
    decreases s.len(),
{
    if s.len() > 0 && s.last() == c {
        trim_end_char(s.drop_last(), c)
    } else {
        s
    }
}

proof fn lemma_trim_ws_start_skip(s: Seq<char>, i: int)
    requires
        0 <= i <= s.len(),
        forall|k: int| 0 <= k < i ==> is_ws(#[trigger] s[k]),
    ensures
        trim_ws_start(s) == trim_ws_start(s.skip(i)),
    decreases i,
{
    if i > 0 {
        assert(s.drop_first().skip(i - 1) =~= s.skip(i));
        assert forall|k: int| 0 <= k < i - 1 implies is_ws(#[trigger] s.drop_first()[k]) by {
            assert(s.drop_first()[k] == s[k + 1]);
        }
        lemma_trim_ws_start_skip(s.drop_first(), i - 1);
    } else {
        assert(s.skip(0) =~= s);
    }
}

proof fn lemma_trim_ws_end_take(s: Seq<char>, j: int)
    requires
        0 <= j <= s.len(),
        forall|k: int| j <= k < s.len() ==> is_ws(#[trigger] s[k]),
    ensures
        trim_ws_end(s) == trim_ws_end(s.take(j)),
    decreases s.len() - j,
{
    if j < s.len() {
        assert(s.drop_last().take(j) =~= s.take(j));
        lemma_trim_ws_end_take(s.drop_last(), j);
    } else {
        assert(s.take(j) =~= s);
    }
}

proof fn lemma_trim_start_char_skip(s: Seq<char>, c: char, i: int)
    requires
        0 <= i <= s.len(),
        forall|k: int| 0 <= k < i ==> #[trigger] s[k] == c,
    ensures
        trim_start_char(s, c) == trim_start_char(s.skip(i), c),
    decreases i,
{
    if i > 0 {
        assert(s.drop_first().skip(i - 1) =~= s.skip(i));
        assert forall|k: int| 0 <= k < i - 1 implies #[trigger] s.drop_first()[k] == c by {
            assert(s.drop_first()[k] == s[k + 1]);
        }
        lemma_trim_start_char_skip(s.drop_first(), c, i - 1);
    } else {
        assert(s.skip(0) =~= s);
    }
}

proof fn lemma_trim_end_char_take(s: Seq<char>, c: char, j: int)
    requires
        0 <= j <= s.len(),
        forall|k: int| j <= k < s.len() ==> #[trigger] s[k] == c,
    ensures
        trim_end_char(s, c) == trim_end_char(s.take(j), c),
    decreases s.len() - j,
{
    if j < s.len() {
        assert(s.drop_last().take(j) =~= s.take(j));
        lemma_trim_end_char_take(s.drop_last(), c, j);
    } else {
        assert(s.take(j) =~= s);
    }
}

/// `s.trim()`.
pub fn trim_str(s: &str) -> (r: String)
    ensures
        r@ == trim_ws(s@),
{
    let v = chars_of(s);
    let mut i: usize = 0;
    while i < v.len() && is_whitespace_char(v[i])
        invariant
            v@ == s@,
            i <= v@.len(),
            forall|k: int| 0 <= k < i ==> is_ws(#[trigger] v@[k]),
        decreases v@.len() - i,
    {
        i += 1;
    }
    let ghost t = v@.skip(i as int);
    proof {
        lemma_trim_ws_start_skip(v@, i as int);
        if t.len() > 0 {
            assert(t[0] == v@[i as int]);
        }
    }
    let mut j: usize = v.len();
    while j > i && is_whitespace_char(v[j - 1])
        invariant
            v@ == s@,
            i <= j <= v@.len(),
            t == v@.skip(i as int),
            forall|k: int| j <= k < v@.len() ==> is_ws(#[trigger] v@[k]),
        decreases j,
    {
        j -= 1;
    }
    proof {
        assert forall|k: int| j - i <= k < t.len() implies is_ws(#[trigger] t[k]) by {
            assert(t[k] == v@[k + i]);
        }
        lemma_trim_ws_end_take(t, j - i);
        let u = t.take(j - i);
        assert(u =~= v@.subrange(i as int, j as int));
        if u.len() > 0 {
            assert(u.last() == v@[j - 1]);
        }
    }
    string_of(&v, i, j)
}

/// `s.trim_start_matches(c)`.
pub fn trim_start_matches_char(s: &str, c: char) -> (r: String)
    ensures
        r@ == trim_start_char(s@, c),
{
    let v = chars_of(s);
    let mut i: usize = 0;
    while i < v.len() && v[i] == c
        invariant
            v@ == s@,
            i <= v@.len(),
            forall|k: int| 0 <= k < i ==> #[trigger] v@[k] == c,
        decreases v@.len() - i,
    {
        i += 1;
    }
    proof {
        lemma_trim_start_char_skip(v@, c, i as int);
        assert(v@.skip(i as int) =~= v@.subrange(i as int, v@.len() as int));
        if i < v@.len() {
            assert(v@.skip(i as int)[0] == v@[i as int]);
        }
    }
    string_of(&v, i, v.len())
}

/// `s.trim_end_matches(c)`.
pub fn trim_end_matches_char(s: &str, c: char) -> (r: String)
    ensures
        r@ == trim_end_char(s@, c),
{
    let v = chars_of(s);
    let mut j: usize = v.len();
    while j > 0 && v[j - 1] == c
        invariant
            v@ == s@,
            j <= v@.len(),
            forall|k: int| j <= k < v@.len() ==> #[trigger] v@[k] == c,
        decreases j,
    {
        j -= 1;
    }
    proof {
        lemma_trim_end_char_take(v@, c, j as int);
        assert(v@.take(j as int) =~= v@.subrange(0, j as int));
    }
    string_of(&v, 0, j)
}

} // verus!
