//! Splitting a line of terminal output into styled runs, following the
//! SGR ("select graphic rendition") escape sequences it holds.
use vstd::prelude::*;
use crate::text::{chars_of, is_alpha, is_alpha_char, is_cc, is_control_char, push_char, split_char, split_str, string_of};

verus! {

/// A colour as red, green and blue channels.
#[derive(Clone, Copy, Debug, PartialEq, Eq, Structural)]
pub struct Rgb(pub u8, pub u8, pub u8);

/// A piece of text drawn in one colour and weight.
pub struct StyledRun {
    pub text: String,
    pub color: Rgb,
    pub bold: bool,
}

/// The mathematical value of a [`StyledRun`].
pub struct RunView {
    pub text: Seq<char>,
    pub color: Rgb,
    pub bold: bool,
}

impl View for StyledRun {
    type V = RunView;

    open spec fn view(&self) -> RunView {
        RunView { text: self.text@, color: self.color, bold: self.bold }
    }
}

pub open spec fn runs_view(runs: Seq<StyledRun>) -> Seq<RunView> {
    runs.map_values(|r: StyledRun| r@)
}

/// The eight-colour terminal palette, in a normal and a bright variant;
/// indices past 7 give the default light grey.
pub open spec fn palette_color(idx: u8, bright: bool) -> Rgb {
    if idx == 0 {
        if bright { Rgb(0x55, 0x57, 0x53) } else { Rgb(0x2e, 0x34, 0x36) }
    } else if idx == 1 {
        if bright { Rgb(0xef, 0x29, 0x29) } else { Rgb(0xcc, 0x00, 0x00) }
    } else if idx == 2 {
        if bright { Rgb(0x8a, 0xe2, 0x34) } else { Rgb(0x4e, 0x9a, 0x06) }
    } else if idx == 3 {
        if bright { Rgb(0xfc, 0xe9, 0x4f) } else { Rgb(0xc4, 0xa0, 0x00) }
    } else if idx == 4 {
        if bright { Rgb(0x72, 0x9f, 0xcf) } else { Rgb(0x34, 0x65, 0xa4) }
    } else if idx == 5 {
        if bright { Rgb(0xad, 0x7f, 0xa8) } else { Rgb(0x75, 0x50, 0x7b) }
    } else if idx == 6 {
        if bright { Rgb(0x34, 0xe2, 0xe2) } else { Rgb(0x06, 0x98, 0x9a) }
    } else if idx == 7 {
        if bright { Rgb(0xee, 0xee, 0xec) } else { Rgb(0xd3, 0xd7, 0xcf) }
    } else {
        Rgb(0xd3, 0xd7, 0xcf)
    }
}

pub fn palette(idx: u8, bright: bool) -> (c: Rgb)
    ensures
        c == palette_color(idx, bright),
{
    match (idx, bright) {
        (0, false) => Rgb(0x2e, 0x34, 0x36),
        (0, true) => Rgb(0x55, 0x57, 0x53),
        (1, false) => Rgb(0xcc, 0x00, 0x00),
        (1, true) => Rgb(0xef, 0x29, 0x29),
        (2, false) => Rgb(0x4e, 0x9a, 0x06),
        (2, true) => Rgb(0x8a, 0xe2, 0x34),
        (3, false) => Rgb(0xc4, 0xa0, 0x00),
        (3, true) => Rgb(0xfc, 0xe9, 0x4f),
        (4, false) => Rgb(0x34, 0x65, 0xa4),
        (4, true) => Rgb(0x72, 0x9f, 0xcf),
        (5, false) => Rgb(0x75, 0x50, 0x7b),
        (5, true) => Rgb(0xad, 0x7f, 0xa8),
        (6, false) => Rgb(0x06, 0x98, 0x9a),
        (6, true) => Rgb(0x34, 0xe2, 0xe2),
        (7, false) => Rgb(0xd3, 0xd7, 0xcf),
        (7, true) => Rgb(0xee, 0xee, 0xec),
        _ => Rgb(0xd3, 0xd7, 0xcf),
    }
}

// ---------------------------------------------------------------------------
// Integers in SGR parameters
// ---------------------------------------------------------------------------

pub open spec fn is_digit(c: char) -> bool {
    '0' <= c && c <= '9'
}

pub open spec fn digit_value(c: char) -> int {
    (c as u32) as int - ('0' as u32) as int
}

/// The value of a string of decimal digits.
pub open spec fn digits_value(s: Seq<char>) -> int
    decreases s.len(),
{
    if s.len() == 0 {
        0
    } else {
        digits_value(s.drop_last()) * 10 + digit_value(s.last())
    }
}

pub open spec fn all_digits(s: Seq<char>) -> bool {
    forall|k: int| 0 <= k < s.len() ==> is_digit(#[trigger] s[k])
}

/// What `str::parse::<i32>` accepts: an optional `+` or `-`, then one or more
/// ASCII digits, with a value inside the range of `i32`.
pub open spec fn parse_int(s: Seq<char>) -> Option<int> {
    let neg = s.len() > 0 && s[0] == '-';
    let body = if s.len() > 0 && (s[0] == '-' || s[0] == '+') {
        s.drop_first()
    } else {
        s
    };
    if body.len() == 0 || !all_digits(body) {
        None
    } else {
        let v = if neg {
            -digits_value(body)
        } else {
            digits_value(body)
        };
        if i32::MIN <= v <= i32::MAX {
            Some(v)
        } else {
            None
        }
    }
}

proof fn lemma_digits_value_nonneg(s: Seq<char>)
    requires
        forall|k: int| 0 <= k < s.len() ==> is_digit(#[trigger] s[k]),
    ensures
        digits_value(s) >= 0,
    decreases s.len(),
{
    if s.len() > 0 {
        assert forall|k: int| 0 <= k < s.drop_last().len() implies is_digit(
            #[trigger] s.drop_last()[k],
        ) by {
            assert(s.drop_last()[k] == s[k]);
        }
        lemma_digits_value_nonneg(s.drop_last());
        assert(is_digit(s[s.len() - 1]));
    }
}

/// `s.parse::<i32>().ok()`.
pub fn parse_i32(s: &str) -> (r: Option<i32>)
    ensures
        match r {
            Some(v) => parse_int(s@) == Some(v as int),
            None => parse_int(s@) is None,
        },
{
    let v = chars_of(s);
    let n = v.len();
    let mut start: usize = 0;
    let mut neg = false;
    if n > 0 && (v[0] == '-' || v[0] == '+') {
        neg = v[0] == '-';
        start = 1;
    }
    let ghost body = v@.subrange(start as int, n as int);
    proof {
        if n > 0 && (v@[0] == '-' || v@[0] == '+') {
            assert(body =~= v@.drop_first());
        } else {
            assert(body =~= v@);
        }
    }
    if start == n {
        return None;
    }
    // The magnitude, held at `cap` once it is certain to be out of range.
    let cap: i64 = 2147483649;
    let mut acc: i64 = 0;
    let mut i = start;
    while i < n
        invariant
            v@ == s@,
            n == v@.len(),
            start <= i <= n,
            body == v@.subrange(start as int, n as int),
            body == (if v@.len() > 0 && (v@[0] == '-' || v@[0] == '+') {
                v@.drop_first()
            } else {
                v@
            }),
            forall|k: int| start <= k < i ==> is_digit(#[trigger] v@[k]),
            0 <= acc <= cap,
            cap == 2147483649,
            acc == (if digits_value(v@.subrange(start as int, i as int)) < cap {
                digits_value(v@.subrange(start as int, i as int))
            } else {
                cap as int
            }),
        decreases n - i,
    {
        let c = v[i];
        if !('0' <= c && c <= '9') {
            proof {
                assert(!is_digit(body[i - start]));
                assert(!all_digits(body));
            }
            return None;
        }
        let d: i64 = (c as u32 - '0' as u32) as i64;
        proof {
            let pre = v@.subrange(start as int, i as int);
            let nxt = v@.subrange(start as int, i + 1);
            assert(nxt.drop_last() =~= pre);
            assert(nxt.last() == c);
            assert forall|k: int| 0 <= k < pre.len() implies is_digit(#[trigger] pre[k]) by {
                assert(pre[k] == v@[start + k]);
            }
            lemma_digits_value_nonneg(pre);
        }
        if acc >= cap {
            acc = cap;
        } else {
            let t = acc * 10 + d;
            acc = if t >= cap {
                cap
            } else {
                t
            };
        }
        i += 1;
    }
    proof {
        assert(v@.subrange(start as int, i as int) =~= body);
        assert forall|k: int| 0 <= k < body.len() implies is_digit(#[trigger] body[k]) by {
            assert(body[k] == v@[start + k]);
        }
        lemma_digits_value_nonneg(body);
    }
    if neg {
        if acc > 2147483648 {
            None
        } else {
            Some((-acc) as i32)
        }
    } else {
        if acc > 2147483647 {
            None
        } else {
            Some(acc as i32)
        }
    }
}

// ---------------------------------------------------------------------------
// SGR codes
// ---------------------------------------------------------------------------

/// The colour and weight after one SGR code: 0 resets, 1 and 22 set and
/// clear bold, 30-37 pick a palette colour (bright when bold), 90-97 a bright
/// palette colour, 39 the default colour; other codes change nothing.
pub open spec fn apply_code(fg: Rgb, bold: bool, code: int, default_fg: Rgb) -> (Rgb, bool) {
    if code == 0 {
        (default_fg, false)
    } else if code == 1 {
        (fg, true)
    } else if code == 22 {
        (fg, false)
    } else if 30 <= code <= 37 {
        (palette_color((code - 30) as u8, bold), bold)
    } else if 90 <= code <= 97 {
        (palette_color((code - 90) as u8, true), bold)
    } else if code == 39 {
        (default_fg, bold)
    } else {
        (fg, bold)
    }
}

/// The colour and weight after the `;`-separated parameters `parts`, each
/// applied in turn; parameters that are not integers are skipped.
pub open spec fn apply_params(fg: Rgb, bold: bool, parts: Seq<Seq<char>>, default_fg: Rgb) -> (
    Rgb,
    bool,
)
    decreases parts.len(),
{
    if parts.len() == 0 {
        (fg, bold)
    } else {
        let (f, b) = apply_params(fg, bold, parts.drop_last(), default_fg);
        match parse_int(parts.last()) {
            Some(code) => apply_code(f, b, code, default_fg),
            None => (f, b),
        }
    }
}

/// The colour and weight after an SGR sequence with parameter text `params`;
/// an empty parameter list means a reset.
pub open spec fn apply_sgr(fg: Rgb, bold: bool, params: Seq<char>, default_fg: Rgb) -> (
    Rgb,
    bool,
) {
    if params.len() == 0 {
        apply_code(fg, bold, 0, default_fg)
    } else {
        apply_params(fg, bold, split_char(params, ';'), default_fg)
    }
}

fn exec_apply_code(fg: Rgb, bold: bool, code: i32, default_fg: Rgb) -> (r: (Rgb, bool))
    ensures
        r == apply_code(fg, bold, code as int, default_fg),
{
    if code == 0 {
        (default_fg, false)
    } else if code == 1 {
        (fg, true)
    } else if code == 22 {
        (fg, false)
    } else if 30 <= code && code <= 37 {
        (palette((code - 30) as u8, bold), bold)
    } else if 90 <= code && code <= 97 {
        (palette((code - 90) as u8, true), bold)
    } else if code == 39 {
        (default_fg, bold)
    } else {
        (fg, bold)
    }
}

fn exec_apply_sgr(fg: Rgb, bold: bool, params: &str, default_fg: Rgb) -> (r: (Rgb, bool))
    ensures
        r == apply_sgr(fg, bold, params@, default_fg),
{
    if params.is_empty() {
        return exec_apply_code(fg, bold, 0, default_fg);
    }
    let parts = split_str(params, ';');
    let ghost sp = split_char(params@, ';');
    let mut f = fg;
    let mut b = bold;
    let mut i: usize = 0;
    while i < parts.len()
        invariant
            parts@.len() == sp.len(),
            sp == split_char(params@, ';'),
            forall|k: int| 0 <= k < parts@.len() ==> #[trigger] parts@[k]@ == sp[k],
            i <= parts@.len(),
            (f, b) == apply_params(fg, bold, sp.take(i as int), default_fg),
        decreases parts@.len() - i,
    {
        proof {
            assert(sp.take(i + 1).drop_last() =~= sp.take(i as int));
            assert(sp.take(i + 1).last() == parts@[i as int]@);
        }
        match parse_i32(parts[i].as_str()) {
            Some(code) => {
                let r = exec_apply_code(f, b, code, default_fg);
                f = r.0;
                b = r.1;
            },
            None => {},
        }
        i += 1;
    }
    proof {
        assert(sp.take(i as int) =~= sp);
    }
    (f, b)
}

// ---------------------------------------------------------------------------
// Scanning a line
// ---------------------------------------------------------------------------

/// The scanner's state: the finished runs, the text of the run being
/// gathered, and the current colour and weight.
pub struct ScanState {
    pub runs: Seq<RunView>,
    pub cur: Seq<char>,
    pub fg: Rgb,
    pub bold: bool,
}

/// The finished runs, with the gathered text closed as a run if it is not
/// empty.
pub open spec fn flushed(st: ScanState) -> Seq<RunView> {
    if st.cur.len() == 0 {
        st.runs
    } else {
        st.runs.push(RunView { text: st.cur, color: st.fg, bold: st.bold })
    }
}

/// The first position at or after `j` that holds an ASCII letter, or the
/// length of `chars` if there is none.
pub open spec fn first_alpha_from(chars: Seq<char>, j: int) -> int
    decreases chars.len() - j,
{
    if j >= chars.len() {
        chars.len() as int
    } else if is_alpha(chars[j]) {
        j
    } else {
        first_alpha_from(chars, j + 1)
    }
}

pub proof fn lemma_first_alpha_bounds(chars: Seq<char>, j: int)
    requires
        0 <= j,
    ensures
        j <= first_alpha_from(chars, j) || first_alpha_from(chars, j) == chars.len(),
        first_alpha_from(chars, j) <= chars.len() || j > chars.len(),
        first_alpha_from(chars, j) < chars.len() ==> is_alpha(chars[first_alpha_from(chars, j)]),
        forall|k: int| j <= k < first_alpha_from(chars, j) ==> !is_alpha(#[trigger] chars[k]),
    decreases chars.len() - j,
{
    if j < chars.len() && !is_alpha(chars[j]) {
        lemma_first_alpha_bounds(chars, j + 1);
    }
}

/// An escape sequence `ESC [ params letter` starts at `i`.
pub open spec fn csi_at(chars: Seq<char>, i: int) -> bool {
    &&& 0 <= i
    &&& i + 1 < chars.len()
    &&& chars[i] == '\u{1b}'
    &&& chars[i + 1] == '['
    &&& first_alpha_from(chars, i + 2) < chars.len()
}

/// The state after scanning `chars[i..]` from state `st`: an escape sequence
/// ending in `m` closes the current run and updates the style, other escape
/// sequences are dropped, control characters other than ESC are dropped, and
/// every other character is gathered.
pub open spec fn scan_from(chars: Seq<char>, i: int, st: ScanState, default_fg: Rgb) -> ScanState
    decreases chars.len() - i,
{
    if i < 0 || i >= chars.len() {
        st
    } else if csi_at(chars, i) {
        let j = first_alpha_from(chars, i + 2);
        proof {
            lemma_first_alpha_bounds(chars, i + 2);
        }
        if chars[j] == 'm' {
            let (f, b) = apply_sgr(st.fg, st.bold, chars.subrange(i + 2, j), default_fg);
            scan_from(
                chars,
                j + 1,
                ScanState { runs: flushed(st), cur: Seq::empty(), fg: f, bold: b },
                default_fg,
            )
        } else {
            scan_from(chars, j + 1, st, default_fg)
        }
    } else if is_cc(chars[i]) && chars[i] != '\u{1b}' {
        scan_from(chars, i + 1, st, default_fg)
    } else {
        scan_from(chars, i + 1, ScanState { cur: st.cur.push(chars[i]), ..st }, default_fg)
    }
}

pub open spec fn initial_state(default_fg: Rgb) -> ScanState {
    ScanState { runs: Seq::empty(), cur: Seq::empty(), fg: default_fg, bold: false }
}

/// The runs of a line: what remains after scanning it, with the last run
/// closed.
pub open spec fn ansi_runs(line: Seq<char>, default_fg: Rgb) -> Seq<RunView> {
    flushed(scan_from(line, 0, initial_state(default_fg), default_fg))
}

fn flush_run(runs: &mut Vec<StyledRun>, cur: &mut String, fg: Rgb, bold: bool)
    ensures
        runs_view(final(runs)@) == flushed(
            ScanState { runs: runs_view(old(runs)@), cur: old(cur)@, fg, bold },
        ),
        final(cur)@.len() == 0,
{
    if !cur.as_str().is_empty() {
        let mut text = String::new();
        std::mem::swap(&mut text, cur);
        let ghost before = runs@;
        runs.push(StyledRun { text, color: fg, bold });
        proof {
            assert(runs_view(runs@) =~= runs_view(before).push(
                RunView { text: old(cur)@, color: fg, bold },
            ));
        }
    }
}

/// Splits a line into runs of one style each, following its SGR escape
/// sequences and dropping other escape sequences and control characters.
pub fn parse_ansi_line(line: &str, default_fg: Rgb) -> (runs: Vec<StyledRun>)
    ensures
        runs_view(runs@) == ansi_runs(line@, default_fg),
{
    let chars = chars_of(line);
    let n = chars.len();
    let mut runs: Vec<StyledRun> = Vec::new();
    let mut cur = String::new();
    let mut fg = default_fg;
    let mut bold = false;
    let mut i: usize = 0;
    let ghost total = scan_from(line@, 0, initial_state(default_fg), default_fg);
    proof {
        assert(runs_view(runs@) =~= Seq::<RunView>::empty());
    }
    while i < n
        invariant
            chars@ == line@,
            n == chars@.len(),
            i <= n,
            total == scan_from(line@, 0, initial_state(default_fg), default_fg),
            scan_from(
                line@,
                i as int,
                ScanState { runs: runs_view(runs@), cur: cur@, fg, bold },
                default_fg,
            ) == total,
        decreases n - i,
    {
        let ghost st = ScanState { runs: runs_view(runs@), cur: cur@, fg, bold };
        if chars[i] == '\u{1b}' && i + 1 < n && chars[i + 1] == '[' {
            let mut j = i + 2;
            proof {
                lemma_first_alpha_bounds(line@, i + 2);
            }
            while j < n && !is_alpha_char(chars[j])
                invariant
                    chars@ == line@,
                    n == chars@.len(),
                    i + 2 <= j <= n,
                    first_alpha_from(line@, i + 2) == first_alpha_from(line@, j as int),
                decreases n - j,
            {
                j += 1;
            }
            if j < n {
                proof {
                    assert(first_alpha_from(line@, j as int) == j);
                    assert(csi_at(line@, i as int));
                }
                if chars[j] == 'm' {
                    flush_run(&mut runs, &mut cur, fg, bold);
                    let params = string_of(&chars, i + 2, j);
                    let r = exec_apply_sgr(fg, bold, params.as_str(), default_fg);
                    fg = r.0;
                    bold = r.1;
                    proof {
                        assert(cur@ =~= Seq::<char>::empty());
                    }
                }
                i = j + 1;
                continue;
            } else {
                proof {
                    assert(first_alpha_from(line@, j as int) == n);
                    assert(!csi_at(line@, i as int));
                }
            }
        }
        proof {
            if csi_at(line@, i as int) {
                assert(chars@[i as int] == '\u{1b}');
            }
        }
        if is_control_char(chars[i]) && chars[i] != '\u{1b}' {
            i += 1;
            continue;
        }
        push_char(&mut cur, chars[i]);
        i += 1;
    }
    flush_run(&mut runs, &mut cur, fg, bold);
    runs
}

// ---------------------------------------------------------------------------
// Laws
// ---------------------------------------------------------------------------

/// Every run has some text.
pub open spec fn runs_nonempty(runs: Seq<RunView>) -> bool {
    forall|k: int| 0 <= k < runs.len() ==> (#[trigger] runs[k]).text.len() > 0
}

proof fn lemma_scan_keeps_runs_nonempty(chars: Seq<char>, i: int, st: ScanState, d: Rgb)
    requires
        runs_nonempty(st.runs),
    ensures
        runs_nonempty(scan_from(chars, i, st, d).runs),
    decreases chars.len() - i,
{
    if 0 <= i < chars.len() {
        if csi_at(chars, i) {
            let j = first_alpha_from(chars, i + 2);
            lemma_first_alpha_bounds(chars, i + 2);
            if chars[j] == 'm' {
                let (f, b) = apply_sgr(st.fg, st.bold, chars.subrange(i + 2, j), d);
                let st2 = ScanState { runs: flushed(st), cur: Seq::empty(), fg: f, bold: b };
                assert forall|k: int| 0 <= k < st2.runs.len() implies (#[trigger] st2.runs[k]).text.len()
                    > 0 by {
                    if k < st.runs.len() {
                        assert(st2.runs[k] == st.runs[k]);
                    }
                }
                lemma_scan_keeps_runs_nonempty(chars, j + 1, st2, d);
                assert(scan_from(chars, i, st, d) == scan_from(chars, j + 1, st2, d));
            } else {
                lemma_scan_keeps_runs_nonempty(chars, j + 1, st, d);
                assert(scan_from(chars, i, st, d) == scan_from(chars, j + 1, st, d));
            }
        } else if is_cc(chars[i]) && chars[i] != '\u{1b}' {
            lemma_scan_keeps_runs_nonempty(chars, i + 1, st, d);
        } else {
            lemma_scan_keeps_runs_nonempty(
                chars,
                i + 1,
                ScanState { cur: st.cur.push(chars[i]), ..st },
                d,
            );
        }
    }
}

/// No run produced for a line has empty text.
pub proof fn law_runs_nonempty(line: Seq<char>, default_fg: Rgb)
    ensures
        runs_nonempty(ansi_runs(line, default_fg)),
{
    let st = scan_from(line, 0, initial_state(default_fg), default_fg);
    lemma_scan_keeps_runs_nonempty(line, 0, initial_state(default_fg), default_fg);
    assert forall|k: int| 0 <= k < flushed(st).len() implies (#[trigger] flushed(st)[k]).text.len()
        > 0 by {
        if k < st.runs.len() {
            assert(flushed(st)[k] == st.runs[k]);
        }
    }
}

proof fn lemma_scan_plain(chars: Seq<char>, i: int, st: ScanState, d: Rgb)
    requires
        0 <= i <= chars.len(),
        forall|k: int| 0 <= k < chars.len() ==> !is_cc(#[trigger] chars[k]),
    ensures
        scan_from(chars, i, st, d) == (ScanState { cur: st.cur + chars.skip(i), ..st }),
    decreases chars.len() - i,
{
    if i < chars.len() {
        assert(!is_cc(chars[i]));
        assert(chars[i] != '\u{1b}');
        assert(!csi_at(chars, i));
        lemma_scan_plain(chars, i + 1, ScanState { cur: st.cur.push(chars[i]), ..st }, d);
        assert(st.cur.push(chars[i]) + chars.skip(i + 1) =~= st.cur + chars.skip(i));
    } else {
        assert(st.cur + chars.skip(i) =~= st.cur);
    }
}

/// A line without control characters (so without escape sequences) comes
/// back as one run in the default colour, not bold; an empty line gives no
/// runs.
pub proof fn law_plain_line(line: Seq<char>, default_fg: Rgb)
    requires
        forall|k: int| 0 <= k < line.len() ==> !is_cc(#[trigger] line[k]),
    ensures
        line.len() == 0 ==> ansi_runs(line, default_fg).len() == 0,
        line.len() > 0 ==> ansi_runs(line, default_fg) == seq![
            RunView { text: line, color: default_fg, bold: false },
        ],
{
    lemma_scan_plain(line, 0, initial_state(default_fg), default_fg);
    assert(Seq::<char>::empty() + line.skip(0) =~= line);
}

} // verus!
verus! {

proof fn lemma_split_digits(d1: char, d2: char)
    requires
        d1 != ';',
        d2 != ';',
    ensures
        split_char(seq![d1], ';') == seq![seq![d1]],
        split_char(seq![d1, d2], ';') == seq![seq![d1, d2]],
{
    assert(seq![d1].drop_last() =~= Seq::<char>::empty());
    assert(split_char(Seq::<char>::empty(), ';') == seq![Seq::<char>::empty()]);
    assert(Seq::<char>::empty().push(d1) =~= seq![d1]);
    assert(split_char(seq![d1], ';') =~= seq![seq![d1]]);
    assert(seq![d1, d2].drop_last() =~= seq![d1]);
    assert(seq![d1].push(d2) =~= seq![d1, d2]);
    assert(split_char(seq![d1, d2], ';') =~= seq![seq![d1, d2]]);
}

proof fn lemma_params_one(fg: Rgb, bold: bool, p: Seq<char>, code: int, default_fg: Rgb)
    requires
        split_char(p, ';') == seq![p],
        p.len() > 0,
        parse_int(p) == Some(code),
    ensures
        apply_sgr(fg, bold, p, default_fg) == apply_code(fg, bold, code, default_fg),
{
    let parts = split_char(p, ';');
    assert(parts.drop_last() =~= Seq::<Seq<char>>::empty());
    assert(parts.last() == p);
    assert(apply_params(fg, bold, parts.drop_last(), default_fg) == (fg, bold));
    assert(apply_params(fg, bold, parts, default_fg) == apply_code(fg, bold, code, default_fg));
}

/// SGR code 22 turns bold off and keeps the colour, whatever the style
/// before it; so does the escape sequence `ESC [ 2 2 m`.
pub proof fn law_code_22_clears_bold(fg: Rgb, bold: bool, default_fg: Rgb)
    ensures
        apply_code(fg, bold, 22, default_fg) == (fg, false),
        apply_sgr(fg, bold, seq!['2', '2'], default_fg) == (fg, false),
{
    lemma_split_digits('2', '2');
    let p = seq!['2', '2'];
    assert(p.drop_last() =~= seq!['2']);
    assert(seq!['2'].drop_last() =~= Seq::<char>::empty());
    assert(('2' as u32) == 50u32);
    assert(('0' as u32) == 48u32);
    assert(digit_value('2') == 2);
    assert(digits_value(Seq::<char>::empty()) == 0);
    assert(seq!['2'].last() == '2');
    assert(digits_value(seq!['2']) == digits_value(seq!['2'].drop_last()) * 10 + digit_value('2'));
    assert(digits_value(seq!['2']) == 2);
    assert(p.last() == '2');
    assert(digits_value(p) == 22);
    assert(all_digits(p));
    assert(parse_int(p) == Some(22int));
    lemma_params_one(fg, bold, p, 22, default_fg);
}

/// SGR code 1 turns bold on and keeps the colour; so does `ESC [ 1 m`.
pub proof fn law_code_1_sets_bold(fg: Rgb, bold: bool, default_fg: Rgb)
    ensures
        apply_code(fg, bold, 1, default_fg) == (fg, true),
        apply_sgr(fg, bold, seq!['1'], default_fg) == (fg, true),
{
    lemma_split_digits('1', '1');
    let p = seq!['1'];
    assert(p.drop_last() =~= Seq::<char>::empty());
    assert(('1' as u32) == 49u32);
    assert(('0' as u32) == 48u32);
    assert(digit_value('1') == 1);
    assert(digits_value(Seq::<char>::empty()) == 0);
    assert(p.last() == '1');
    assert(digits_value(p) == digits_value(p.drop_last()) * 10 + digit_value('1'));
    assert(digits_value(p) == 1);
    assert(all_digits(p));
    assert(parse_int(p) == Some(1int));
    lemma_params_one(fg, bold, p, 1, default_fg);
}

proof fn lemma_scan_plain_range(chars: Seq<char>, i: int, j: int, st: ScanState, d: Rgb)
    requires
        0 <= i <= j <= chars.len(),
        forall|k: int| i <= k < j ==> !is_cc(#[trigger] chars[k]),
    ensures
        scan_from(chars, i, st, d) == scan_from(
            chars,
            j,
            ScanState { cur: st.cur + chars.subrange(i, j), ..st },
            d,
        ),
    decreases j - i,
{
    if i < j {
        assert(!is_cc(chars[i]));
        assert(!csi_at(chars, i));
        let st1 = ScanState { cur: st.cur.push(chars[i]), ..st };
        lemma_scan_plain_range(chars, i + 1, j, st1, d);
        assert(st.cur.push(chars[i]) + chars.subrange(i + 1, j) =~= st.cur + chars.subrange(i, j));
    } else {
        assert(st.cur + chars.subrange(i, j) =~= st.cur);
    }
}

/// Text after `ESC [ 1 m` is bold and text after a following `ESC [ 22 m` is
/// not, both in the colour they had: a line of the two, each without control
/// characters, gives exactly those two runs.
pub proof fn law_bold_then_normal(a: Seq<char>, b: Seq<char>, default_fg: Rgb)
    requires
        a.len() > 0,
        b.len() > 0,
        forall|k: int| 0 <= k < a.len() ==> !is_cc(#[trigger] a[k]),
        forall|k: int| 0 <= k < b.len() ==> !is_cc(#[trigger] b[k]),
    ensures
        ansi_runs(seq!['\u{1b}', '[', '1', 'm'] + a + seq!['\u{1b}', '[', '2', '2', 'm'] + b, default_fg)
            == seq![
            RunView { text: a, color: default_fg, bold: true },
            RunView { text: b, color: default_fg, bold: false },
        ],
{
    let d = default_fg;
    let e1 = seq!['\u{1b}', '[', '1', 'm'];
    let e2 = seq!['\u{1b}', '[', '2', '2', 'm'];
    let line = e1 + a + e2 + b;
    let p: int = 4 + a.len() as int;
    let q: int = p + 5;
    let n: int = q + b.len() as int;
    assert(line.len() == n);
    assert forall|k: int| 0 <= k < a.len() implies line[4 + k] == a[k] by {}
    assert forall|k: int| 0 <= k < b.len() implies line[q + k] == b[k] by {}
    assert(line[0] == '\u{1b}' && line[1] == '[' && line[2] == '1' && line[3] == 'm');
    assert(line[p] == '\u{1b}' && line[p + 1] == '[' && line[p + 2] == '2' && line[p + 3] == '2'
        && line[p + 4] == 'm');
    // The first escape sequence.
    let st0 = initial_state(d);
    assert(first_alpha_from(line, 3) == 3);
    assert(first_alpha_from(line, 2) == 3);
    assert(csi_at(line, 0));
    assert(line.subrange(2, 3) =~= seq!['1']);
    law_code_1_sets_bold(d, false, d);
    let st1 = ScanState { runs: Seq::empty(), cur: Seq::empty(), fg: d, bold: true };
    assert(flushed(st0) == Seq::<RunView>::empty());
    assert(scan_from(line, 0, st0, d) == scan_from(line, 4, st1, d));
    // The bold text.
    assert forall|k: int| 4 <= k < p implies !is_cc(#[trigger] line[k]) by {
        assert(line[k] == a[k - 4]);
    }
    lemma_scan_plain_range(line, 4, p, st1, d);
    assert(line.subrange(4, p) =~= a);
    assert(Seq::<char>::empty() + a =~= a);
    let st2 = ScanState { runs: Seq::empty(), cur: a, fg: d, bold: true };
    assert(scan_from(line, 4, st1, d) == scan_from(line, p, st2, d));
    // The second escape sequence.
    assert(first_alpha_from(line, p + 4) == p + 4);
    assert(first_alpha_from(line, p + 3) == p + 4);
    assert(first_alpha_from(line, p + 2) == p + 4);
    assert(csi_at(line, p));
    assert(line.subrange(p + 2, p + 4) =~= seq!['2', '2']);
    law_code_22_clears_bold(d, true, d);
    let st3 = ScanState {
        runs: seq![RunView { text: a, color: d, bold: true }],
        cur: Seq::empty(),
        fg: d,
        bold: false,
    };
    assert(flushed(st2) =~= seq![RunView { text: a, color: d, bold: true }]);
    assert(scan_from(line, p, st2, d) == scan_from(line, q, st3, d));
    // The plain text.
    assert forall|k: int| q <= k < n implies !is_cc(#[trigger] line[k]) by {
        assert(line[k] == b[k - q]);
    }
    lemma_scan_plain_range(line, q, n, st3, d);
    assert(line.subrange(q, n) =~= b);
    assert(Seq::<char>::empty() + b =~= b);
    let st4 = ScanState { runs: st3.runs, cur: b, fg: d, bold: false };
    assert(scan_from(line, q, st3, d) == scan_from(line, n, st4, d));
    assert(scan_from(line, n, st4, d) == st4);
    assert(flushed(st4) =~= seq![
        RunView { text: a, color: d, bold: true },
        RunView { text: b, color: d, bold: false },
    ]);
}

} // verus!
