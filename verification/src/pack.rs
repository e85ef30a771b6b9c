//! Packing a folder: which files are taken and in what order, and the text
//! of the terminal screenshot made for each of them.
use vstd::prelude::*;
use vstd::utf8::{encode_scalar, encode_utf8};
use crate::natural::{flip, natural_compare, natural_order, NatOrder};
use crate::runner::LangTable;
use crate::text::{chars_of, join_with, lemma_split_join, lemma_split_len, owned, push_chars, split_char, split_str, str_eq};

verus! {

// ---------------------------------------------------------------------------
// Names
// ---------------------------------------------------------------------------

/// The folder's own name, or `folder` when it has none that is valid UTF-8.
pub fn folder_label(name: Option<&str>) -> (r: String)
    ensures
        r@ == match name {
            Some(n) => n@,
            None => "folder"@,
        },
{
    match name {
        Some(n) => owned(n),
        None => String::from_str("folder"),
    }
}

/// The document title: the one given, else the folder's name.
pub fn resolve_title(doc_title: Option<&str>, folder_name: &str) -> (r: String)
    ensures
        r@ == match doc_title {
            Some(t) => t@,
            None => folder_name@,
        },
{
    match doc_title {
        Some(t) => owned(t),
        None => owned(folder_name),
    }
}

/// The output name used when none is given: the folder's name and `_pack`.
pub fn default_output_name(folder_name: &str) -> (r: String)
    ensures
        r@ == folder_name@ + "_pack"@,
{
    let mut r = owned(folder_name);
    r.append("_pack");
    r
}

// ---------------------------------------------------------------------------
// Choosing the extension
// ---------------------------------------------------------------------------

pub open spec fn opt_views(v: Seq<Option<String>>) -> Seq<Option<Seq<char>>> {
    v.map_values(
        |o: Option<String>|
            match o {
                Some(s) => Some(s@),
                None => None,
            },
    )
}

/// How many of the files have extension `e`.
pub open spec fn ext_count(exts: Seq<Option<Seq<char>>>, e: Seq<char>) -> nat
    decreases exts.len(),
{
    if exts.len() == 0 {
        0
    } else {
        ext_count(exts.drop_last(), e) + if exts.last() == Some(e) {
            1nat
        } else {
            0nat
        }
    }
}

proof fn lemma_ext_count_bound(exts: Seq<Option<Seq<char>>>, e: Seq<char>)
    ensures
        ext_count(exts, e) <= exts.len(),
    decreases exts.len(),
{
    if exts.len() > 0 {
        lemma_ext_count_bound(exts.drop_last(), e);
    }
}

/// Why a folder cannot be packed.
#[derive(Debug)]
pub enum PackError {
    NoSupportedExtension,
}

impl PackError {
    pub fn message(&self) -> (m: String)
        ensures
            m@ == "Auto-detection failed: no files with supported extensions found in folder."@,
    {
        String::from_str("Auto-detection failed: no files with supported extensions found in folder.")
    }
}

fn tally_position(tally: &Vec<(String, usize)>, x: &str) -> (r: Option<usize>)
    ensures
        match r {
            Some(t) => t < tally@.len() && tally@[t as int].0@ == x@,
            None => forall|u: int| 0 <= u < tally@.len() ==> #[trigger] tally@[u].0@ != x@,
        },
{
    let mut t: usize = 0;
    while t < tally.len()
        invariant
            t <= tally@.len(),
            forall|u: int| 0 <= u < t ==> #[trigger] tally@[u].0@ != x@,
        decreases tally@.len() - t,
    {
        if str_eq(tally[t].0.as_str(), x) {
            return Some(t);
        }
        t += 1;
    }
    None
}

fn contains_string(v: &Vec<String>, x: &str) -> (b: bool)
    ensures
        b == v@.map_values(|s: String| s@).contains(x@),
{
    let ghost cv = v@.map_values(|s: String| s@);
    let mut j: usize = 0;
    while j < v.len()
        invariant
            j <= v@.len(),
            cv == v@.map_values(|s: String| s@),
            forall|u: int| 0 <= u < j ==> #[trigger] cv[u] != x@,
        decreases v@.len() - j,
    {
        if str_eq(v[j].as_str(), x) {
            proof {
                assert(cv[j as int] == x@);
            }
            return true;
        }
        j += 1;
    }
    false
}

/// The extension to pack when none is given: one with a configuration that
/// the most files have (any one of them when several tie).
pub fn detect_extension(exts: &Vec<Option<String>>, table: &LangTable) -> (r: Result<
    String,
    PackError,
>)
    ensures
        match r {
            Ok(e) => {
                &&& table@.contains_key(e@)
                &&& ext_count(opt_views(exts@), e@) > 0
                &&& forall|f: Seq<char>|
                    table@.contains_key(f) ==> #[trigger] ext_count(opt_views(exts@), f)
                        <= ext_count(opt_views(exts@), e@)
            },
            Err(_) => forall|f: Seq<char>|
                table@.contains_key(f) ==> #[trigger] ext_count(opt_views(exts@), f) == 0,
        },
{
    let ghost ev = opt_views(exts@);
    let mut tally: Vec<(String, usize)> = Vec::new();
    let mut i: usize = 0;
    while i < exts.len()
        invariant
            i <= exts@.len(),
            ev == opt_views(exts@),
            forall|t: int|
                0 <= t < tally@.len() ==> {
                    &&& table@.contains_key(#[trigger] tally@[t].0@)
                    &&& tally@[t].1 == ext_count(ev.take(i as int), tally@[t].0@)
                    &&& tally@[t].1 > 0
                },
            forall|a: int, b: int| 0 <= a < b < tally@.len() ==> tally@[a].0@ != tally@[b].0@,
            forall|f: Seq<char>|
                table@.contains_key(f) && #[trigger] ext_count(ev.take(i as int), f) > 0 ==> exists|
                    t: int,
                | 0 <= t < tally@.len() && tally@[t].0@ == f,
        decreases exts@.len() - i,
    {
        let ghost pre = ev.take(i as int);
        let ghost nxt = ev.take(i + 1);
        proof {
            assert(nxt.drop_last() =~= pre);
            assert(nxt.last() == ev[i as int]);
            lemma_ext_count_bound(pre, Seq::empty());
        }
        match &exts[i] {
            Some(x) => {
                if table.contains_key(x.as_str()) {
                    let found = tally_position(&tally, x.as_str());
                    match found {
                        Some(t) => {
                            let ghost old_tally = tally@;
                            proof {
                                lemma_ext_count_bound(pre, x@);
                            }
                            let name = owned(tally[t].0.as_str());
                            let c = tally[t].1;
                            tally.set(t, (name, c + 1));
                            proof {
                                assert forall|u: int| 0 <= u < tally@.len() implies {
                                    &&& table@.contains_key(#[trigger] tally@[u].0@)
                                    &&& tally@[u].1 == ext_count(nxt, tally@[u].0@)
                                    &&& tally@[u].1 > 0
                                } by {
                                    if u != t {
                                        assert(tally@[u] == old_tally[u]);
                                        if u < t {
                                            assert(old_tally[u].0@ != old_tally[t as int].0@);
                                        } else {
                                            assert(old_tally[t as int].0@ != old_tally[u].0@);
                                        }
                                        assert(old_tally[u].0@ != x@);
                                    }
                                }
                                assert forall|f: Seq<char>|
                                    table@.contains_key(f) && #[trigger] ext_count(nxt, f)
                                        > 0 implies exists|u: int|
                                    0 <= u < tally@.len() && tally@[u].0@ == f by {
                                    if f == x@ {
                                        assert(tally@[t as int].0@ == f);
                                    } else {
                                        assert(ext_count(pre, f) > 0);
                                        let u = choose|u: int|
                                            0 <= u < old_tally.len() && old_tally[u].0@ == f;
                                        assert(tally@[u].0@ == f);
                                    }
                                }
                            }
                        },
                        None => {
                            let ghost old_tally = tally@;
                            tally.push((owned(x.as_str()), 1));
                            proof {
                                assert forall|u: int| 0 <= u < tally@.len() implies {
                                    &&& table@.contains_key(#[trigger] tally@[u].0@)
                                    &&& tally@[u].1 == ext_count(nxt, tally@[u].0@)
                                    &&& tally@[u].1 > 0
                                } by {
                                    if u < old_tally.len() {
                                        assert(tally@[u] == old_tally[u]);
                                        assert(old_tally[u].0@ != x@);
                                    } else {
                                        assert(ext_count(pre, x@) == 0) by {
                                            if ext_count(pre, x@) > 0 {
                                                let w = choose|w: int|
                                                    0 <= w < old_tally.len() && old_tally[w].0@
                                                        == x@;
                                                assert(old_tally[w].0@ != x@);
                                            }
                                        }
                                    }
                                }
                                assert forall|a: int, b: int|
                                    0 <= a < b < tally@.len() implies tally@[a].0@
                                    != tally@[b].0@ by {
                                    if b < old_tally.len() {
                                        assert(tally@[a] == old_tally[a]);
                                        assert(tally@[b] == old_tally[b]);
                                    } else {
                                        assert(tally@[a] == old_tally[a]);
                                    }
                                }
                                assert forall|f: Seq<char>|
                                    table@.contains_key(f) && #[trigger] ext_count(nxt, f)
                                        > 0 implies exists|u: int|
                                    0 <= u < tally@.len() && tally@[u].0@ == f by {
                                    if f == x@ {
                                        assert(tally@[old_tally.len() as int].0@ == f);
                                    } else {
                                        assert(ext_count(pre, f) > 0);
                                        let u = choose|u: int|
                                            0 <= u < old_tally.len() && old_tally[u].0@ == f;
                                        assert(tally@[u] == old_tally[u]);
                                    }
                                }
                            }
                        },
                    }
                } else {
                    proof {
                        assert forall|u: int| 0 <= u < tally@.len() implies tally@[u].0@ != x@ by {
                            assert(table@.contains_key(tally@[u].0@));
                        }
                        assert forall|f: Seq<char>|
                            table@.contains_key(f) && #[trigger] ext_count(nxt, f)
                                > 0 implies exists|u: int|
                            0 <= u < tally@.len() && tally@[u].0@ == f by {
                            assert(ext_count(pre, f) > 0);
                        }
                    }
                }
            },
            None => {
                proof {
                    assert forall|f: Seq<char>|
                        table@.contains_key(f) && #[trigger] ext_count(nxt, f)
                            > 0 implies exists|u: int| 0 <= u < tally@.len() && tally@[u].0@ == f by {
                        assert(ext_count(pre, f) > 0);
                    }
                }
            },
        }
        i += 1;
    }
    proof {
        assert(ev.take(i as int) =~= ev);
    }
    if tally.len() == 0 {
        proof {
            assert forall|f: Seq<char>| table@.contains_key(f) implies #[trigger] ext_count(ev, f)
                == 0 by {
                if ext_count(ev, f) > 0 {
                    let u = choose|u: int| 0 <= u < tally@.len() && tally@[u].0@ == f;
                }
            }
        }
        return Err(PackError::NoSupportedExtension);
    }
    let mut best: usize = 0;
    let mut t: usize = 1;
    while t < tally.len()
        invariant
            1 <= t <= tally@.len(),
            best < t,
            forall|u: int| 0 <= u < t ==> #[trigger] tally@[u].1 <= tally@[best as int].1,
        decreases tally@.len() - t,
    {
        if tally[t].1 > tally[best].1 {
            best = t;
        }
        t += 1;
    }
    proof {
        assert forall|f: Seq<char>| table@.contains_key(f) implies #[trigger] ext_count(ev, f)
            <= ext_count(ev, tally@[best as int].0@) by {
            if ext_count(ev, f) > 0 {
                let u = choose|u: int| 0 <= u < tally@.len() && tally@[u].0@ == f;
                assert(tally@[u].1 <= tally@[best as int].1);
            }
        }
    }
    Ok(owned(tally[best].0.as_str()))
}

// ---------------------------------------------------------------------------
// Choosing and ordering the files
// ---------------------------------------------------------------------------

/// File `i` has one of the extensions in `chosen`.
pub open spec fn has_chosen_ext(exts: Seq<Option<Seq<char>>>, chosen: Seq<Seq<char>>, i: int) -> bool {
    exts[i] is Some && chosen.contains(exts[i]->0)
}

/// The positions of the files that have one of the `chosen` extensions, in
/// increasing order.
pub fn files_with_extensions(exts: &Vec<Option<String>>, chosen: &Vec<String>) -> (r: Vec<usize>)
    ensures
        forall|k: int| 0 <= k < r@.len() ==> #[trigger] r@[k] < exts@.len(),
        forall|a: int, b: int| 0 <= a < b < r@.len() ==> r@[a] < r@[b],
        forall|k: int|
            0 <= k < r@.len() ==> has_chosen_ext(
                opt_views(exts@),
                chosen@.map_values(|s: String| s@),
                #[trigger] r@[k] as int,
            ),
        forall|i: int|
            0 <= i < exts@.len() && has_chosen_ext(
                opt_views(exts@),
                chosen@.map_values(|s: String| s@),
                i,
            ) ==> #[trigger] r@.contains(i as usize),
{
    let ghost ev = opt_views(exts@);
    let ghost cv = chosen@.map_values(|s: String| s@);
    let mut r: Vec<usize> = Vec::new();
    let mut i: usize = 0;
    while i < exts.len()
        invariant
            i <= exts@.len(),
            ev == opt_views(exts@),
            cv == chosen@.map_values(|s: String| s@),
            forall|k: int| 0 <= k < r@.len() ==> #[trigger] r@[k] < i,
            forall|a: int, b: int| 0 <= a < b < r@.len() ==> r@[a] < r@[b],
            forall|k: int| 0 <= k < r@.len() ==> has_chosen_ext(ev, cv, #[trigger] r@[k] as int),
            forall|j: int| 0 <= j < i && has_chosen_ext(ev, cv, j) ==> #[trigger] r@.contains(
                j as usize,
            ),
        decreases exts@.len() - i,
    {
        let keep = match &exts[i] {
            Some(x) => contains_string(chosen, x.as_str()),
            None => false,
        };
        proof {
            if let Some(x) = exts@[i as int] {
                assert(ev[i as int] == Some(x@));
            }
        }
        let ghost old_r = r@;
        if keep {
            r.push(i);
        }
        proof {
            assert forall|j: int| 0 <= j < i + 1 && has_chosen_ext(ev, cv, j) implies #[trigger] r@.contains(
                j as usize,
            ) by {
                if j < i {
                    assert(old_r.contains(j as usize));
                    let w = choose|w: int| 0 <= w < old_r.len() && old_r[w] == j as usize;
                    assert(r@[w] == j as usize);
                } else {
                    assert(r@[r@.len() - 1] == i);
                }
            }
        }
        i += 1;
    }
    r
}

/// `order` lists each position below `n` exactly once.
pub open spec fn is_permutation(order: Seq<usize>, n: nat) -> bool {
    &&& order.len() == n
    &&& forall|k: int| 0 <= k < order.len() ==> #[trigger] order[k] < n
    &&& forall|a: int, b: int| 0 <= a < b < order.len() ==> order[a] != order[b]
}

/// In `order`, no name comes naturally before the one listed just ahead of
/// it.
pub open spec fn naturally_sorted(names: Seq<Seq<char>>, order: Seq<usize>) -> bool {
    forall|k: int| 0 <= k < order.len() - 1 ==> #[trigger] in_order_at(names, order, k)
}

/// The name at place `k + 1` of `order` does not come naturally before the
/// one at place `k`.
pub open spec fn in_order_at(names: Seq<Seq<char>>, order: Seq<usize>, k: int) -> bool {
    natural_order(names[order[k + 1] as int], names[order[k] as int]) != NatOrder::Less
}

proof fn lemma_insert_permutation(old_order: Seq<usize>, j: int, i: usize, order: Seq<usize>)
    requires
        0 <= j <= old_order.len(),
        is_permutation(old_order, i as nat),
        order == old_order.insert(j, i),
    ensures
        is_permutation(order, (i + 1) as nat),
{
    assert forall|a: int, b: int| 0 <= a < b < order.len() implies order[a] != order[b] by {
        if a < j && b < j {
            assert(order[a] == old_order[a] && order[b] == old_order[b]);
        } else if a < j && b == j {
            assert(order[a] == old_order[a]);
        } else if a < j {
            assert(order[a] == old_order[a] && order[b] == old_order[b - 1]);
        } else if a == j {
            assert(order[b] == old_order[b - 1]);
        } else {
            assert(order[a] == old_order[a - 1] && order[b] == old_order[b - 1]);
        }
    }
    assert forall|k: int| 0 <= k < order.len() implies #[trigger] order[k] < i + 1 by {
        if k < j {
            assert(order[k] == old_order[k]);
        } else if k > j {
            assert(order[k] == old_order[k - 1]);
        }
    }
}

proof fn lemma_insert_sorted(
    nv: Seq<Seq<char>>,
    old_order: Seq<usize>,
    j: int,
    i: usize,
    order: Seq<usize>,
)
    requires
        0 <= j <= old_order.len(),
        naturally_sorted(nv, old_order),
        order == old_order.insert(j, i),
        j > 0 ==> natural_order(nv[i as int], nv[old_order[j - 1] as int]) != NatOrder::Less,
        j < old_order.len() ==> natural_order(nv[old_order[j] as int], nv[i as int])
            != NatOrder::Less,
    ensures
        naturally_sorted(nv, order),
{
    assert forall|k: int| 0 <= k < order.len() - 1 implies #[trigger] in_order_at(nv, order, k) by {
        if k + 1 < j {
            assert(order[k] == old_order[k] && order[k + 1] == old_order[k + 1]);
            assert(in_order_at(nv, old_order, k));
        } else if k + 1 == j {
            assert(order[k] == old_order[k] && order[k + 1] == i);
        } else if k == j {
            assert(order[k] == i && order[k + 1] == old_order[k]);
        } else {
            assert(order[k] == old_order[k - 1] && order[k + 1] == old_order[k]);
            assert(in_order_at(nv, old_order, k - 1));
        }
    }
}

/// Two names are listed against the order of their positions only where
/// the later one comes naturally before the earlier one (the sort is stable).
pub open spec fn stable_order(names: Seq<Seq<char>>, order: Seq<usize>) -> bool {
    forall|a: int, b: int|
        0 <= a < b < order.len() && order[a] > order[b] ==> natural_order(
            names[#[trigger] order[a] as int],
            names[#[trigger] order[b] as int],
        ) == NatOrder::Less
}

proof fn lemma_insert_stable(nv: Seq<Seq<char>>, old_order: Seq<usize>, j: int, i: usize, order: Seq<usize>)
    requires
        0 <= j <= old_order.len(),
        is_permutation(old_order, i as nat),
        stable_order(nv, old_order),
        order == old_order.insert(j, i),
        forall|k: int| j <= k < old_order.len() ==> natural_order(nv[i as int], nv[#[trigger] old_order[k] as int])
            == NatOrder::Less,
    ensures
        stable_order(nv, order),
{
    assert forall|a: int, b: int| 0 <= a < b < order.len() && order[a] > order[b] implies natural_order(
        nv[#[trigger] order[a] as int],
        nv[#[trigger] order[b] as int],
    ) == NatOrder::Less by {
        if a < j && b < j {
            assert(order[a] == old_order[a] && order[b] == old_order[b]);
        } else if a < j && b == j {
            assert(order[a] == old_order[a]);
            assert(old_order[a] < i);
        } else if a < j {
            assert(order[a] == old_order[a] && order[b] == old_order[b - 1]);
        } else if a == j {
            assert(order[b] == old_order[b - 1]);
        } else {
            assert(order[a] == old_order[a - 1] && order[b] == old_order[b - 1]);
        }
    }
}

/// The positions of `names` in natural order (a stable insertion sort with
/// the `natord` comparison).
pub fn natural_order_indices(names: &Vec<String>) -> (order: Vec<usize>)
    ensures
        is_permutation(order@, names@.len()),
        naturally_sorted(names@.map_values(|s: String| s@), order@),
        stable_order(names@.map_values(|s: String| s@), order@),
{
    let ghost nv = names@.map_values(|s: String| s@);
    let mut order: Vec<usize> = Vec::new();
    let mut i: usize = 0;
    while i < names.len()
        invariant
            i <= names@.len(),
            nv == names@.map_values(|s: String| s@),
            is_permutation(order@, i as nat),
            naturally_sorted(nv, order@),
            stable_order(nv, order@),
        decreases names@.len() - i,
    {
        let mut j = order.len();
        while j > 0 && natural_compare(names[i].as_str(), names[order[j - 1]].as_str())
            == NatOrder::Less
            invariant
                j <= order@.len(),
                order@.len() == i,
                i < names@.len(),
                nv == names@.map_values(|s: String| s@),
                is_permutation(order@, i as nat),
                forall|k: int|
                    j <= k < order@.len() ==> natural_order(nv[i as int], nv[#[trigger] order@[k] as int])
                        == NatOrder::Less,
                forall|k: int|
                    j <= k < order@.len() ==> flip(natural_order(nv[i as int], nv[#[trigger] order@[k] as int]))
                        == natural_order(nv[order@[k] as int], nv[i as int]),
            decreases j,
        {
            j -= 1;
        }
        proof {
            if j > 0 {
                assert(natural_order(nv[i as int], nv[order@[j - 1] as int]) != NatOrder::Less);
            }
        }
        let ghost old_order = order@;
        order.insert(j, i);
        proof {
            if j < old_order.len() {
                assert(flip(natural_order(nv[i as int], nv[old_order[j as int] as int]))
                    == natural_order(nv[old_order[j as int] as int], nv[i as int]));
            }
            lemma_insert_permutation(old_order, j as int, i, order@);
            lemma_insert_sorted(nv, old_order, j as int, i, order@);
            lemma_insert_stable(nv, old_order, j as int, i, order@);
        }
        i += 1;
    }
    order
}

// ---------------------------------------------------------------------------
// The screenshot text of one file
// ---------------------------------------------------------------------------

/// The number of bytes of the UTF-8 encoding of `c`.
pub open spec fn utf8_width(c: char) -> nat {
    encode_scalar(c as u32).len()
}

fn char_width(c: char) -> (w: usize)
    ensures
        w == utf8_width(c),
        1 <= w <= 4,
{
    proof {
        vstd::utf8::char_is_scalar(c);
    }
    let u = c as u32;
    if u <= 0x7f {
        1
    } else if u <= 0x7ff {
        2
    } else if u <= 0xffff {
        3
    } else {
        4
    }
}

proof fn lemma_encode_append(a: Seq<char>, b: Seq<char>)
    ensures
        encode_utf8(a + b) == encode_utf8(a) + encode_utf8(b),
    decreases a.len(),
{
    if a.len() == 0 {
        assert(a + b =~= b);
    } else {
        assert((a + b).drop_first() =~= a.drop_first() + b);
        lemma_encode_append(a.drop_first(), b);
        assert(encode_utf8(a + b) =~= encode_utf8(a) + encode_utf8(b));
    }
}

proof fn lemma_encode_push(a: Seq<char>, c: char)
    ensures
        encode_utf8(a.push(c)).len() == encode_utf8(a).len() + utf8_width(c),
{
    reveal_with_fuel(encode_utf8, 2);
    assert(a.push(c) =~= a + seq![c]);
    lemma_encode_append(a, seq![c]);
    assert(seq![c].drop_first() =~= Seq::<char>::empty());
}

/// The longest prefix of `line` whose encoding fits in `n` bytes.
pub open spec fn byte_prefix(line: Seq<char>, n: int) -> Seq<char>
    decreases line.len(),
{
    if line.len() == 0 || utf8_width(line[0]) > n {
        Seq::empty()
    } else {
        seq![line[0]] + byte_prefix(line.drop_first(), n - utf8_width(line[0]))
    }
}

/// Longest line kept whole, in bytes.
pub open spec fn max_line_bytes() -> int {
    200
}

/// Most lines of output kept.
pub open spec fn max_output_lines() -> int {
    150
}

/// One line of output as shown: a line of more than 200 bytes is cut to its
/// first 200 bytes and marked.
pub open spec fn shown_line(line: Seq<char>) -> Seq<char> {
    if encode_utf8(line).len() > max_line_bytes() {
        byte_prefix(line, max_line_bytes()) + "... [line truncated]\n"@
    } else {
        line + "\n"@
    }
}

/// The lines of output that are kept.
pub open spec fn kept_lines(out: Seq<char>) -> Seq<Seq<char>> {
    let ls = split_char(out, '\n');
    if ls.len() > max_output_lines() {
        ls.take(max_output_lines())
    } else {
        ls
    }
}

/// The kept lines, each as shown, one after the other.
pub open spec fn shown_lines(ls: Seq<Seq<char>>) -> Seq<char>
    decreases ls.len(),
{
    if ls.len() == 0 {
        Seq::empty()
    } else {
        shown_lines(ls.drop_last()) + shown_line(ls.last())
    }
}

/// The output as shown in the screenshot.
pub open spec fn shown_output(out: Seq<char>) -> Seq<char> {
    shown_lines(kept_lines(out)) + if split_char(out, '\n').len() > max_output_lines() {
        "\n... [output truncated due to length] ...\n"@
    } else {
        Seq::empty()
    }
}

/// Cutting a line at byte 200 keeps whole characters only.
pub open spec fn cut_on_char(line: Seq<char>) -> bool {
    encode_utf8(line).len() > max_line_bytes() ==> encode_utf8(
        byte_prefix(line, max_line_bytes()),
    ).len() == max_line_bytes()
}

fn push_shown_line(s: &mut String, line: &str)
    requires
        cut_on_char(line@),
    ensures
        final(s)@ == old(s)@ + shown_line(line@),
{
    let v = chars_of(line);
    let n = v.len();
    let mut k: usize = 0;
    let mut bytes: usize = 0;
    let mut over = false;
    proof {
        assert(v@.take(0) =~= Seq::<char>::empty());
        assert(v@.skip(0) =~= v@);
        assert(Seq::<char>::empty() + byte_prefix(v@, 200) =~= byte_prefix(v@, 200));
    }
    // Walk the characters until the first 200 bytes are used up.
    while k < n && !over
        invariant
            v@ == line@,
            n == v@.len(),
            k <= n,
            bytes <= 200,
            !over ==> bytes == encode_utf8(v@.take(k as int)).len(),
            !over ==> byte_prefix(v@, 200) == v@.take(k as int) + byte_prefix(
                v@.skip(k as int),
                200 - bytes,
            ),
            over ==> encode_utf8(v@).len() > 200 && byte_prefix(v@, 200) == v@.take(k as int),
        decreases n - k + (if over {
            0int
        } else {
            1int
        }),
    {
        let w = char_width(v[k]);
        let ghost rest = v@.skip(k as int);
        proof {
            assert(v@.take(k + 1) =~= v@.take(k as int).push(v@[k as int]));
            lemma_encode_push(v@.take(k as int), v@[k as int]);
            assert(rest[0] == v@[k as int]);
            assert(rest.drop_first() =~= v@.skip(k + 1));
        }
        if w > 200 - bytes {
            over = true;
            proof {
                assert(v@ =~= v@.take(k + 1) + v@.skip(k + 1));
                lemma_encode_append(v@.take(k + 1), v@.skip(k + 1));
                assert(v@.take(k as int) + Seq::<char>::empty() =~= v@.take(k as int));
            }
        } else {
            proof {
                assert(v@.take(k as int) + (seq![v@[k as int]] + byte_prefix(
                    v@.skip(k + 1),
                    200 - bytes - w,
                )) =~= v@.take(k + 1) + byte_prefix(v@.skip(k + 1), 200 - (bytes + w)));
            }
            bytes = bytes + w;
            k += 1;
        }
    }
    if over {
        push_chars(s, &v, 0, k);
        s.append("... [line truncated]\n");
        proof {
            assert(v@.subrange(0, k as int) =~= v@.take(k as int));
        }
    } else {
        proof {
            assert(v@.take(k as int) =~= v@);
        }
        push_chars(s, &v, 0, n);
        s.append("\n");
        proof {
            assert(v@.subrange(0, n as int) =~= v@);
        }
    }
}

/// The captured output of a program as it goes into its screenshot: at most
/// 150 lines, each cut to 200 bytes, each ended by a newline, with a note
/// when lines or the output were cut.
pub fn limit_output(out: &str) -> (r: String)
    requires
        forall|k: int|
            0 <= k < kept_lines(out@).len() ==> cut_on_char(#[trigger] kept_lines(out@)[k]),
    ensures
        r@ == shown_output(out@),
{
    let lines = split_str(out, '\n');
    let ghost ls = split_char(out@, '\n');
    let truncated = lines.len() > 150;
    let n = if truncated {
        150
    } else {
        lines.len()
    };
    let ghost kl = kept_lines(out@);
    proof {
        assert(kl =~= ls.take(n as int));
    }
    let mut r = String::new();
    let mut i: usize = 0;
    while i < n
        invariant
            n <= lines@.len(),
            lines@.len() == ls.len(),
            ls == split_char(out@, '\n'),
            forall|k: int| 0 <= k < lines@.len() ==> #[trigger] lines@[k]@ == ls[k],
            kl == ls.take(n as int),
            forall|k: int| 0 <= k < kl.len() ==> cut_on_char(#[trigger] kl[k]),
            i <= n,
            r@ == shown_lines(kl.take(i as int)),
        decreases n - i,
    {
        proof {
            assert(kl[i as int] == lines@[i as int]@);
            assert(kl.take(i + 1).drop_last() =~= kl.take(i as int));
        }
        push_shown_line(&mut r, lines[i].as_str());
        i += 1;
    }
    proof {
        assert(kl.take(n as int) =~= kl);
    }
    if truncated {
        r.append("\n... [output truncated due to length] ...\n");
    } else {
        proof {
            assert(r@ + Seq::<char>::empty() =~= r@);
        }
    }
    r
}

proof fn lemma_shown_lines_plain(ls: Seq<Seq<char>>)
    requires
        ls.len() > 0,
        forall|k: int| 0 <= k < ls.len() ==> encode_utf8(#[trigger] ls[k]).len() <= max_line_bytes(),
    ensures
        shown_lines(ls) == join_with(ls, seq!['\n']) + seq!['\n'],
    decreases ls.len(),
{
    reveal_strlit("\n");
    assert(encode_utf8(ls[ls.len() - 1]).len() <= max_line_bytes());
    assert("\n"@ =~= seq!['\n']);
    assert(shown_line(ls.last()) == ls.last() + seq!['\n']);
    if ls.len() == 1 {
        assert(ls.drop_last() =~= Seq::<Seq<char>>::empty());
        assert(shown_lines(ls.drop_last()) =~= Seq::<char>::empty());
        assert(shown_lines(ls) =~= join_with(ls, seq!['\n']) + seq!['\n']);
    } else {
        assert forall|k: int| 0 <= k < ls.drop_last().len() implies encode_utf8(
            #[trigger] ls.drop_last()[k],
        ).len() <= max_line_bytes() by {
            assert(ls.drop_last()[k] == ls[k]);
        }
        lemma_shown_lines_plain(ls.drop_last());
        assert(shown_lines(ls) =~= join_with(ls, seq!['\n']) + seq!['\n']);
    }
}

/// Output of at most 150 lines, none longer than 200 bytes, is shown as it
/// is, with a newline after its last line.
pub proof fn law_short_output_unchanged(out: Seq<char>)
    requires
        split_char(out, '\n').len() <= max_output_lines(),
        forall|k: int|
            0 <= k < split_char(out, '\n').len() ==> encode_utf8(#[trigger] split_char(out, '\n')[k]).len()
                <= max_line_bytes(),
    ensures
        shown_output(out) == out + seq!['\n'],
{
    reveal_strlit("\n");
    lemma_split_len(out, '\n');
    lemma_split_join(out, '\n');
    lemma_shown_lines_plain(split_char(out, '\n'));
    assert(shown_output(out) =~= out + seq!['\n']);
}

/// The text of a file's screenshot: a line that shows the prompt running the
/// file (unless the prompt is not highlighted), then the limited output.
pub open spec fn screenshot_text_spec(
    filename: Seq<char>,
    out: Seq<char>,
    prompt: Seq<char>,
    no_prompt_highlight: bool,
) -> Seq<char> {
    let head = if no_prompt_highlight {
        Seq::empty()
    } else {
        prompt + "run "@ + filename + "\n"@
    };
    head + shown_output(out)
}

pub fn screenshot_text(filename: &str, out: &str, prompt: &str, no_prompt_highlight: bool) -> (r:
    String)
    requires
        forall|k: int|
            0 <= k < kept_lines(out@).len() ==> cut_on_char(#[trigger] kept_lines(out@)[k]),
    ensures
        r@ == screenshot_text_spec(filename@, out@, prompt@, no_prompt_highlight),
{
    let mut r = String::new();
    if !no_prompt_highlight {
        r.append(prompt);
        r.append("run ");
        r.append(filename);
        r.append("\n");
    }
    let body = limit_output(out);
    r.append(body.as_str());
    proof {
        if no_prompt_highlight {
            assert(r@ =~= Seq::<char>::empty() + shown_output(out@));
        }
    }
    r
}

/// The text shown in place of output when the file could not be run.
pub fn run_error_text(message: &str) -> (r: String)
    ensures
        r@ == "[Error running file: "@ + message@ + "]"@,
{
    let mut r = String::from_str("[Error running file: ");
    r.append(message);
    r.append("]");
    r
}

/// The size a screenshot is cut down to, when it is larger than 4000 by
/// 10000 pixels.
pub fn crop_size(width: u32, height: u32) -> (r: Option<(u32, u32)>)
    ensures
        r is Some <==> (width > 4000 || height > 10000),
        r matches Some(s) ==> s.0 == (if width < 4000 {
            width
        } else {
            4000
        }) && s.1 == (if height < 10000 {
            height
        } else {
            10000
        }),
{
    if width > 4000 || height > 10000 {
        let w = if width < 4000 {
            width
        } else {
            4000
        };
        let h = if height < 10000 {
            height
        } else {
            10000
        };
        Some((w, h))
    } else {
        None
    }
}

} // verus!
