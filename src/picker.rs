//! Logic of the interactive picker: fuzzy ranking of labels, list and tab
//! navigation, and the keys that tie a preset to picker items.
use vstd::prelude::*;
use crate::presets::{PresetDefinition, PresetFile, PresetStarshipValue, PresetWaybarValue};
use crate::text::{
    alnum, chars_of, copy_str, find_chars, is_alnum, is_blank, lower_of, lowercase, occurs_at, seq_le,
    str_le, trim, trim_str,
};

verus! {

broadcast use vstd::seq_lib::group_to_multiset_ensures;

/// Longest label or query, in characters, that is scored.
pub const MAX_SCORED_LEN: usize = 1_000_000;

/// Position `idx` starts a word of `cs`: it is the first character or follows
/// a character that is not alphanumeric.
pub open spec fn word_boundary(cs: Seq<char>, idx: int) -> bool {
    idx == 0 || !alnum(cs[idx - 1])
}

pub fn is_word_boundary(chars: &Vec<char>, idx: usize) -> (r: bool)
    requires
        idx <= chars@.len(),
    ensures
        r == word_boundary(chars@, idx as int),
{
    if idx == 0 {
        return true;
    }
    !is_alnum(chars[idx - 1])
}

/// The first index at which `n` occurs in `h`, if any.
pub open spec fn first_occurrence(h: Seq<char>, n: Seq<char>) -> Option<int> {
    if exists|i: int| occurs_at(h, n, i) {
        Some(choose|i: int| occurs_at(h, n, i) && forall|j: int| 0 <= j < i ==> !occurs_at(h, n, j))
    } else {
        None
    }
}

fn find_first(h: &Vec<char>, n: &Vec<char>) -> (r: Option<usize>)
    ensures
        match r {
            Some(i) => first_occurrence(h@, n@) == Some(i as int) && occurs_at(h@, n@, i as int),
            None => first_occurrence(h@, n@) is None,
        },
{
    let r = find_chars(h, n);
    proof {
        if let Some(i) = r {
            let w = choose|k: int| occurs_at(h@, n@, k) && forall|j: int| 0 <= j < k ==> !occurs_at(h@, n@, j);
            assert(occurs_at(h@, n@, i as int));
            if w < i {
                assert(!occurs_at(h@, n@, w));
            }
            if w > i as int {
                assert(!occurs_at(h@, n@, i as int));
            }
        }
    }
    r
}

/// Greedy left-to-right positions in `l` (from `start`) of the characters of `qs`.
pub open spec fn greedy_from(l: Seq<char>, qs: Seq<char>, start: int) -> Seq<int>
    decreases l.len() - start,
{
    if qs.len() == 0 || start < 0 || start >= l.len() {
        Seq::empty()
    } else if l[start] == qs[0] {
        seq![start] + greedy_from(l, qs.drop_first(), start + 1)
    } else {
        greedy_from(l, qs, start + 1)
    }
}

/// Score of the gaps between consecutive matched positions.
pub open spec fn gap_score(ps: Seq<int>) -> int
    decreases ps.len(),
{
    if ps.len() < 2 {
        0
    } else {
        let prev = ps[ps.len() - 2];
        let next = ps.last();
        gap_score(ps.drop_last()) + if next == prev + 1 {
            400
        } else {
            -(next - prev) * 2
        }
    }
}

/// Score for containing the query as a substring at `pos`.
pub open spec fn contains_bonus(l: Seq<char>, pos: Option<int>) -> int {
    match pos {
        Some(p) => 20_000 + (if 5000 - p > 0 {
            5000 - p
        } else {
            0
        }) + (if p == 0 {
            8000int
        } else if word_boundary(l, p) {
            2000
        } else {
            0
        }),
        None => 0,
    }
}

/// The score of lower-cased label `l` against lower-cased, trimmed query `q`:
/// `None` when `q` is empty or neither a substring nor a subsequence of `l`.
pub open spec fn score_of(l: Seq<char>, q: Seq<char>) -> Option<int> {
    if q.len() == 0 {
        None
    } else {
        let pos = first_occurrence(l, q);
        let base = contains_bonus(l, pos);
        let ps = greedy_from(l, q, 0);
        if ps.len() != q.len() {
            if base > 0 {
                Some(base)
            } else {
                None
            }
        } else {
            Some(base + 2000 + start_bonus(l, ps) + gap_score(ps) + short_penalty(q, pos) + 500 - l.len())
        }
    }
}

/// Bonus for a subsequence match that starts the label or a word of it.
pub open spec fn start_bonus(l: Seq<char>, ps: Seq<int>) -> int {
    if ps[0] == 0 {
        1500
    } else if word_boundary(l, ps[0]) {
        500
    } else {
        0
    }
}

/// Penalty for a one- or two-character query that is no substring.
pub open spec fn short_penalty(q: Seq<char>, pos: Option<int>) -> int {
    if q.len() <= 2 && pos is None {
        -5000
    } else {
        0
    }
}

proof fn lemma_greedy_bounds(l: Seq<char>, qs: Seq<char>, start: int)
    ensures
        greedy_from(l, qs, start).len() <= qs.len(),
        forall|k: int|
            0 <= k < greedy_from(l, qs, start).len() ==> start <= #[trigger] greedy_from(l, qs, start)[k]
                < l.len(),
        forall|k: int|
            0 <= k < greedy_from(l, qs, start).len() - 1 ==> #[trigger] greedy_from(l, qs, start)[k]
                < greedy_from(l, qs, start)[k + 1],
    decreases l.len() - start,
{
    if qs.len() == 0 || start < 0 || start >= l.len() {
    } else if l[start] == qs[0] {
        lemma_greedy_bounds(l, qs.drop_first(), start + 1);
        let rest = greedy_from(l, qs.drop_first(), start + 1);
        let g = greedy_from(l, qs, start);
        assert(g == seq![start] + rest);
        assert forall|k: int| 0 <= k < g.len() - 1 implies #[trigger] g[k] < g[k + 1] by {
            if k > 0 {
                assert(g[k] == rest[k - 1]);
            }
            assert(g[k + 1] == rest[k]);
        }
        assert forall|k: int| 0 <= k < g.len() implies start <= #[trigger] g[k] < l.len() by {
            if k > 0 {
                assert(g[k] == rest[k - 1]);
            }
        }
    } else {
        lemma_greedy_bounds(l, qs, start + 1);
    }
}

/// The greedy positions of the characters of `q` in `l`.
fn greedy_positions(l: &Vec<char>, q: &Vec<char>) -> (r: Vec<usize>)
    ensures
        r@.map_values(|p: usize| p as int) == greedy_from(l@, q@, 0),
{
    let mut out: Vec<usize> = Vec::new();
    let mut qi: usize = 0;
    let mut i: usize = 0;
    assert(q@.subrange(0, q@.len() as int) =~= q@);
    while i < l.len() && qi < q.len()
        invariant
            i <= l@.len(),
            qi <= q@.len(),
            greedy_from(l@, q@, 0) == out@.map_values(|p: usize| p as int) + greedy_from(
                l@,
                q@.subrange(qi as int, q@.len() as int),
                i as int,
            ),
        decreases l@.len() - i,
    {
        let ghost qs = q@.subrange(qi as int, q@.len() as int);
        let ghost before = out@;
        if l[i] == q[qi] {
            out.push(i);
            proof {
                assert(qs.drop_first() =~= q@.subrange(qi + 1, q@.len() as int));
                assert(out@.map_values(|p: usize| p as int) =~= before.map_values(|p: usize| p as int)
                    + seq![i as int]);
            }
            qi = qi + 1;
        }
        i = i + 1;
    }
    proof {
        let qs = q@.subrange(qi as int, q@.len() as int);
        assert(greedy_from(l@, qs, i as int) =~= Seq::<int>::empty());
        assert(out@.map_values(|p: usize| p as int) + Seq::<int>::empty() =~= out@.map_values(
            |p: usize| p as int,
        ));
    }
    out
}

fn contains_score(l: &Vec<char>, q: &Vec<char>) -> (r: (i64, Option<usize>))
    requires
        l@.len() <= MAX_SCORED_LEN,
    ensures
        r.0 == contains_bonus(l@, first_occurrence(l@, q@)),
        0 <= r.0 <= 35_000,
        match r.1 {
            Some(i) => first_occurrence(l@, q@) == Some(i as int),
            None => first_occurrence(l@, q@) is None,
        },
{
    let mut score: i64 = 0;
    let contains_pos = find_first(l, q);
    match contains_pos {
        Some(pos) => {
            score = score + 20_000;
            if pos < 5000 {
                score = score + (5000 - pos as i64);
            }
            if pos == 0 {
                score = score + 8000;
            } else if is_word_boundary(l, pos) {
                score = score + 2000;
            }
        },
        None => {},
    }
    (score, contains_pos)
}

fn gap_total(l: &Vec<char>, ps: &Vec<usize>, gs: Ghost<Seq<int>>) -> (gap: i64)
    requires
        ps@.len() >= 1,
        ps@.len() == gs@.len(),
        l@.len() <= MAX_SCORED_LEN,
        ps@.len() <= MAX_SCORED_LEN,
        forall|m: int| 0 <= m < ps@.len() ==> #[trigger] gs@[m] == ps@[m] as int,
        forall|m: int| 0 <= m < gs@.len() ==> 0 <= #[trigger] gs@[m] < l@.len(),
        forall|m: int| 0 <= m < gs@.len() - 1 ==> #[trigger] gs@[m] < gs@[m + 1],
    ensures
        gap == gap_score(gs@),
        -2 * (l@.len() as int) <= gap <= 400 * (ps@.len() as int),
{
    let ghost gs = gs@;
    let mut gap: i64 = 0;
    let mut k: usize = 1;
    while k < ps.len()
        invariant
            1 <= k <= ps@.len(),
            ps@.len() == gs.len(),
            ps@.len() <= MAX_SCORED_LEN,
            forall|m: int| 0 <= m < ps@.len() ==> #[trigger] gs[m] == ps@[m] as int,
            forall|m: int| 0 <= m < gs.len() ==> 0 <= #[trigger] gs[m] < l@.len(),
            forall|m: int| 0 <= m < gs.len() - 1 ==> #[trigger] gs[m] < gs[m + 1],
            l@.len() <= MAX_SCORED_LEN,
            gap == gap_score(gs.subrange(0, k as int)),
            -2 * (gs[k - 1] - gs[0]) <= gap <= 400 * k,
        decreases ps@.len() - k,
    {
        let prev = ps[k - 1];
        let next = ps[k];
        assert(gs[k - 1] < gs[k as int]);
        proof {
            let sub = gs.subrange(0, k + 1);
            assert(sub.drop_last() =~= gs.subrange(0, k as int));
            assert(sub[sub.len() - 2] == gs[k - 1]);
            assert(sub.last() == gs[k as int]);
        }
        if next == prev + 1 {
            gap = gap + 400;
        } else {
            gap = gap - (next - prev) as i64 * 2;
        }
        k = k + 1;
    }
    assert(gs.subrange(0, ps@.len() as int) =~= gs);
    gap
}

/// The score of lower-cased label `l` against lower-cased query `q` (which
/// must already be trimmed).
pub fn fuzzy_score_lowered(l: &Vec<char>, q: &Vec<char>) -> (r: Option<i64>)
    requires
        l@.len() <= MAX_SCORED_LEN,
        q@.len() <= MAX_SCORED_LEN,
    ensures
        match r {
            Some(s) => score_of(l@, q@) == Some(s as int),
            None => score_of(l@, q@) is None,
        },
{
    if q.len() == 0 {
        return None;
    }
    let (mut score, contains_pos) = contains_score(l, q);
    let ps = greedy_positions(l, q);
    proof {
        lemma_greedy_bounds(l@, q@, 0);
    }
    let ghost gs = greedy_from(l@, q@, 0);
    assert(ps@.len() == gs.len());
    if ps.len() != q.len() {
        return if score > 0 {
            Some(score)
        } else {
            None
        };
    }
    let ghost base = score as int;
    score = score + 2000;
    assert(gs[0] == ps@[0] as int);
    if ps[0] == 0 {
        score = score + 1500;
    } else if is_word_boundary(l, ps[0]) {
        score = score + 500;
    }
    assert(score == base + 2000 + start_bonus(l@, gs));
    proof {
        assert forall|m: int| 0 <= m < ps@.len() implies #[trigger] gs[m] == ps@[m] as int by {
            assert(ps@.map_values(|p: usize| p as int)[m] == ps@[m] as int);
        }
    }
    let gap = gap_total(l, &ps, Ghost(gs));
    score = score + gap;
    if q.len() <= 2 && contains_pos.is_none() {
        score = score - 5000;
    }
    assert(score == base + 2000 + start_bonus(l@, gs) + gap_score(gs) + short_penalty(
        q@,
        first_occurrence(l@, q@),
    ));
    score = score + 500 - l.len() as i64;
    Some(score)
}

/// The score of `label` against `query`, both compared in lower case; the
/// query is trimmed first. Text longer than `MAX_SCORED_LEN` characters
/// after lower-casing is not scored.
pub fn fuzzy_score(label: &str, query: &str) -> (r: Option<i64>)
    ensures
        r matches Some(s) ==> label_score(label@, query@) == Some(s as int),
        r is None ==> label_score(label@, query@) is None,
{
    let q = trim_str(query);
    let ll = lowercase(label);
    let ql = lowercase(q.as_str());
    let lc = chars_of(ll.as_str());
    let qc = chars_of(ql.as_str());
    if qc.len() == 0 {
        return None;
    }
    if lc.len() > MAX_SCORED_LEN || qc.len() > MAX_SCORED_LEN {
        return None;
    }
    fuzzy_score_lowered(&lc, &qc)
}

/// The score that `fuzzy_score` gives, as a value of the specification.
pub open spec fn label_score(label: Seq<char>, query: Seq<char>) -> Option<int> {
    if lower_of(trim(query)).len() == 0 || lower_of(label).len() > MAX_SCORED_LEN || lower_of(trim(query)).len()
        > MAX_SCORED_LEN {
        None
    } else {
        score_of(lower_of(label), lower_of(trim(query)))
    }
}

/// Scored entry `a` ranks before `b`: higher score, then label order.
pub open spec fn ranks_before(a: (i64, usize, String), b: (i64, usize, String)) -> bool {
    a.0 > b.0 || (a.0 == b.0 && seq_le(a.2@, b.2@))
}

fn ranks_before_exec(a: &(i64, usize, String), b: &(i64, usize, String)) -> (r: bool)
    ensures
        r == ranks_before(*a, *b),
{
    a.0 > b.0 || (a.0 == b.0 && str_le(a.2.as_str(), b.2.as_str()))
}

proof fn lemma_ranks_total(a: (i64, usize, String), b: (i64, usize, String))
    ensures
        ranks_before(a, b) || ranks_before(b, a),
{
    crate::text::lemma_seq_le_total(a.2@, b.2@);
}

proof fn lemma_ranks_trans(a: (i64, usize, String), b: (i64, usize, String), c: (i64, usize, String))
    requires
        ranks_before(a, b),
        ranks_before(b, c),
    ensures
        ranks_before(a, c),
{
    if a.0 == b.0 && b.0 == c.0 {
        crate::text::lemma_seq_le_trans(a.2@, b.2@, c.2@);
    }
}

/// Scored entries, best first.
fn sort_scored(v: Vec<(i64, usize, String)>) -> (r: Vec<(i64, usize, String)>)
    ensures
        r@.to_multiset() == v@.to_multiset(),
        forall|i: int, j: int| 0 <= i < j < r@.len() ==> ranks_before(#[trigger] r@[i], #[trigger] r@[j]),
{
    let mut rest = v;
    let mut out: Vec<(i64, usize, String)> = Vec::new();
    assert(out@.to_multiset().add(rest@.to_multiset()) =~= v@.to_multiset());
    while rest.len() > 0
        invariant
            out@.to_multiset().add(rest@.to_multiset()) == v@.to_multiset(),
            forall|i: int, j: int|
                0 <= i < j < out@.len() ==> ranks_before(#[trigger] out@[i], #[trigger] out@[j]),
            forall|i: int, j: int|
                0 <= i < out@.len() && 0 <= j < rest@.len() ==> ranks_before(
                    #[trigger] out@[i],
                    #[trigger] rest@[j],
                ),
        decreases rest@.len(),
    {
        let mut m: usize = 0;
        let mut k: usize = 1;
        proof {
            crate::text::lemma_seq_le_refl(rest@[0].2@);
        }
        while k < rest.len()
            invariant
                0 < k <= rest@.len(),
                m < k,
                forall|j: int| 0 <= j < k ==> ranks_before(rest@[m as int], #[trigger] rest@[j]),
            decreases rest@.len() - k,
        {
            if !ranks_before_exec(&rest[m], &rest[k]) {
                proof {
                    lemma_ranks_total(rest@[m as int], rest@[k as int]);
                    crate::text::lemma_seq_le_refl(rest@[k as int].2@);
                    assert forall|j: int| 0 <= j < k + 1 implies ranks_before(
                        rest@[k as int],
                        #[trigger] rest@[j],
                    ) by {
                        if j < k {
                            lemma_ranks_trans(rest@[k as int], rest@[m as int], rest@[j]);
                        }
                    }
                }
                m = k;
            }
            k = k + 1;
        }
        let ghost before_rest = rest@;
        let ghost before_out = out@;
        let x = rest.remove(m);
        proof {
            assert(before_rest.remove(m as int).to_multiset() == before_rest.to_multiset().remove(x));
            assert(before_rest.to_multiset().count(x) > 0);
        }
        out.push(x);
        proof {
            assert(out@ == before_out.push(x));
            assert(out@.to_multiset().add(rest@.to_multiset()) =~= v@.to_multiset());
            assert forall|i: int, j: int| 0 <= i < j < out@.len() implies ranks_before(
                #[trigger] out@[i],
                #[trigger] out@[j],
            ) by {
                if j < out@.len() - 1 {
                    assert(out@[i] == before_out[i] && out@[j] == before_out[j]);
                } else {
                    assert(before_rest[m as int] == x);
                }
            }
            assert forall|i: int, j: int| 0 <= i < out@.len() && 0 <= j < rest@.len() implies ranks_before(
                #[trigger] out@[i],
                #[trigger] rest@[j],
            ) by {
                let jj = if j < m { j } else { j + 1 };
                assert(rest@[j] == before_rest[jj]);
                if i < out@.len() - 1 {
                    assert(out@[i] == before_out[i]);
                }
            }
        }
    }
    assert(out@.to_multiset() =~= v@.to_multiset());
    out
}

/// The indices of the labels that match `query`, best match first (ties in
/// label order). A blank query keeps every label, in order.
pub fn filter_item_indices(labels: &Vec<String>, query: &str) -> (r: Vec<usize>)
    ensures
        trim(query@).len() == 0 ==> r@ == Seq::new(labels@.len(), |i: int| i as usize),
        trim(query@).len() > 0 ==> (forall|i: int|
            0 <= i < labels@.len() ==> (r@.contains(i as usize) <==> label_score(
                #[trigger] labels@[i]@,
                query@,
            ) is Some)),
        trim(query@).len() > 0 ==> r@.no_duplicates(),
        trim(query@).len() > 0 ==> forall|a: int, b: int|
            0 <= a < b < r@.len() ==> label_score(labels@[r@[a] as int]@, query@)->0 > label_score(
                labels@[r@[b] as int]@,
                query@,
            )->0 || (label_score(labels@[r@[a] as int]@, query@)->0 == label_score(
                labels@[r@[b] as int]@,
                query@,
            )->0 && seq_le(#[trigger] labels@[r@[a] as int]@, #[trigger] labels@[r@[b] as int]@)),
{
    if is_blank(query) {
        let mut all: Vec<usize> = Vec::new();
        let mut i: usize = 0;
        while i < labels.len()
            invariant
                i <= labels@.len(),
                all@ == Seq::new(i as nat, |k: int| k as usize),
            decreases labels@.len() - i,
        {
            all.push(i);
            i = i + 1;
            assert(all@ =~= Seq::new(i as nat, |k: int| k as usize));
        }
        return all;
    }
    let mut scored: Vec<(i64, usize, String)> = Vec::new();
    let mut i: usize = 0;
    while i < labels.len()
        invariant
            i <= labels@.len(),
            trim(query@).len() > 0,
            forall|k: int|
                0 <= k < scored@.len() ==> (#[trigger] scored@[k]).1 < i && scored@[k].2@
                    == labels@[scored@[k].1 as int]@ && label_score(scored@[k].2@, query@) == Some(
                    scored@[k].0 as int,
                ),
            forall|k: int, m: int| 0 <= k < m < scored@.len() ==> (#[trigger] scored@[k]).1 < (
            #[trigger] scored@[m]).1,
            forall|j: int|
                0 <= j < i ==> (label_score(#[trigger] labels@[j]@, query@) is Some <==> exists|k: int|
                    0 <= k < scored@.len() && scored@[k].1 == j),
        decreases labels@.len() - i,
    {
        let label = labels[i].clone();
        let s = fuzzy_score(label.as_str(), query);
        let ghost before = scored@;
        match s {
            Some(score) => {
                scored.push((score, i, label));
                proof {
                    assert forall|j: int| 0 <= j < i + 1 implies (label_score(
                        #[trigger] labels@[j]@,
                        query@,
                    ) is Some <==> exists|k: int| 0 <= k < scored@.len() && scored@[k].1 == j) by {
                        if j < i {
                            if label_score(labels@[j]@, query@) is Some {
                                let k = choose|k: int| 0 <= k < before.len() && before[k].1 == j;
                                assert(scored@[k] == before[k]);
                            }
                            if exists|k: int| 0 <= k < scored@.len() && scored@[k].1 == j {
                                let k = choose|k: int| 0 <= k < scored@.len() && scored@[k].1 == j;
                                assert(k < before.len());
                                assert(scored@[k] == before[k]);
                            }
                        } else {
                            assert(scored@[before.len() as int].1 == j);
                        }
                    }
                }
            },
            None => {
                proof {
                    assert forall|j: int| 0 <= j < i + 1 implies (label_score(
                        #[trigger] labels@[j]@,
                        query@,
                    ) is Some <==> exists|k: int| 0 <= k < scored@.len() && scored@[k].1 == j) by {
                        if j == i {
                            if exists|k: int| 0 <= k < scored@.len() && scored@[k].1 == j {
                                let k = choose|k: int| 0 <= k < scored@.len() && scored@[k].1 == j;
                                assert(scored@[k].1 < i);
                            }
                        }
                    }
                }
            },
        }
        i = i + 1;
    }
    let ghost unsorted = scored@;
    let sorted = sort_scored(scored);
    let mut out: Vec<usize> = Vec::new();
    let mut k: usize = 0;
    proof {
        assert forall|m: int| 0 <= m < sorted@.len() implies unsorted.contains(#[trigger] sorted@[m]) by {
            assert(sorted@.to_multiset().count(sorted@[m]) > 0);
        }
        assert forall|m: int| 0 <= m < unsorted.len() implies sorted@.contains(#[trigger] unsorted[m]) by {
            assert(unsorted.to_multiset().count(unsorted[m]) > 0);
        }
    }
    while k < sorted.len()
        invariant
            k <= sorted@.len(),
            out@ == sorted@.subrange(0, k as int).map_values(|e: (i64, usize, String)| e.1),
        decreases sorted@.len() - k,
    {
        out.push(sorted[k].1);
        k = k + 1;
        assert(out@ =~= sorted@.subrange(0, k as int).map_values(|e: (i64, usize, String)| e.1));
    }
    proof {
        assert(sorted@.subrange(0, sorted@.len() as int) =~= sorted@);
        assert(out@ == sorted@.map_values(|e: (i64, usize, String)| e.1));
        assert(unsorted.no_duplicates()) by {
            assert forall|a: int, b: int| 0 <= a < unsorted.len() && 0 <= b < unsorted.len() && a != b implies unsorted[a] != unsorted[b] by {
                if a < b {
                    assert(unsorted[a].1 < unsorted[b].1);
                } else {
                    assert(unsorted[b].1 < unsorted[a].1);
                }
            }
        }
        unsorted.lemma_multiset_has_no_duplicates();
        sorted@.lemma_multiset_has_no_duplicates_conv();
        assert forall|m: int| 0 <= m < sorted@.len() implies (#[trigger] sorted@[m]).2@ == labels@[sorted@[m].1 as int]@
            && label_score(sorted@[m].2@, query@) == Some(sorted@[m].0 as int) && sorted@[m].1 < labels@.len() by {
            assert(unsorted.contains(sorted@[m]));
            let x = choose|x: int| 0 <= x < unsorted.len() && unsorted[x] == sorted@[m];
            assert(unsorted[x] == sorted@[m]);
        }
        assert(out@.no_duplicates()) by {
            assert forall|a: int, b: int| 0 <= a < out@.len() && 0 <= b < out@.len() && a != b implies out@[a] != out@[b] by {
                if out@[a] == out@[b] {
                    assert(unsorted.contains(sorted@[a]));
                    assert(unsorted.contains(sorted@[b]));
                    let x = choose|x: int| 0 <= x < unsorted.len() && unsorted[x] == sorted@[a];
                    let y = choose|y: int| 0 <= y < unsorted.len() && unsorted[y] == sorted@[b];
                    if x < y {
                        assert(unsorted[x].1 < unsorted[y].1);
                    } else if y < x {
                        assert(unsorted[y].1 < unsorted[x].1);
                    }
                }
            }
        }
        assert forall|i: int| 0 <= i < labels@.len() implies (out@.contains(i as usize) <==> label_score(
            #[trigger] labels@[i]@,
            query@,
        ) is Some) by {
            if label_score(labels@[i]@, query@) is Some {
                let k = choose|k: int| 0 <= k < unsorted.len() && unsorted[k].1 == i;
                assert(sorted@.contains(unsorted[k]));
                let m = choose|m: int| 0 <= m < sorted@.len() && sorted@[m] == unsorted[k];
                assert(out@[m] == i as usize);
            }
            if out@.contains(i as usize) {
                let m = choose|m: int| 0 <= m < out@.len() && out@[m] == i as usize;
                assert(sorted@[m].1 == i as usize);
            }
        }
        assert forall|a: int, b: int| 0 <= a < b < out@.len() implies label_score(labels@[out@[a] as int]@, query@)->0 > label_score(
                labels@[out@[b] as int]@,
                query@,
            )->0 || (label_score(labels@[out@[a] as int]@, query@)->0 == label_score(
                labels@[out@[b] as int]@,
                query@,
            )->0 && seq_le(#[trigger] labels@[out@[a] as int]@, #[trigger] labels@[out@[b] as int]@)) by {
            assert(ranks_before(sorted@[a], sorted@[b]));
            assert(out@[a] == sorted@[a].1 && out@[b] == sorted@[b].1);
        }
    }
    out
}

} // verus!

verus! {

/// The item after `current` in a list of `len`, wrapping to the first; the
/// first item when nothing is selected.
pub fn next_index(current: Option<usize>, len: usize) -> (r: usize)
    ensures
        len == 0 ==> r == 0,
        len > 0 ==> r == match current {
            Some(i) => ((i as int + 1) % (len as int)) as usize,
            None => 0usize,
        },
{
    if len == 0 {
        return 0;
    }
    match current {
        Some(idx) => ((idx as u128 + 1) % (len as u128)) as usize,
        None => 0,
    }
}

/// The item before `current`, wrapping to the last; the first item when
/// nothing is selected.
pub fn previous_index(current: Option<usize>, len: usize) -> (r: usize)
    ensures
        len == 0 ==> r == 0,
        len > 0 ==> r == match current {
            Some(i) => if i == 0 {
                (len - 1) as usize
            } else {
                (i - 1) as usize
            },
            None => 0usize,
        },
{
    if len == 0 {
        return 0;
    }
    match current {
        Some(idx) => if idx == 0 {
            len - 1
        } else {
            idx - 1
        },
        None => 0,
    }
}

/// The tabs of the picker, in display order.
#[derive(Debug, Clone, Copy, PartialEq, Eq, Structural)]
pub enum BrowseTab {
    Theme,
    Waybar,
    Starship,
    Review,
    Presets,
}

pub open spec fn tab_position(tab: BrowseTab) -> usize {
    match tab {
        BrowseTab::Theme => 0,
        BrowseTab::Waybar => 1,
        BrowseTab::Starship => 2,
        BrowseTab::Review => 3,
        BrowseTab::Presets => 4,
    }
}

pub fn tab_index(tab: BrowseTab) -> (r: usize)
    ensures
        r == tab_position(tab),
        r < 5,
{
    match tab {
        BrowseTab::Theme => 0,
        BrowseTab::Waybar => 1,
        BrowseTab::Starship => 2,
        BrowseTab::Review => 3,
        BrowseTab::Presets => 4,
    }
}

/// The tab at a position; positions past the end select the last tab.
pub fn tab_from_index(index: usize) -> (r: BrowseTab)
    ensures
        index < 5 ==> tab_position(r) == index,
        index >= 5 ==> r == BrowseTab::Presets,
{
    match index {
        0 => BrowseTab::Theme,
        1 => BrowseTab::Waybar,
        2 => BrowseTab::Starship,
        3 => BrowseTab::Review,
        _ => BrowseTab::Presets,
    }
}

pub fn next_tab(tab: BrowseTab) -> (r: BrowseTab)
    ensures
        tab_position(r) == (tab_position(tab) + 1) % 5,
{
    tab_from_index((tab_index(tab) + 1) % 5)
}

pub fn previous_tab(tab: BrowseTab) -> (r: BrowseTab)
    ensures
        tab_position(r) == (tab_position(tab) + 4) % 5,
{
    tab_from_index((tab_index(tab) + 4) % 5)
}

/// The tab whose column range `[start, end]` holds `column`, the first such.
pub fn tab_index_from_click(ranges: &Vec<(u16, u16, usize)>, column: u16) -> (r: Option<usize>)
    ensures
        match r {
            Some(t) => exists|i: int|
                0 <= i < ranges@.len() && ranges@[i].0 <= column <= ranges@[i].1 && ranges@[i].2 == t
                    && forall|j: int| 0 <= j < i ==> !((#[trigger] ranges@[j]).0 <= column <= ranges@[j].1),
            None => forall|j: int| 0 <= j < ranges@.len() ==> !((#[trigger] ranges@[j]).0 <= column <= ranges@[j].1),
        },
{
    let mut i: usize = 0;
    while i < ranges.len()
        invariant
            i <= ranges@.len(),
            forall|j: int| 0 <= j < i ==> !((#[trigger] ranges@[j]).0 <= column <= ranges@[j].1),
        decreases ranges@.len() - i,
    {
        let (start, end, idx) = ranges[i];
        if column >= start && column <= end {
            return Some(idx);
        }
        i = i + 1;
    }
    None
}

/// The picker key (kind, value) of a preset's waybar selection.
pub fn preset_waybar_key(preset: &PresetDefinition) -> (r: Option<(String, String)>)
    ensures
        r matches Some(k) && match preset.waybar {
            PresetWaybarValue::Keep => k.0@ == "none"@ && k.1@ == "none"@,
            PresetWaybarValue::Auto => k.0@ == "theme"@ && k.1@ == "theme"@,
            PresetWaybarValue::Named(n) => k.0@ == "named"@ && k.1@ == n@,
        },
{
    match &preset.waybar {
        PresetWaybarValue::Keep => Some((copy_str("none"), copy_str("none"))),
        PresetWaybarValue::Auto => Some((copy_str("theme"), copy_str("theme"))),
        PresetWaybarValue::Named(name) => Some((copy_str("named"), name.clone())),
    }
}

/// The picker key (kind, value) of a preset's starship selection.
pub fn preset_starship_key(preset: &PresetDefinition) -> (r: Option<(String, String)>)
    ensures
        r matches Some(k) && match preset.starship {
            PresetStarshipValue::Keep => k.0@ == "none"@ && k.1@ == "none"@,
            PresetStarshipValue::Theme => k.0@ == "theme"@ && k.1@ == "theme"@,
            PresetStarshipValue::Preset(n) => k.0@ == "preset"@ && k.1@ == n@,
            PresetStarshipValue::Named(n) => k.0@ == "named"@ && k.1@ == n@,
        },
{
    match &preset.starship {
        PresetStarshipValue::Keep => Some((copy_str("none"), copy_str("none"))),
        PresetStarshipValue::Theme => Some((copy_str("theme"), copy_str("theme"))),
        PresetStarshipValue::Preset(name) => Some((copy_str("preset"), name.clone())),
        PresetStarshipValue::Named(name) => Some((copy_str("named"), name.clone())),
    }
}

/// A list title, with its status in brackets when there is one.
pub fn build_list_title(title: &str, status: Option<&str>) -> (r: String)
    ensures
        r@ == match status {
            Some(st) => title@ + "  ["@ + st@ + "]"@,
            None => title@,
        },
{
    match status {
        Some(st) => {
            let mut out = copy_str(title);
            out.append("  [");
            out.append(st);
            out.append("]");
            out
        },
        None => copy_str(title),
    }
}

/// An entry of a picker list: what is shown, what it stands for, its kind.
#[derive(Debug, Clone)]
pub struct LabeledItem {
    pub label: String,
    pub value: String,
    pub kind: String,
    pub preview: Option<String>,
}

/// A plain entry of a picker list.
#[derive(Debug, Clone)]
pub struct OptionItem {
    pub label: String,
    pub value: String,
    pub preview: Option<String>,
}

impl OptionItem {
    /// A labelled item of the given kind.
    pub fn with_kind(label: String, value: String, kind: &str, preview: Option<String>) -> (r:
        LabeledItem)
        ensures
            r.label == label && r.value == value && r.kind@ == kind@ && r.preview == preview,
    {
        LabeledItem { label, value, kind: copy_str(kind), preview }
    }
}

/// A preset entry of the picker.
#[derive(Debug, Clone)]
pub struct PresetItem {
    pub label: String,
    pub name: String,
}

/// One picker item per saved preset, in name order.
pub fn build_preset_items(file: &PresetFile) -> (r: Vec<PresetItem>)
    ensures
        r@.len() == file.preset@.len(),
        forall|i: int| 0 <= i < r@.len() ==> (#[trigger] r@[i]).label@ == r@[i].name@,
        forall|i: int, j: int| 0 <= i < j < r@.len() ==> seq_le(#[trigger] r@[i].name@, #[trigger] r@[j].name@),
        r@.map_values(|p: PresetItem| p.name).to_multiset() == crate::presets::preset_names(*file).to_multiset(),
{
    let names = crate::presets::list_preset_names(file);
    let mut out: Vec<PresetItem> = Vec::new();
    let mut i: usize = 0;
    while i < names.len()
        invariant
            i <= names@.len(),
            out@.len() == i,
            forall|k: int| 0 <= k < i ==> (#[trigger] out@[k]).name == names@[k],
            forall|k: int| 0 <= k < out@.len() ==> (#[trigger] out@[k]).label@ == out@[k].name@,
        decreases names@.len() - i,
    {
        let name = names[i].clone();
        out.push(PresetItem { label: name.clone(), name });
        i = i + 1;
    }
    proof {
        assert(out@.map_values(|p: PresetItem| p.name) =~= names@);
        assert(names@.len() == crate::presets::preset_names(*file).len()) by {
            assert(names@.to_multiset().len() == crate::presets::preset_names(*file).to_multiset().len());
        }
    }
    out
}

} // verus!

verus! {

/// The picker's choice for the status bar.
#[derive(Debug, Clone)]
pub enum WaybarSelection {
    UseDefaults,
    Keep,
    Auto,
    Named(String),
}

/// The picker's choice for the shell prompt.
#[derive(Debug, Clone)]
pub enum StarshipSelection {
    UseDefaults,
    Keep,
    Preset(String),
    Named(String),
    Theme(String),
}

/// What the picker hands to the apply engine.
#[derive(Debug, Clone)]
pub struct BrowseSelection {
    pub theme: String,
    pub waybar: WaybarSelection,
    pub starship: StarshipSelection,
}

/// The status bar selection that a picker choice denotes.
pub fn waybar_selection_mode(sel: WaybarSelection, cfg: &crate::config::WaybarConfig) -> (r: (
    crate::modes::WaybarMode,
    Option<String>,
))
    ensures
        sel is Keep ==> r == (crate::modes::WaybarMode::Keep, None::<String>),
        sel is Auto ==> r == (crate::modes::WaybarMode::Auto, None::<String>),
        sel is Named ==> r == (crate::modes::WaybarMode::Named, Some(sel->Named_0)),
        sel is UseDefaults ==> ({
            let a = crate::modes::word_is(cfg.default_mode, "auto"@);
            let n = crate::modes::word_is(cfg.default_mode, "named"@);
            &&& a ==> r == (crate::modes::WaybarMode::Auto, None::<String>)
            &&& !a && n ==> r == (crate::modes::WaybarMode::Named, cfg.default_name)
            &&& !a && !n ==> r == (crate::modes::WaybarMode::Keep, None::<String>)
        }),
{
    match sel {
        WaybarSelection::UseDefaults => crate::modes::waybar_from_defaults(cfg),
        WaybarSelection::Keep => (crate::modes::WaybarMode::Keep, None),
        WaybarSelection::Auto => (crate::modes::WaybarMode::Auto, None),
        WaybarSelection::Named(n) => (crate::modes::WaybarMode::Named, Some(n)),
    }
}

/// The shell prompt selection that a picker choice denotes.
pub fn starship_selection_mode(sel: StarshipSelection, cfg: &crate::config::StarshipConfig) -> (r:
    crate::modes::StarshipMode)
    ensures
        sel is UseDefaults ==> r == crate::modes::starship_defaults(*cfg),
        sel is Keep ==> r is Keep,
        sel is Preset ==> r == (crate::modes::StarshipMode::Preset { preset: sel->Preset_0 }),
        sel is Named ==> r == (crate::modes::StarshipMode::Named { name: sel->Named_0 }),
        sel is Theme ==> r == (crate::modes::StarshipMode::Theme { path: Some(sel->Theme_0) }),
{
    match sel {
        StarshipSelection::UseDefaults => crate::modes::starship_from_defaults(cfg),
        StarshipSelection::Keep => crate::modes::StarshipMode::Keep,
        StarshipSelection::Preset(p) => crate::modes::StarshipMode::Preset { preset: p },
        StarshipSelection::Named(n) => crate::modes::StarshipMode::Named { name: n },
        StarshipSelection::Theme(path) => crate::modes::StarshipMode::Theme { path: Some(path) },
    }
}

} // verus!

verus! {

/// A prompt rendering without the `\[` and `\]` markers around escapes.
pub fn strip_prompt_markers(input: &str) -> (r: String)
    ensures
        r@ == crate::text::replace_all(
            crate::text::replace_all(input@, "\\["@, Seq::empty()),
            "\\]"@,
            Seq::empty(),
        ),
{
    proof {
        reveal_strlit("\\[");
        reveal_strlit("\\]");
        reveal_strlit("");
        assert(""@ =~= Seq::<char>::empty());
    }
    let a = crate::text::replace_str(input, "\\[", "");
    let r = crate::text::replace_str(a.as_str(), "\\]", "");
    r
}

} // verus!
