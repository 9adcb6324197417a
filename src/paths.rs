//! Theme names: normalization of user input and display titles.
use vstd::prelude::*;
use crate::text::{ascii_upper, chars_of, lower_of, lowercase, push_char, string_of_range, trim, trim_str, upper_ascii};

verus! {

/// `s` with every `<...>` span removed; `in_tag` says whether a `<` is open.
pub open spec fn strip_tags_from(s: Seq<char>, in_tag: bool) -> Seq<char>
    decreases s.len(),
{
    if s.len() == 0 {
        Seq::empty()
    } else if s[0] == '<' {
        strip_tags_from(s.drop_first(), true)
    } else if s[0] == '>' {
        strip_tags_from(s.drop_first(), false)
    } else if in_tag {
        strip_tags_from(s.drop_first(), true)
    } else {
        seq![s[0]] + strip_tags_from(s.drop_first(), false)
    }
}

/// `s` without markup: the characters outside any `<...>` span.
pub open spec fn strip_tags(s: Seq<char>) -> Seq<char> {
    strip_tags_from(s, false)
}

/// `s` with each space turned into a hyphen.
pub open spec fn hyphenate(s: Seq<char>) -> Seq<char> {
    s.map_values(|c: char| if c == ' ' { '-' } else { c })
}

/// The normalized form of a theme name as typed by a user.
pub open spec fn normalized_name(s: Seq<char>) -> Seq<char> {
    hyphenate(lower_of(trim(strip_tags(s))))
}

/// The characters of `input` outside any `<...>` span.
pub fn strip_markup(input: &str) -> (r: String)
    ensures
        r@ == strip_tags(input@),
{
    let v = chars_of(input);
    let n = v.len();
    let mut out = String::new();
    let mut in_tag = false;
    let mut i: usize = 0;
    assert(v@.subrange(0, n as int) =~= v@);
    while i < n
        invariant
            n == v@.len(),
            v@ == input@,
            i <= n,
            strip_tags(input@) == out@ + strip_tags_from(v@.subrange(i as int, n as int), in_tag),
        decreases n - i,
    {
        let ch = v[i];
        let ghost t = v@.subrange(i as int, n as int);
        assert(t[0] == ch);
        assert(t.drop_first() =~= v@.subrange(i + 1, n as int));
        if ch == '<' {
            in_tag = true;
        } else if ch == '>' {
            in_tag = false;
        } else if !in_tag {
            let ghost before = out@;
            push_char(&mut out, ch);
            assert(before + (seq![ch] + strip_tags_from(t.drop_first(), false)) =~= out@
                + strip_tags_from(t.drop_first(), false));
        }
        i = i + 1;
    }
    assert(out@ + strip_tags_from(Seq::<char>::empty(), in_tag) =~= out@);
    assert(v@.subrange(n as int, n as int) =~= Seq::<char>::empty());
    out
}

/// `s` with each space turned into a hyphen.
pub fn hyphenate_spaces(s: &str) -> (r: String)
    ensures
        r@ == hyphenate(s@),
{
    let v = chars_of(s);
    let mut out = String::new();
    let mut i: usize = 0;
    while i < v.len()
        invariant
            v@ == s@,
            i <= v@.len(),
            out@ == hyphenate(s@.subrange(0, i as int)),
        decreases v@.len() - i,
    {
        let c = v[i];
        push_char(&mut out, if c == ' ' { '-' } else { c });
        i = i + 1;
        assert(out@ =~= hyphenate(s@.subrange(0, i as int)));
    }
    assert(s@.subrange(0, v@.len() as int) =~= s@);
    out
}

/// The theme name that `input` denotes: markup dropped, trimmed, lower-cased,
/// spaces turned into hyphens.
pub fn normalize_theme_name(input: &str) -> (r: String)
    ensures
        r@ == normalized_name(input@),
{
    let stripped = strip_markup(input);
    let trimmed = trim_str(stripped.as_str());
    let lowered = lowercase(trimmed.as_str());
    hyphenate_spaces(lowered.as_str())
}

/// Number of characters before the first `-` of `s` (all of them if none).
pub open spec fn dash_at(s: Seq<char>) -> nat
    decreases s.len(),
{
    if s.len() == 0 {
        0
    } else if s[0] == '-' {
        0
    } else {
        1 + dash_at(s.drop_first())
    }
}

/// One word of a title: first character upper-cased (ASCII), the rest lower-cased.
pub open spec fn title_word(w: Seq<char>) -> Seq<char> {
    if w.len() == 0 {
        Seq::empty()
    } else {
        seq![upper_ascii(w[0])] + lower_of(w.drop_first())
    }
}

/// The display title of a hyphenated theme name: each `-`-separated word
/// title-cased, words joined by single spaces.
pub open spec fn title_of(s: Seq<char>) -> Seq<char>
    decreases s.len(),
{
    let k = dash_at(s);
    if k < s.len() {
        title_word(s.subrange(0, k as int)) + seq![' '] + title_of(s.subrange(k as int + 1, s.len() as int))
    } else {
        title_word(s)
    }
}

/// The display title of a theme name (`tokyo-night` -> `Tokyo Night`).
pub fn title_case_theme(name: &str) -> (r: String)
    ensures
        r@ == title_of(name@),
{
    let v = chars_of(name);
    let n = v.len();
    let mut out = String::new();
    let mut pos: usize = 0;
    assert(v@.subrange(0, n as int) =~= v@);
    loop
        invariant
            n == v@.len(),
            v@ == name@,
            pos <= n,
            title_of(name@) == out@ + title_of(v@.subrange(pos as int, n as int)),
        decreases n - pos,
    {
        let ghost t = v@.subrange(pos as int, n as int);
        let mut j: usize = pos;
        while j < n && v[j] != '-'
            invariant
                n == v@.len(),
                pos <= j <= n,
                t == v@.subrange(pos as int, n as int),
                dash_at(t) == (j - pos) + dash_at(v@.subrange(j as int, n as int)),
            decreases n - j,
        {
            let ghost u = v@.subrange(j as int, n as int);
            assert(u.drop_first() =~= v@.subrange(j + 1, n as int));
            j = j + 1;
        }
        proof {
            if j < n {
                assert(v@.subrange(j as int, n as int)[0] == '-');
            } else {
                assert(v@.subrange(j as int, n as int).len() == 0);
            }
            assert(dash_at(t) == j - pos);
            assert(t.subrange(0, (j - pos) as int) =~= v@.subrange(pos as int, j as int));
        }
        let ghost before = out@;
        if j > pos {
            push_char(&mut out, ascii_upper(v[pos]));
            let rest = string_of_range(&v, pos + 1, j);
            let low = lowercase(rest.as_str());
            out.append(low.as_str());
            proof {
                let w = v@.subrange(pos as int, j as int);
                assert(w.drop_first() =~= v@.subrange(pos + 1, j as int));
                assert(out@ =~= before + title_word(w));
            }
        } else {
            assert(out@ =~= before + title_word(v@.subrange(pos as int, j as int)));
        }
        if j == n {
            assert(title_of(t) == title_word(t));
            assert(t =~= v@.subrange(pos as int, j as int));
            return out;
        }
        push_char(&mut out, ' ');
        proof {
            assert(t.subrange((j - pos) + 1, t.len() as int) =~= v@.subrange(j + 1, n as int));
            assert(title_of(name@) == out@ + title_of(v@.subrange(j + 1, n as int)));
        }
        pos = j + 1;
    }
}

} // verus!

verus! {

/// `s` ends with `suf`.
pub open spec fn ends_with(s: Seq<char>, suf: Seq<char>) -> bool {
    suf.len() <= s.len() && s.subrange(s.len() - suf.len(), s.len() as int) == suf
}

/// `s` without every trailing `/`.
pub open spec fn trim_slashes(s: Seq<char>) -> Seq<char>
    decreases s.len(),
{
    if s.len() > 0 && s.last() == '/' {
        trim_slashes(s.drop_last())
    } else {
        s
    }
}

/// What follows the last `/` of `s` (all of `s` when it has none).
pub open spec fn last_segment(s: Seq<char>) -> Seq<char>
    decreases s.len(),
{
    if s.len() == 0 || s.last() == '/' {
        Seq::empty()
    } else {
        last_segment(s.drop_last()).push(s.last())
    }
}

/// `s` without every trailing repetition of the non-empty `suf`.
pub open spec fn trim_suffixes(s: Seq<char>, suf: Seq<char>) -> Seq<char>
    decreases s.len(),
{
    if suf.len() > 0 && ends_with(s, suf) {
        trim_suffixes(s.subrange(0, s.len() - suf.len()), suf)
    } else {
        s
    }
}

/// `s` without the prefix `p`, if it has it.
pub open spec fn without_prefix(s: Seq<char>, p: Seq<char>) -> Seq<char> {
    if p.len() <= s.len() && s.subrange(0, p.len() as int) == p {
        s.subrange(p.len() as int, s.len() as int)
    } else {
        s
    }
}

/// `s` without the suffix `suf`, if it has it.
pub open spec fn without_suffix(s: Seq<char>, suf: Seq<char>) -> Seq<char> {
    if ends_with(s, suf) {
        s.subrange(0, s.len() - suf.len())
    } else {
        s
    }
}

/// The theme name a repository URL gives: its last path segment without
/// `.git`, an `omarchy-` prefix and a `-theme` suffix.
pub open spec fn repo_name(url: Seq<char>) -> Seq<char> {
    without_suffix(
        without_prefix(trim_suffixes(last_segment(trim_slashes(url)), ".git"@), "omarchy-"@),
        "-theme"@,
    )
}

fn ends_with_at(v: &Vec<char>, len: usize, suf: &Vec<char>) -> (r: bool)
    requires
        len <= v@.len(),
    ensures
        r == ends_with(v@.subrange(0, len as int), suf@),
{
    if suf.len() > len {
        return false;
    }
    let start = len - suf.len();
    let mut k: usize = 0;
    while k < suf.len()
        invariant
            start + suf@.len() == len,
            len <= v@.len(),
            k <= suf@.len(),
            forall|m: int| 0 <= m < k ==> v@[start + m] == suf@[m],
        decreases suf@.len() - k,
    {
        if v[start + k] != suf[k] {
            assert(v@.subrange(0, len as int).subrange(start as int, len as int)[k as int] != suf@[k as int]);
            return false;
        }
        k = k + 1;
    }
    assert(v@.subrange(0, len as int).subrange(start as int, len as int) =~= suf@);
    true
}

/// The theme name for a repository URL (`.../omarchy-nord-theme.git` -> `nord`).
pub fn derive_repo_name(git_url: &str) -> (r: String)
    ensures
        r@ == repo_name(git_url@),
{
    let v = chars_of(git_url);
    let mut end: usize = v.len();
    assert(v@.subrange(0, end as int) =~= v@);
    while end > 0 && v[end - 1] == '/'
        invariant
            end <= v@.len(),
            trim_slashes(git_url@) == trim_slashes(v@.subrange(0, end as int)),
        decreases end,
    {
        assert(v@.subrange(0, end as int).drop_last() =~= v@.subrange(0, end - 1));
        end = end - 1;
    }
    let ghost t = v@.subrange(0, end as int);
    assert(trim_slashes(git_url@) == t);
    let mut start: usize = end;
    assert(v@.subrange(end as int, end as int) =~= Seq::<char>::empty());
    while start > 0 && v[start - 1] != '/'
        invariant
            start <= end <= v@.len(),
            t == v@.subrange(0, end as int),
            last_segment(t) == last_segment(v@.subrange(0, start as int)) + v@.subrange(start as int, end as int),
        decreases start,
    {
        let ghost u = v@.subrange(0, start as int);
        assert(u.drop_last() =~= v@.subrange(0, start - 1));
        assert(last_segment(u) == last_segment(u.drop_last()).push(u.last()));
        assert(last_segment(u.drop_last()).push(u.last()) + v@.subrange(start as int, end as int) =~= last_segment(
            v@.subrange(0, start - 1),
        ) + v@.subrange(start - 1, end as int));
        start = start - 1;
    }
    assert(last_segment(v@.subrange(0, start as int)) =~= Seq::<char>::empty());
    assert(last_segment(t) =~= v@.subrange(start as int, end as int));
    let git = chars_of(".git");
    proof {
        reveal_strlit(".git");
    }
    let mut stop: usize = end;
    assert(v@.subrange(start as int, stop as int) =~= v@.subrange(0, stop as int).subrange(start as int, stop as int));
    while stop - start >= 4 && ends_with_at(&v, stop, &git)
        invariant
            start <= stop <= end,
            end <= v@.len(),
            git@ == ".git"@,
            git@.len() == 4,
            trim_suffixes(last_segment(t), ".git"@) == trim_suffixes(v@.subrange(start as int, stop as int), ".git"@),
        decreases stop,
    {
        let ghost seg = v@.subrange(start as int, stop as int);
        assert(ends_with(seg, ".git"@)) by {
            assert(v@.subrange(0, stop as int).subrange(stop - 4, stop as int) =~= seg.subrange(seg.len() - 4, seg.len() as int));
        }
        assert(seg.subrange(0, seg.len() - 4) =~= v@.subrange(start as int, stop - 4));
        stop = stop - 4;
    }
    proof {
        let seg = v@.subrange(start as int, stop as int);
        if seg.len() >= 4 {
            assert(v@.subrange(0, stop as int).subrange(stop - 4, stop as int) =~= seg.subrange(seg.len() - 4, seg.len() as int));
        }
        assert(trim_suffixes(seg, ".git"@) == seg);
    }
    let base = string_of_range(&v, start, stop);
    let b = chars_of(base.as_str());
    let pre = chars_of("omarchy-");
    let n1 = if crate::text::starts_with_chars(&b, &pre) {
        string_of_range(&b, pre.len(), b.len())
    } else {
        string_of_range(&b, 0, b.len())
    };
    proof {
        assert(b@.subrange(0, b@.len() as int) =~= b@);
        if pre@.len() <= b@.len() && b@.subrange(0, pre@.len() as int) == pre@ {
            assert(crate::text::occurs_at(b@, pre@, 0));
        }
    }
    let c = chars_of(n1.as_str());
    let suf = chars_of("-theme");
    let has = ends_with_at(&c, c.len(), &suf);
    assert(c@.subrange(0, c@.len() as int) =~= c@);
    if has {
        string_of_range(&c, 0, c.len() - suf.len())
    } else {
        string_of_range(&c, 0, c.len())
    }
}

} // verus!
