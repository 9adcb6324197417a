//! Reconciling live config paths with a selection: the decisions taken on
//! what one lookup finds at a path, and the laws they obey on a model of a
//! directory.
use vstd::prelude::*;
use crate::text::{chars_of, copy_str, push_char, str_eq, string_of_range, trim, trim_str};

verus! {

broadcast use vstd::string::group_string_axioms;

/// What one lookup that does not follow symlinks finds at a path.
#[derive(Debug, Clone)]
pub enum EntryKind {
    Absent,
    Symlink { target: String },
    File,
    Dir,
}

/// A filesystem node, as the laws see it.
pub enum Node {
    Absent,
    Link(Seq<char>),
    File(Seq<u8>),
    Dir,
}

/// `k` is what a lookup reports for node `n`.
pub open spec fn reports(k: EntryKind, n: Node) -> bool {
    match (k, n) {
        (EntryKind::Absent, Node::Absent) => true,
        (EntryKind::Symlink { target }, Node::Link(t)) => target@ == t,
        (EntryKind::File, Node::File(_)) => true,
        (EntryKind::Dir, Node::Dir) => true,
        _ => false,
    }
}

// ---------------------------------------------------------------------------
// Default aliases: make a path a symlink to a target, never over user content

#[derive(Debug, Clone, Copy, PartialEq, Eq, Structural)]
pub enum SymlinkEnsureResult {
    Created,
    Updated,
    Unchanged,
    SkippedNonSymlink,
}

/// What ensuring `target` at a path holding `n` reports.
pub open spec fn ensure_outcome(n: Node, target: Seq<char>) -> SymlinkEnsureResult {
    match n {
        Node::Absent => SymlinkEnsureResult::Created,
        Node::Link(t) => if t == target {
            SymlinkEnsureResult::Unchanged
        } else {
            SymlinkEnsureResult::Updated
        },
        _ => SymlinkEnsureResult::SkippedNonSymlink,
    }
}

/// The node at the path once `target` is ensured there.
pub open spec fn ensure_effect(n: Node, target: Seq<char>) -> Node {
    match n {
        Node::Absent => Node::Link(target),
        Node::Link(_) => Node::Link(target),
        other => other,
    }
}

/// Decides how to make the path inspected as `current` a symlink to `target`:
/// create it when absent, repoint a symlink that points elsewhere, leave a
/// correct symlink alone, and never touch anything that is not a symlink.
pub fn ensure_symlink(current: &EntryKind, target: &str) -> (r: SymlinkEnsureResult)
    ensures
        forall|n: Node| reports(*current, n) ==> r == ensure_outcome(n, target@),
{
    match current {
        EntryKind::Absent => SymlinkEnsureResult::Created,
        EntryKind::Symlink { target: t } => {
            if str_eq(t.as_str(), target) {
                SymlinkEnsureResult::Unchanged
            } else {
                SymlinkEnsureResult::Updated
            }
        },
        _ => SymlinkEnsureResult::SkippedNonSymlink,
    }
}

/// Ensuring a default alias twice leaves the path as once, and the second
/// call changes nothing: it reports the link unchanged, or the user's own
/// entry skipped.
pub proof fn lemma_ensure_symlink_idempotent(n: Node, target: Seq<char>)
    ensures
        ensure_effect(ensure_effect(n, target), target) == ensure_effect(n, target),
        ensure_outcome(ensure_effect(n, target), target) == SymlinkEnsureResult::Unchanged
            || ensure_outcome(ensure_effect(n, target), target)
            == SymlinkEnsureResult::SkippedNonSymlink,
        ensure_outcome(n, target) == SymlinkEnsureResult::SkippedNonSymlink ==> ensure_effect(
            n,
            target,
        ) == n,
{
}

// ---------------------------------------------------------------------------
// Backup-and-replace

/// What to do with a path that is about to be replaced.
#[derive(Debug, Clone, Copy, PartialEq, Eq, Structural)]
pub enum ReplaceAction {
    /// Nothing is there.
    Nothing,
    /// A symlink left by an earlier apply: remove it.
    Unlink,
    /// Something the user made: move it into the backup area.
    MoveToBackup,
}

pub open spec fn replace_step(n: Node) -> ReplaceAction {
    match n {
        Node::Absent => ReplaceAction::Nothing,
        Node::Link(_) => ReplaceAction::Unlink,
        _ => ReplaceAction::MoveToBackup,
    }
}

/// Decides what to do with a path, as inspected, before it is replaced.
pub fn replace_existing_path(current: &EntryKind) -> (r: ReplaceAction)
    ensures
        forall|n: Node| reports(*current, n) ==> r == replace_step(n),
{
    match current {
        EntryKind::Absent => ReplaceAction::Nothing,
        EntryKind::Symlink { .. } => ReplaceAction::Unlink,
        _ => ReplaceAction::MoveToBackup,
    }
}

/// A directory tree after `dest` is replaced, with `backup` as the place a
/// user's entry is moved to.
pub open spec fn after_replace(fs: Map<Seq<char>, Node>, dest: Seq<char>, backup: Seq<char>) -> Map<
    Seq<char>,
    Node,
> {
    if !fs.contains_key(dest) {
        fs
    } else {
        match replace_step(fs[dest]) {
            ReplaceAction::Nothing => fs,
            ReplaceAction::Unlink => fs.remove(dest),
            ReplaceAction::MoveToBackup => fs.remove(dest).insert(backup, fs[dest]),
        }
    }
}

/// Replacing a regular file never loses it: afterwards its bytes are at the
/// backup path, and the destination is free for the new entry.
pub proof fn lemma_replace_keeps_user_file(
    fs: Map<Seq<char>, Node>,
    dest: Seq<char>,
    backup: Seq<char>,
    content: Seq<u8>,
)
    requires
        fs.contains_key(dest),
        fs[dest] == Node::File(content),
        dest != backup,
    ensures
        after_replace(fs, dest, backup).contains_key(backup),
        after_replace(fs, dest, backup)[backup] == Node::File(content),
        !after_replace(fs, dest, backup).contains_key(dest),
{
}

/// The decimal digit `d`.
pub open spec fn digit_char(d: nat) -> char {
    if d == 0 {
        '0'
    } else if d == 1 {
        '1'
    } else if d == 2 {
        '2'
    } else if d == 3 {
        '3'
    } else if d == 4 {
        '4'
    } else if d == 5 {
        '5'
    } else if d == 6 {
        '6'
    } else if d == 7 {
        '7'
    } else if d == 8 {
        '8'
    } else {
        '9'
    }
}

/// The decimal form of `n`.
pub open spec fn decimal(n: nat) -> Seq<char>
    decreases n,
{
    if n < 10 {
        seq![digit_char(n)]
    } else {
        decimal(n / 10) + seq![digit_char(n % 10)]
    }
}

fn digit(d: u64) -> (c: char)
    requires
        d < 10,
    ensures
        c == digit_char(d as nat),
{
    if d == 0 {
        '0'
    } else if d == 1 {
        '1'
    } else if d == 2 {
        '2'
    } else if d == 3 {
        '3'
    } else if d == 4 {
        '4'
    } else if d == 5 {
        '5'
    } else if d == 6 {
        '6'
    } else if d == 7 {
        '7'
    } else if d == 8 {
        '8'
    } else {
        '9'
    }
}

/// Appends the decimal form of `n` to `out`.
pub fn push_decimal(out: &mut String, n: u64)
    ensures
        final(out)@ == old(out)@ + decimal(n as nat),
    decreases n,
{
    if n >= 10 {
        push_decimal(out, n / 10);
    }
    push_char(out, digit(n % 10));
    proof {
        if n >= 10 {
            assert(final(out)@ =~= old(out)@ + decimal(n as nat));
        } else {
            assert(final(out)@ =~= old(out)@ + decimal(n as nat));
        }
    }
}

/// `a/b`.
pub open spec fn join(a: Seq<char>, b: Seq<char>) -> Seq<char> {
    a + "/"@ + b
}

/// The path `a/b`.
pub fn join_path(a: &str, b: &str) -> (r: String)
    ensures
        r@ == join(a@, b@),
{
    let mut out = copy_str(a);
    out.append("/");
    out.append(b);
    out
}

/// The backup area of one apply run inside `themes_dir`: the one this run
/// already uses, else `existing`, or `existing-<stamp>` if that is taken.
pub fn ensure_backup_dir(themes_dir: &str, cached: &Option<String>, base_exists: bool, stamp: u64) -> (r:
    String)
    ensures
        cached matches Some(c) ==> r@ == c@,
        cached is None && !base_exists ==> r@ == join(themes_dir@, "existing"@),
        cached is None && base_exists ==> r@ == join(
            themes_dir@,
            "existing-"@ + decimal(stamp as nat),
        ),
{
    match cached {
        Some(c) => c.clone(),
        None => {
            if base_exists {
                let mut name = copy_str("existing-");
                push_decimal(&mut name, stamp);
                join_path(themes_dir, name.as_str())
            } else {
                join_path(themes_dir, "existing")
            }
        },
    }
}

/// Where a replaced entry `name` goes inside backup area `dir`: `dir/name`,
/// or `dir/name-<stamp>` when that is taken.
pub fn unique_backup_target(dir: &str, name: &str, candidate_exists: bool, stamp: u64) -> (r: String)
    ensures
        !candidate_exists ==> r@ == join(dir@, name@),
        candidate_exists ==> r@ == join(dir@, name@ + "-"@ + decimal(stamp as nat)),
{
    if !candidate_exists {
        return join_path(dir, name);
    }
    let mut n = copy_str(name);
    n.append("-");
    push_decimal(&mut n, stamp);
    join_path(dir, n.as_str())
}

// ---------------------------------------------------------------------------
// The managed-link manifest

/// Number of characters before the first line break of `s` (all if none).
pub open spec fn line_end(s: Seq<char>) -> nat
    decreases s.len(),
{
    if s.len() == 0 || s[0] == '\n' {
        0
    } else {
        1 + line_end(s.drop_first())
    }
}

/// The entry names a manifest text records: its lines, trimmed, blank ones
/// skipped.
pub open spec fn manifest_names(s: Seq<char>) -> Seq<Seq<char>>
    decreases s.len(),
{
    if s.len() == 0 {
        Seq::empty()
    } else {
        let k = line_end(s);
        let t = trim(s.subrange(0, k as int));
        let rest = if k < s.len() {
            s.subrange(k as int + 1, s.len() as int)
        } else {
            Seq::empty()
        };
        (if t.len() > 0 {
            seq![t]
        } else {
            Seq::empty()
        }) + manifest_names(rest)
    }
}

/// The names recorded in a manifest's text.
pub fn parse_manifest(content: &str) -> (r: Vec<String>)
    ensures
        r@.map_values(|x: String| x@) == manifest_names(content@),
{
    let v = chars_of(content);
    let n = v.len();
    let mut out: Vec<String> = Vec::new();
    let mut pos: usize = 0;
    assert(v@.subrange(0, n as int) =~= v@);
    while pos < n
        invariant
            n == v@.len(),
            v@ == content@,
            pos <= n,
            manifest_names(content@) == out@.map_values(|x: String| x@) + manifest_names(
                v@.subrange(pos as int, n as int),
            ),
        decreases n - pos,
    {
        let ghost t = v@.subrange(pos as int, n as int);
        let mut j: usize = pos;
        while j < n && v[j] != '\n'
            invariant
                n == v@.len(),
                pos <= j <= n,
                t == v@.subrange(pos as int, n as int),
                line_end(t) == (j - pos) + line_end(v@.subrange(j as int, n as int)),
            decreases n - j,
        {
            let ghost u = v@.subrange(j as int, n as int);
            assert(u.drop_first() =~= v@.subrange(j + 1, n as int));
            j = j + 1;
        }
        proof {
            if j < n {
                assert(v@.subrange(j as int, n as int)[0] == '\n');
            }
            assert(line_end(t) == j - pos);
            assert(t.subrange(0, (j - pos) as int) =~= v@.subrange(pos as int, j as int));
        }
        let line = string_of_range(&v, pos, j);
        let name = trim_str(line.as_str());
        let ghost before = out@;
        if name.as_str().unicode_len() > 0 {
            out.push(name);
        }
        let next = if j < n {
            j + 1
        } else {
            n
        };
        proof {
            let rest = if j < n {
                t.subrange((j - pos) + 1, t.len() as int)
            } else {
                Seq::<char>::empty()
            };
            assert(rest =~= v@.subrange(next as int, n as int));
            assert(out@.map_values(|x: String| x@) =~= before.map_values(|x: String| x@) + (if name@.len() > 0 {
                seq![name@]
            } else {
                Seq::<Seq<char>>::empty()
            }));
        }
        pos = next;
    }
    assert(manifest_names(v@.subrange(n as int, n as int)) =~= Seq::<Seq<char>>::empty());
    assert(out@.map_values(|x: String| x@) + Seq::<Seq<char>>::empty() =~= out@.map_values(|x: String| x@));
    out
}

/// The manifest text for `names`: one per line.
pub open spec fn manifest_text(names: Seq<Seq<char>>) -> Seq<char>
    decreases names.len(),
{
    if names.len() == 0 {
        Seq::empty()
    } else {
        manifest_text(names.drop_last()) + names.last() + seq!['\n']
    }
}

/// The manifest text that records `names`.
pub fn format_manifest(names: &Vec<String>) -> (r: String)
    ensures
        r@ == manifest_text(names@.map_values(|x: String| x@)),
{
    let mut out = String::new();
    let mut i: usize = 0;
    while i < names.len()
        invariant
            i <= names@.len(),
            out@ == manifest_text(names@.subrange(0, i as int).map_values(|x: String| x@)),
        decreases names@.len() - i,
    {
        out.append(names[i].as_str());
        push_char(&mut out, '\n');
        proof {
            let next = names@.subrange(0, i + 1).map_values(|x: String| x@);
            assert(next.drop_last() =~= names@.subrange(0, i as int).map_values(|x: String| x@));
        }
        i = i + 1;
    }
    assert(names@.subrange(0, names@.len() as int) =~= names@);
    out
}

/// The two files of a bundle that are linked on their own, not as entries.
pub open spec fn is_marker(name: Seq<char>) -> bool {
    name == "config.jsonc"@ || name == "style.css"@
}

fn is_marker_exec(name: &str) -> (r: bool)
    ensures
        r == is_marker(name@),
{
    str_eq(name, "config.jsonc") || str_eq(name, "style.css")
}

/// `name` is a directory entry of the listing.
pub open spec fn listed_dir(entries: Seq<(String, bool)>, name: Seq<char>) -> bool {
    exists|j: int| 0 <= j < entries.len() && entries[j].1 && entries[j].0@ == name
}

/// The entries of a bundle directory that are linked or copied one by one:
/// its directories (`is_dir`, following symlinks), without the marker files.
pub fn subdir_entries(entries: &Vec<(String, bool)>) -> (r: Vec<String>)
    ensures
        forall|i: int| 0 <= i < r@.len() ==> !is_marker(#[trigger] r@[i]@),
        forall|i: int| 0 <= i < r@.len() ==> listed_dir(entries@, (#[trigger] r@[i])@),
        forall|j: int|
            0 <= j < entries@.len() && (#[trigger] entries@[j]).1 && !is_marker(entries@[j].0@)
                ==> r@.map_values(|x: String| x@).contains(entries@[j].0@),
{
    let mut out: Vec<String> = Vec::new();
    let mut i: usize = 0;
    while i < entries.len()
        invariant
            i <= entries@.len(),
            forall|k: int| 0 <= k < out@.len() ==> !is_marker(#[trigger] out@[k]@),
            forall|k: int| 0 <= k < out@.len() ==> listed_dir(entries@, (#[trigger] out@[k])@),
            forall|j: int|
                0 <= j < i && (#[trigger] entries@[j]).1 && !is_marker(entries@[j].0@)
                    ==> out@.map_values(|x: String| x@).contains(entries@[j].0@),
        decreases entries@.len() - i,
    {
        let ghost before = out@;
        if entries[i].1 && !is_marker_exec(entries[i].0.as_str()) {
            out.push(entries[i].0.clone());
            proof {
                assert(out@.map_values(|x: String| x@) =~= before.map_values(|x: String| x@).push(entries@[i as int].0@));
                assert forall|k: int| 0 <= k < out@.len() implies listed_dir(entries@, (#[trigger] out@[k])@) by {
                    if k < before.len() {
                        assert(out@[k] == before[k]);
                    } else {
                        assert(entries@[i as int].1);
                    }
                }
                assert forall|j: int| 0 <= j < i + 1 && (#[trigger] entries@[j]).1 && !is_marker(entries@[j].0@) implies out@.map_values(|x: String| x@).contains(entries@[j].0@) by {
                    if j < i {
                        let bv = before.map_values(|x: String| x@);
                        assert(bv.contains(entries@[j].0@));
                        let k = choose|k: int| 0 <= k < bv.len() && #[trigger] bv[k] == entries@[j].0@;
                        assert(out@.map_values(|x: String| x@)[k] == entries@[j].0@);
                    } else {
                        assert(out@.map_values(|x: String| x@)[before.len() as int] == entries@[j].0@);
                    }
                }
            }
        }
        i = i + 1;
    }
    out
}

/// Whether an entry named in the previous manifest is removed: only while it
/// is still a symlink.
pub fn is_stale_link(current: &EntryKind) -> (r: bool)
    ensures
        forall|n: Node| reports(*current, n) ==> (r <==> n is Link),
{
    match current {
        EntryKind::Symlink { .. } => true,
        _ => false,
    }
}

/// A live config directory after the links of the previous manifest are removed.
pub open spec fn after_cleanup(dir: Map<Seq<char>, Node>, manifest: Seq<Seq<char>>) -> Map<
    Seq<char>,
    Node,
> {
    Map::new(
        |k: Seq<char>| dir.contains_key(k) && !(manifest.contains(k) && dir[k] is Link),
        |k: Seq<char>| dir[k],
    )
}

/// A live config directory after each entry of `subdirs` is replaced by a
/// symlink into bundle `src` (a user's entry there goes to the backup area).
pub open spec fn after_linking(dir: Map<Seq<char>, Node>, subdirs: Seq<Seq<char>>, src: Seq<char>) -> Map<
    Seq<char>,
    Node,
> {
    Map::new(
        |k: Seq<char>| dir.contains_key(k) || subdirs.contains(k),
        |k: Seq<char>|
            if subdirs.contains(k) {
                Node::Link(join(src, k))
            } else {
                dir[k]
            },
    )
}

/// The entries of a live config directory that are symlinks, marker files aside.
pub open spec fn linked_entries(dir: Map<Seq<char>, Node>) -> Set<Seq<char>> {
    Set::new(|k: Seq<char>| dir.contains_key(k) && dir[k] is Link && !is_marker(k))
}

/// Switching bundles leaves exactly the new bundle's entries linked: when every
/// linked entry of the directory was recorded by the previous manifest, then
/// after the cleanup and the new links the linked entries are the new ones.
pub proof fn lemma_manifest_switch(
    dir: Map<Seq<char>, Node>,
    manifest: Seq<Seq<char>>,
    subdirs: Seq<Seq<char>>,
    src: Seq<char>,
)
    requires
        forall|k: Seq<char>| #[trigger] linked_entries(dir).contains(k) ==> manifest.contains(k),
        forall|i: int| 0 <= i < subdirs.len() ==> !is_marker(#[trigger] subdirs[i]),
    ensures
        linked_entries(after_linking(after_cleanup(dir, manifest), subdirs, src)) == subdirs.to_set(),
{
    let after = after_linking(after_cleanup(dir, manifest), subdirs, src);
    assert forall|k: Seq<char>| linked_entries(after).contains(k) <==> subdirs.to_set().contains(k) by {
        if subdirs.contains(k) {
            let i = choose|i: int| 0 <= i < subdirs.len() && subdirs[i] == k;
            assert(!is_marker(subdirs[i]));
        }
        if linked_entries(after).contains(k) && !subdirs.contains(k) {
            assert(linked_entries(dir).contains(k));
        }
    }
    assert(linked_entries(after) =~= subdirs.to_set());
}

} // verus!

verus! {

proof fn lemma_line_end_of_line(line: Seq<char>, rest: Seq<char>)
    requires
        !line.contains('\n'),
    ensures
        line_end(line + seq!['\n'] + rest) == line.len(),
    decreases line.len(),
{
    let s = line + seq!['\n'] + rest;
    if line.len() > 0 {
        assert(s[0] == line[0]);
        assert(s.drop_first() =~= line.drop_first() + seq!['\n'] + rest);
        assert(!line.drop_first().contains('\n')) by {
            if line.drop_first().contains('\n') {
                let k = choose|k: int| 0 <= k < line.drop_first().len() && line.drop_first()[k] == '\n';
                assert(line[k + 1] == '\n');
            }
        }
        lemma_line_end_of_line(line.drop_first(), rest);
    } else {
        assert(s[0] == '\n');
    }
}

proof fn lemma_manifest_first_line(line: Seq<char>, rest: Seq<char>)
    requires
        !line.contains('\n'),
    ensures
        manifest_names(line + seq!['\n'] + rest) == (if trim(line).len() > 0 {
            seq![trim(line)]
        } else {
            Seq::empty()
        }) + manifest_names(rest),
{
    let s = line + seq!['\n'] + rest;
    lemma_line_end_of_line(line, rest);
    assert(s.subrange(0, line.len() as int) =~= line);
    assert(s.subrange(line.len() as int + 1, s.len() as int) =~= rest);
}

/// `s` is empty or ends with a line break.
pub open spec fn whole_lines(s: Seq<char>) -> bool {
    s.len() == 0 || s.last() == '\n'
}

/// Names that a manifest line gives back unchanged: not blank, no line break,
/// no surrounding white space.
pub open spec fn plain_name(n: Seq<char>) -> bool {
    n.len() > 0 && !n.contains('\n') && trim(n) == n
}

proof fn lemma_manifest_text_shape(names: Seq<Seq<char>>)
    ensures
        whole_lines(manifest_text(names)),
    decreases names.len(),
{
    if names.len() > 0 {
        lemma_manifest_text_shape(names.drop_last());
    }
}

proof fn lemma_manifest_concat(a: Seq<char>, b: Seq<char>)
    requires
        whole_lines(a),
    ensures
        manifest_names(a + b) == manifest_names(a) + manifest_names(b),
    decreases a.len(),
{
    if a.len() == 0 {
        assert(a + b =~= b);
        assert(manifest_names(a) =~= Seq::<Seq<char>>::empty());
        assert(manifest_names(a) + manifest_names(b) =~= manifest_names(b));
    } else {
        let k = line_end(a);
        assert(k <= a.len()) by {
            lemma_line_end_le(a);
        }
        let line = a.subrange(0, k as int);
        assert(k < a.len()) by {
            lemma_line_end_le(a);
            if k == a.len() {
                assert(a[a.len() - 1] == '\n');
            }
        }
        let rest = a.subrange(k as int + 1, a.len() as int);
        assert(!line.contains('\n')) by {
            lemma_line_end_le(a);
        }
        assert(a =~= line + seq!['\n'] + rest) by {
            lemma_line_end_le(a);
        }
        assert(a + b =~= line + seq!['\n'] + (rest + b));
        lemma_manifest_first_line(line, rest + b);
        lemma_manifest_first_line(line, rest);
        assert(whole_lines(rest));
        lemma_manifest_concat(rest, b);
        let o = if trim(line).len() > 0 {
            seq![trim(line)]
        } else {
            Seq::<Seq<char>>::empty()
        };
        assert(o + (manifest_names(rest) + manifest_names(b)) =~= (o + manifest_names(rest)) + manifest_names(b));
    }
}

proof fn lemma_line_end_le(s: Seq<char>)
    ensures
        line_end(s) <= s.len(),
        line_end(s) < s.len() ==> s[line_end(s) as int] == '\n',
        forall|k: int| 0 <= k < line_end(s) ==> s[k] != '\n',
    decreases s.len(),
{
    if s.len() > 0 && s[0] != '\n' {
        lemma_line_end_le(s.drop_first());
        assert forall|k: int| 0 <= k < line_end(s) implies s[k] != '\n' by {
            if k > 0 {
                assert(s[k] == s.drop_first()[k - 1]);
            }
        }
    }
}

/// The manifest written for a list of plain names reads back as that list.
pub proof fn lemma_manifest_round_trip(names: Seq<Seq<char>>)
    requires
        forall|i: int| 0 <= i < names.len() ==> plain_name(#[trigger] names[i]),
    ensures
        manifest_names(manifest_text(names)) == names,
    decreases names.len(),
{
    if names.len() == 0 {
        assert(manifest_names(Seq::<char>::empty()) =~= Seq::<Seq<char>>::empty());
        assert(names =~= Seq::<Seq<char>>::empty());
    } else {
        let init = names.drop_last();
        let last = names.last();
        assert(plain_name(names[names.len() - 1]));
        assert forall|i: int| 0 <= i < init.len() implies plain_name(#[trigger] init[i]) by {
            assert(init[i] == names[i]);
        }
        lemma_manifest_round_trip(init);
        lemma_manifest_text_shape(init);
        let tail = last + seq!['\n'];
        assert(manifest_text(names) == manifest_text(init) + last + seq!['\n']);
        assert(manifest_text(init) + last + seq!['\n'] =~= manifest_text(init) + tail);
        lemma_manifest_concat(manifest_text(init), tail);
        assert(tail =~= last + seq!['\n'] + Seq::<char>::empty());
        lemma_manifest_first_line(last, Seq::<char>::empty());
        assert(manifest_names(Seq::<char>::empty()) =~= Seq::<Seq<char>>::empty());
        assert(manifest_names(tail) =~= seq![last]);
        assert(init + seq![last] =~= names);
    }
}

} // verus!
