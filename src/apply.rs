//! Applying a theme: validating the requested entry, choosing the next theme
//! or background, and the order of the steps of one apply.
use vstd::prelude::*;
use crate::reconcile::{join, join_path, EntryKind};
use crate::text::{chars_of, copy_str, eq_ascii_ci, eq_ignore_ascii_case, str_eq, string_of_range, trim, trim_str};

verus! {

broadcast use vstd::string::group_string_axioms;

/// The position after the first entry equal to `current`, wrapping to the
/// start; the start when `current` is absent or not listed.
pub open spec fn next_position(entries: Seq<String>, current: Option<Seq<char>>) -> int {
    match current {
        Some(c) => if exists|i: int| 0 <= i < entries.len() && entries[i]@ == c {
            let i = choose|i: int|
                0 <= i < entries.len() && entries[i]@ == c && forall|j: int|
                    0 <= j < i ==> entries[j]@ != c;
            (i + 1) % (entries.len() as int)
        } else {
            0
        },
        None => 0,
    }
}

/// The index that `next_position` names.
pub fn next_position_index(entries: &Vec<String>, current: Option<&str>) -> (r: usize)
    requires
        entries@.len() > 0,
    ensures
        r as int == next_position(
            entries@,
            match current {
                Some(c) => Some(c@),
                None => None,
            },
        ),
        r < entries@.len(),
{
    match current {
        None => 0,
        Some(c) => {
            let mut i: usize = 0;
            while i < entries.len()
                invariant
                    i <= entries@.len(),
                    current == Some(c),
                    forall|j: int| 0 <= j < i ==> entries@[j]@ != c@,
                decreases entries@.len() - i,
            {
                if str_eq(entries[i].as_str(), c) {
                    proof {
                        assert(0 <= i < entries@.len() && entries@[i as int]@ == c@ && forall|j: int|
                            0 <= j < i ==> entries@[j]@ != c@);
                        let w = choose|w: int|
                            0 <= w < entries@.len() && entries@[w]@ == c@ && forall|j: int|
                                0 <= j < w ==> entries@[j]@ != c@;
                        if w < i {
                            assert(entries@[w]@ != c@);
                        }
                        if w > i {
                            assert(entries@[i as int]@ != c@);
                        }
                        assert(w == i);
                        assert(next_position(entries@, Some(c@)) == (i + 1) % (entries@.len() as int));
                        assert(current == Some(c));
                        let len = entries@.len() as int;
                        let k = i as int + 1;
                        if k < len {
                            vstd::arithmetic::div_mod::lemma_small_mod(k as nat, len as nat);
                            assert(k % len == k);
                        } else {
                            vstd::arithmetic::div_mod::lemma_mod_self_0(len);
                            assert(k % len == 0);
                        }
                    }
                    return if i + 1 == entries.len() {
                        0
                    } else {
                        i + 1
                    };
                }
                i = i + 1;
            }
            0
        },
    }
}

/// The theme after `current` in the sorted list of themes, wrapping round;
/// the first theme when there is no current theme or it is not listed.
pub fn next_theme(entries: &Vec<String>, current: Option<&str>) -> (r: String)
    requires
        entries@.len() > 0,
    ensures
        r == entries@[next_position(
            entries@,
            match current {
                Some(c) => Some(c@),
                None => None,
            },
        )],
{
    let i = next_position_index(entries, current);
    entries[i].clone()
}

// ---------------------------------------------------------------------------
// Validating the requested theme

/// Why a theme cannot be applied.
#[derive(Debug, Clone)]
pub enum ThemeError {
    /// The theme entry is a symlink whose target is gone.
    BrokenLink { path: String },
    /// No theme of that name; `requested` is the name as typed, kept when it
    /// differs from the normalized one.
    NotFound { name: String, requested: Option<String> },
    /// There are no themes at all.
    NoThemes,
}

impl ThemeError {
    /// The message shown to the user.
    pub fn message(&self) -> (r: String)
        ensures
            match self {
                ThemeError::BrokenLink { path } => r@ == "theme symlink is broken: "@ + path@,
                ThemeError::NotFound { name, requested: None } => r@ == "theme not found: "@ + name@,
                ThemeError::NotFound { name, requested: Some(q) } => r@ == "theme not found: "@ + name@
                    + " (from '"@ + q@ + "')"@,
                ThemeError::NoThemes => r@ == "no themes available"@,
            },
    {
        match self {
            ThemeError::BrokenLink { path } => {
                let mut m = copy_str("theme symlink is broken: ");
                m.append(path.as_str());
                m
            },
            ThemeError::NotFound { name, requested } => {
                let mut m = copy_str("theme not found: ");
                m.append(name.as_str());
                match requested {
                    Some(q) => {
                        m.append(" (from '");
                        m.append(q.as_str());
                        m.append("')");
                    },
                    None => {},
                }
                m
            },
            ThemeError::NoThemes => copy_str("no themes available"),
        }
    }
}

/// The message for a dangling theme symlink names the problem: it contains
/// `broken`, and it differs from every "not found" message.
pub proof fn lemma_broken_link_message_distinct(path: Seq<char>, name: Seq<char>, requested: Option<Seq<char>>)
    ensures
        crate::subsystems::contains_seq("theme symlink is broken: "@ + path, "broken"@),
        ("theme symlink is broken: "@ + path) != (match requested {
            Some(q) => "theme not found: "@ + name + " (from '"@ + q + "')"@,
            None => "theme not found: "@ + name,
        }),
{
    reveal_strlit("theme symlink is broken: ");
    reveal_strlit("broken");
    reveal_strlit("theme not found: ");
    let m = "theme symlink is broken: "@ + path;
    assert(m.subrange(17, 23) =~= "broken"@);
    assert(crate::text::occurs_at(m, "broken"@, 17));
    let other = match requested {
        Some(q) => "theme not found: "@ + name + " (from '"@ + q + "')"@,
        None => "theme not found: "@ + name,
    };
    assert(m[6] == 's');
    assert(other[6] == 'n');
}

/// Checks the theme entry `path`, named `name` after normalizing `requested`,
/// as one lookup found it; `dangling` says whether a symlink there leads
/// nowhere. A dangling symlink and a missing entry give different errors.
pub fn validate_theme_entry(
    requested: &str,
    name: &str,
    path: &str,
    kind: &EntryKind,
    dangling: bool,
) -> (r: Result<(), ThemeError>)
    ensures
        kind is Symlink && dangling ==> (r matches Err(ThemeError::BrokenLink { path: p }) && p@
            == path@),
        kind is Symlink && !dangling ==> r is Ok,
        kind is Dir ==> r is Ok,
        (kind is Absent || kind is File) ==> (r matches Err(ThemeError::NotFound { name: n, requested: q })
            && n@ == name@ && (name@ == requested@ ==> q is None) && (name@ != requested@ ==> (q matches Some(x) && x@ == requested@))),
{
    match kind {
        EntryKind::Symlink { .. } => {
            if dangling {
                Err(ThemeError::BrokenLink { path: copy_str(path) })
            } else {
                Ok(())
            }
        },
        EntryKind::Dir => Ok(()),
        _ => {
            let requested_note = if str_eq(name, requested) {
                None
            } else {
                Some(copy_str(requested))
            };
            Err(ThemeError::NotFound { name: copy_str(name), requested: requested_note })
        },
    }
}

// ---------------------------------------------------------------------------
// The steps of one apply

/// A step of applying a theme, in the order they run.
#[derive(Debug, Clone, Copy, PartialEq, Eq, Structural)]
pub enum SetStep {
    /// Start the wallpaper-transition helper if configured (best effort).
    EnsureDaemon,
    /// Copy the theme's tree into the staging directory.
    Stage,
    /// Run the template-rendering hook on the staged copy.
    RenderTemplates,
    /// Replace the live current-theme directory with the staged one.
    Swap,
    /// Record the theme's name beside the live directory.
    WriteName,
    /// Run the per-subsystem appliers.
    ApplySubsystems,
    /// Cycle the wallpaper.
    Background,
    /// Send reload signals and run collected restart actions.
    Reload,
    /// Run the post-apply hook (best effort).
    Hook,
    /// Everything ran.
    Done,
    /// A fatal step failed; nothing more runs.
    Aborted,
}

/// How a step ended, as the one running it reports.
#[derive(Debug, Clone, Copy, PartialEq, Eq, Structural)]
pub enum StepOutcome {
    Succeeded,
    /// An optional tool is not installed.
    ToolMissing,
    Failed,
}

/// A failure of this step ends the whole apply.
pub open spec fn fatal_step(s: SetStep) -> bool {
    s == SetStep::Stage || s == SetStep::RenderTemplates || s == SetStep::Swap || s
        == SetStep::WriteName || s == SetStep::ApplySubsystems
}

/// The step after `s`, when nothing fails and no step is skipped.
pub open spec fn following(s: SetStep, skip_apps: bool, skip_hook: bool) -> SetStep {
    match s {
        SetStep::EnsureDaemon => SetStep::Stage,
        SetStep::Stage => SetStep::RenderTemplates,
        SetStep::RenderTemplates => SetStep::Swap,
        SetStep::Swap => SetStep::WriteName,
        SetStep::WriteName => if skip_apps {
            if skip_hook {
                SetStep::Done
            } else {
                SetStep::Hook
            }
        } else {
            SetStep::ApplySubsystems
        },
        SetStep::ApplySubsystems => SetStep::Background,
        SetStep::Background => SetStep::Reload,
        SetStep::Reload => if skip_hook {
            SetStep::Done
        } else {
            SetStep::Hook
        },
        SetStep::Hook => SetStep::Done,
        SetStep::Done => SetStep::Done,
        SetStep::Aborted => SetStep::Aborted,
    }
}

/// The step after `step` ended with `outcome`.
pub open spec fn transition(step: SetStep, outcome: StepOutcome, skip_apps: bool, skip_hook: bool) -> SetStep {
    if step == SetStep::Aborted {
        SetStep::Aborted
    } else if step == SetStep::Done {
        SetStep::Done
    } else if outcome == StepOutcome::Failed && fatal_step(step) {
        SetStep::Aborted
    } else if outcome == StepOutcome::ToolMissing && fatal_step(step) && step != SetStep::RenderTemplates {
        SetStep::Aborted
    } else {
        following(step, skip_apps, skip_hook)
    }
}

/// The step to run after `step` ended with `outcome`. A fatal step that
/// fails aborts the apply; a missing template tool is only warned about;
/// every other step is best effort.
pub fn next_set_step(step: SetStep, outcome: StepOutcome, skip_apps: bool, skip_hook: bool) -> (r:
    SetStep)
    ensures
        r == transition(step, outcome, skip_apps, skip_hook),
        step == SetStep::Aborted ==> r == SetStep::Aborted,
        step == SetStep::Done ==> r == SetStep::Done,
        step != SetStep::Aborted && step != SetStep::Done && outcome == StepOutcome::Failed
            && fatal_step(step) ==> r == SetStep::Aborted,
        step == SetStep::RenderTemplates && outcome == StepOutcome::ToolMissing ==> r == SetStep::Swap,
        step != SetStep::Aborted && step != SetStep::Done && (outcome == StepOutcome::Succeeded || !fatal_step(step)) ==> r == following(
            step,
            skip_apps,
            skip_hook,
        ),
        step != SetStep::Aborted && step != SetStep::Done && outcome == StepOutcome::ToolMissing
            && step != SetStep::Stage && step != SetStep::Swap && step != SetStep::WriteName
            && step != SetStep::ApplySubsystems ==> r == following(step, skip_apps, skip_hook),
{
    let fatal = match step {
        SetStep::Stage | SetStep::Swap | SetStep::WriteName | SetStep::ApplySubsystems => match outcome {
            StepOutcome::Succeeded => false,
            _ => true,
        },
        SetStep::RenderTemplates => match outcome {
            StepOutcome::Failed => true,
            _ => false,
        },
        _ => false,
    };
    match step {
        SetStep::Done => return SetStep::Done,
        SetStep::Aborted => return SetStep::Aborted,
        _ => {},
    }
    if fatal {
        return SetStep::Aborted;
    }
    match step {
        SetStep::EnsureDaemon => SetStep::Stage,
        SetStep::Stage => SetStep::RenderTemplates,
        SetStep::RenderTemplates => SetStep::Swap,
        SetStep::Swap => SetStep::WriteName,
        SetStep::WriteName => if skip_apps {
            if skip_hook {
                SetStep::Done
            } else {
                SetStep::Hook
            }
        } else {
            SetStep::ApplySubsystems
        },
        SetStep::ApplySubsystems => SetStep::Background,
        SetStep::Background => SetStep::Reload,
        SetStep::Reload => if skip_hook {
            SetStep::Done
        } else {
            SetStep::Hook
        },
        _ => SetStep::Done,
    }
}

/// The live current-theme directory after `step` ends with `outcome`: only a
/// successful swap replaces it, with the staged tree.
pub open spec fn live_after<T>(step: SetStep, outcome: StepOutcome, live: T, staged: T) -> T {
    if step == SetStep::Swap && outcome == StepOutcome::Succeeded {
        staged
    } else {
        live
    }
}

/// The live directory at the end of a run from `step` in which the steps
/// end with `outcomes` in turn, each followed by the step `next_set_step` gives.
pub open spec fn run_live<T>(
    step: SetStep,
    outcomes: Seq<StepOutcome>,
    skip_apps: bool,
    skip_hook: bool,
    live: T,
    staged: T,
) -> T
    decreases outcomes.len(),
{
    if outcomes.len() == 0 {
        live
    } else {
        let o = outcomes[0];
        let next = transition(step, o, skip_apps, skip_hook);
        run_live(
            next,
            outcomes.drop_first(),
            skip_apps,
            skip_hook,
            if step == SetStep::Aborted || step == SetStep::Done {
                live
            } else {
                live_after(step, o, live, staged)
            },
            staged,
        )
    }
}

proof fn lemma_aborted_stays<T>(outcomes: Seq<StepOutcome>, a: bool, b: bool, live: T, staged: T)
    ensures
        run_live(SetStep::Aborted, outcomes, a, b, live, staged) == live,
    decreases outcomes.len(),
{
    if outcomes.len() > 0 {
        lemma_aborted_stays(outcomes.drop_first(), a, b, live, staged);
    }
}

/// When the template hook fails, the live current-theme directory is the one
/// from before the apply, whatever would have followed.
pub proof fn lemma_failed_templates_keep_live<T>(
    rest: Seq<StepOutcome>,
    skip_apps: bool,
    skip_hook: bool,
    live: T,
    staged: T,
)
    ensures
        run_live(
            SetStep::RenderTemplates,
            seq![StepOutcome::Failed] + rest,
            skip_apps,
            skip_hook,
            live,
            staged,
        ) == live,
{
    let outcomes = seq![StepOutcome::Failed] + rest;
    assert(outcomes.drop_first() =~= rest);
    lemma_aborted_stays(rest, skip_apps, skip_hook, live, staged);
}

// ---------------------------------------------------------------------------
// Backgrounds

/// The file name extension of `name`: what follows its last `.`, if the name
/// has a `.` that is not its first character.
pub open spec fn extension_of(name: Seq<char>) -> Option<Seq<char>> {
    if exists|i: int| 0 < i < name.len() && name[i] == '.' {
        let i = choose|i: int|
            0 < i < name.len() && name[i] == '.' && forall|j: int| i < j < name.len() ==> name[j] != '.';
        Some(name.subrange(i + 1, name.len() as int))
    } else {
        None
    }
}

/// The name has an image extension (`png`, `jpg`, `jpeg`, `webp`, any case).
pub open spec fn is_image_name(name: Seq<char>) -> bool {
    extension_of(name) matches Some(e) && (eq_ascii_ci(e, "png"@) || eq_ascii_ci(e, "jpg"@)
        || eq_ascii_ci(e, "jpeg"@) || eq_ascii_ci(e, "webp"@))
}

/// The extension of a file name, as `extension_of` gives it.
pub fn extension(name: &str) -> (r: Option<String>)
    ensures
        match r {
            Some(e) => extension_of(name@) == Some(e@),
            None => extension_of(name@) is None,
        },
{
    let v = chars_of(name);
    let n = v.len();
    if n == 0 {
        return None;
    }
    let mut i: usize = n - 1;
    while i > 0 && v[i] != '.'
        invariant
            n == v@.len(),
            n > 0,
            i < n,
            forall|j: int| i < j < n ==> v@[j] != '.',
        decreases i,
    {
        i = i - 1;
    }
    if i == 0 {
        proof {
            assert(!exists|k: int| 0 < k < name@.len() && name@[k] == '.');
        }
        return None;
    }
    proof {
        let w = choose|k: int|
            0 < k < name@.len() && name@[k] == '.' && forall|j: int| k < j < name@.len() ==> name@[j] != '.';
        if w < i {
            assert(name@[i as int] != '.');
        }
        if w > i {
            assert(v@[w] != '.');
        }
    }
    Some(string_of_range(&v, i + 1, n))
}

/// Whether a file name names a background image.
pub fn is_image_file(name: &str) -> (r: bool)
    ensures
        r == is_image_name(name@),
{
    match extension(name) {
        None => false,
        Some(ext) => eq_ignore_ascii_case(ext.as_str(), "png") || eq_ignore_ascii_case(ext.as_str(), "jpg")
            || eq_ignore_ascii_case(ext.as_str(), "jpeg") || eq_ignore_ascii_case(ext.as_str(), "webp"),
    }
}

/// The background to show next: the image after the current one in sorted
/// order, wrapping round; the first image when the current one is unknown.
pub fn next_background(images: &Vec<String>, current: Option<&str>) -> (r: String)
    requires
        images@.len() > 0,
    ensures
        r == images@[next_position(
            images@,
            match current {
                Some(c) => Some(c@),
                None => None,
            },
        )],
{
    next_theme(images, current)
}

/// The directories that may hold a theme's backgrounds: the theme's own
/// `backgrounds`, then `<omarchy dir>/backgrounds/<theme>`.
pub fn background_dirs(theme_dir: &str, omarchy_dir: Option<&str>, theme_name: Option<&str>) -> (r:
    Vec<String>)
    ensures
        r@.len() >= 1,
        r@[0]@ == join(theme_dir@, "backgrounds"@),
        (omarchy_dir is Some && theme_name is Some) ==> r@.len() == 2 && r@[1]@ == join(
            join(omarchy_dir->0@, "backgrounds"@),
            theme_name->0@,
        ),
        !(omarchy_dir is Some && theme_name is Some) ==> r@.len() == 1,
{
    let mut out: Vec<String> = Vec::new();
    out.push(join_path(theme_dir, "backgrounds"));
    match (omarchy_dir, theme_name) {
        (Some(o), Some(t)) => {
            let b = join_path(o, "backgrounds");
            out.push(join_path(b.as_str(), t));
        },
        _ => {},
    }
    out
}

} // verus!

verus! {

/// Every character of `s` is a decimal digit.
pub open spec fn all_digits(s: Seq<char>) -> bool {
    forall|i: int| 0 <= i < s.len() ==> '0' <= #[trigger] s[i] && s[i] <= '9'
}

/// The number that the decimal digits `s` write.
pub open spec fn digits_value(s: Seq<char>) -> nat
    decreases s.len(),
{
    if s.len() == 0 {
        0
    } else {
        digits_value(s.drop_last()) * 10 + ((s.last() as u32) - ('0' as u32)) as nat
    }
}

proof fn lemma_digits_grow(s: Seq<char>, k: int)
    requires
        0 <= k <= s.len(),
        all_digits(s),
    ensures
        digits_value(s.subrange(0, k)) <= digits_value(s),
    decreases s.len() - k,
{
    if k < s.len() {
        lemma_digits_grow(s, k + 1);
        let p = s.subrange(0, k + 1);
        assert(p.drop_last() =~= s.subrange(0, k));
        assert('0' <= p.last() && p.last() <= '9');
        assert(digits_value(p) == digits_value(s.subrange(0, k)) * 10 + ((p.last() as u32) - ('0' as u32)) as nat);
        assert(digits_value(s.subrange(0, k)) <= digits_value(p)) by (nonlinear_arith)
            requires
                digits_value(p) == digits_value(s.subrange(0, k)) * 10 + ((p.last() as u32) - ('0' as u32)) as nat,
        ;
    } else {
        assert(s.subrange(0, k) =~= s);
    }
}

/// The entry picked by typing its 1-based number among `count` entries:
/// the trimmed input must be a decimal number from 1 to `count`.
pub fn removal_choice(input: &str, count: usize) -> (r: Option<usize>)
    ensures
        r is Some <==> (trim(input@).len() > 0 && all_digits(trim(input@)) && 1 <= digits_value(trim(input@))
            <= count),
        r matches Some(i) ==> i + 1 == digits_value(trim(input@)),
{
    let t = trim_str(input);
    let v = chars_of(t.as_str());
    if v.len() == 0 {
        return None;
    }
    let mut value: u128 = 0;
    let mut i: usize = 0;
    while i < v.len()
        invariant
            i <= v@.len(),
            v@ == trim(input@),
            all_digits(v@.subrange(0, i as int)),
            value as nat == digits_value(v@.subrange(0, i as int)),
            value <= count,
        decreases v@.len() - i,
    {
        let c = v[i];
        if !('0' <= c && c <= '9') {
            return None;
        }
        let d = (c as u32 - '0' as u32) as u128;
        let ghost p = v@.subrange(0, i + 1);
        assert(p.drop_last() =~= v@.subrange(0, i as int));
        assert(p.last() == c);
        let next = value * 10 + d;
        assert(next as nat == digits_value(p));
        if next > count as u128 {
            proof {
                if all_digits(v@) {
                    lemma_digits_grow(v@, i + 1);
                }
            }
            return None;
        }
        value = next;
        i = i + 1;
    }
    assert(v@.subrange(0, v@.len() as int) =~= v@);
    if value == 0 {
        return None;
    }
    Some((value - 1) as usize)
}

} // verus!
