//! Locating the upstream default bundle of a subsystem: candidate locations
//! in strict precedence order, and the first one that holds the bundle wins.
use vstd::prelude::*;
use crate::reconcile::{join, join_path};

verus! {

#[derive(Debug, Clone, Copy, PartialEq, Eq, Structural)]
pub enum DefaultModule {
    Waybar,
    Walker,
    Hyprlock,
    Starship,
}

/// Where a default bundle was found.
#[derive(Debug, Clone, Copy, PartialEq, Eq, Structural)]
pub enum DefaultSourceKind {
    OmarchyDefaultNamed,
    OmarchyDefaultBase,
    OmarchyThemeStoreDefault,
    OmarchyConfigFallback,
    OmarchyUserConfigFallback,
}

/// The default bundle chosen for a subsystem.
#[derive(Debug, Clone)]
pub struct ResolvedOmarchyDefault {
    pub module: DefaultModule,
    pub path: String,
    pub kind: DefaultSourceKind,
}

/// One place a default bundle may be.
#[derive(Debug, Clone)]
pub struct DefaultCandidate {
    pub path: String,
    pub kind: DefaultSourceKind,
}

/// The name under which the default bundle is linked among named bundles.
pub const DEFAULT_ALIAS: &'static str = "omarchy-default";

/// The candidate locations relative to the install root, in precedence order.
pub open spec fn root_candidates(module: DefaultModule) -> Seq<(Seq<char>, DefaultSourceKind)> {
    match module {
        DefaultModule::Waybar => seq![
            ("default/waybar/themes/omarchy-default"@, DefaultSourceKind::OmarchyDefaultNamed),
            ("default/waybar"@, DefaultSourceKind::OmarchyDefaultBase),
            ("config/waybar"@, DefaultSourceKind::OmarchyConfigFallback),
        ],
        DefaultModule::Walker => seq![
            ("default/walker/themes/omarchy-default"@, DefaultSourceKind::OmarchyDefaultNamed),
            ("default/walker"@, DefaultSourceKind::OmarchyDefaultBase),
        ],
        DefaultModule::Hyprlock => seq![
            ("default/hyprlock/themes/omarchy-default"@, DefaultSourceKind::OmarchyDefaultNamed),
            ("default/hyprlock"@, DefaultSourceKind::OmarchyDefaultBase),
            ("themes/omarchy-default"@, DefaultSourceKind::OmarchyThemeStoreDefault),
            ("config/hypr"@, DefaultSourceKind::OmarchyConfigFallback),
        ],
        DefaultModule::Starship => seq![
            ("default/starship/themes/omarchy-default.toml"@, DefaultSourceKind::OmarchyDefaultNamed),
            ("default/starship.toml"@, DefaultSourceKind::OmarchyDefaultBase),
            ("default/starship/starship.toml"@, DefaultSourceKind::OmarchyConfigFallback),
            ("config/starship.toml"@, DefaultSourceKind::OmarchyConfigFallback),
        ],
    }
}

/// The candidate locations relative to the home directory (lock screen only).
pub open spec fn home_candidates(module: DefaultModule) -> Seq<Seq<char>> {
    match module {
        DefaultModule::Hyprlock => seq![
            ".config/omarchy/default/hyprlock/themes/omarchy-default"@,
            ".config/omarchy/default/hyprlock"@,
            ".config/omarchy/themes/omarchy-default"@,
            ".config/omarchy/config/hypr"@,
        ],
        _ => Seq::empty(),
    }
}

/// The candidates in `c` are `base/rel` for each `(rel, kind)` of `rels`.
pub open spec fn lists_under(
    c: Seq<DefaultCandidate>,
    base: Seq<char>,
    rels: Seq<(Seq<char>, DefaultSourceKind)>,
) -> bool {
    c.len() == rels.len() && forall|i: int|
        0 <= i < c.len() ==> (#[trigger] c[i]).path@ == join(base, rels[i].0) && c[i].kind == rels[i].1
}

fn push_candidates(
    out: &mut Vec<DefaultCandidate>,
    base: &str,
    rels: &Vec<(&'static str, DefaultSourceKind)>,
)
    ensures
        final(out)@.len() == old(out)@.len() + rels@.len(),
        final(out)@.subrange(0, old(out)@.len() as int) == old(out)@,
        lists_under(
            final(out)@.subrange(old(out)@.len() as int, final(out)@.len() as int),
            base@,
            rels@.map_values(|r: (&'static str, DefaultSourceKind)| (r.0@, r.1)),
        ),
{
    let ghost start = out@;
    let mut i: usize = 0;
    while i < rels.len()
        invariant
            i <= rels@.len(),
            out@.len() == start.len() + i,
            out@.subrange(0, start.len() as int) == start,
            forall|k: int|
                0 <= k < i ==> (#[trigger] out@[start.len() + k]).path@ == join(base@, rels@[k].0@)
                    && out@[start.len() + k].kind == rels@[k].1,
        decreases rels@.len() - i,
    {
        let ghost before = out@;
        out.push(DefaultCandidate { path: join_path(base, rels[i].0), kind: rels[i].1 });
        proof {
            assert(out@.subrange(0, start.len() as int) =~= before.subrange(0, start.len() as int));
            assert forall|k: int| 0 <= k < i + 1 implies (#[trigger] out@[start.len() + k]).path@ == join(
                base@,
                rels@[k].0@,
            ) && out@[start.len() + k].kind == rels@[k].1 by {
                if k < i {
                    assert(out@[start.len() + k] == before[start.len() + k]);
                }
            }
        }
        i = i + 1;
    }
    proof {
        let tail = out@.subrange(start.len() as int, out@.len() as int);
        let rv = rels@.map_values(|r: (&'static str, DefaultSourceKind)| (r.0@, r.1));
        assert forall|k: int| 0 <= k < tail.len() implies (#[trigger] tail[k]).path@ == join(base@, rv[k].0)
            && tail[k].kind == rv[k].1 by {
            assert(tail[k] == out@[start.len() + k]);
        }
    }
}

fn root_rels(module: DefaultModule) -> (r: Vec<(&'static str, DefaultSourceKind)>)
    ensures
        r@.map_values(|x: (&'static str, DefaultSourceKind)| (x.0@, x.1)) == root_candidates(module),
{
    let mut v: Vec<(&'static str, DefaultSourceKind)> = Vec::new();
    match module {
        DefaultModule::Waybar => {
            v.push(("default/waybar/themes/omarchy-default", DefaultSourceKind::OmarchyDefaultNamed));
            v.push(("default/waybar", DefaultSourceKind::OmarchyDefaultBase));
            v.push(("config/waybar", DefaultSourceKind::OmarchyConfigFallback));
        },
        DefaultModule::Walker => {
            v.push(("default/walker/themes/omarchy-default", DefaultSourceKind::OmarchyDefaultNamed));
            v.push(("default/walker", DefaultSourceKind::OmarchyDefaultBase));
        },
        DefaultModule::Hyprlock => {
            v.push(("default/hyprlock/themes/omarchy-default", DefaultSourceKind::OmarchyDefaultNamed));
            v.push(("default/hyprlock", DefaultSourceKind::OmarchyDefaultBase));
            v.push(("themes/omarchy-default", DefaultSourceKind::OmarchyThemeStoreDefault));
            v.push(("config/hypr", DefaultSourceKind::OmarchyConfigFallback));
        },
        DefaultModule::Starship => {
            v.push(
                ("default/starship/themes/omarchy-default.toml", DefaultSourceKind::OmarchyDefaultNamed),
            );
            v.push(("default/starship.toml", DefaultSourceKind::OmarchyDefaultBase));
            v.push(("default/starship/starship.toml", DefaultSourceKind::OmarchyConfigFallback));
            v.push(("config/starship.toml", DefaultSourceKind::OmarchyConfigFallback));
        },
    }
    assert(v@.map_values(|x: (&'static str, DefaultSourceKind)| (x.0@, x.1)) =~= root_candidates(module));
    v
}

fn home_rels(module: DefaultModule) -> (r: Vec<(&'static str, DefaultSourceKind)>)
    ensures
        r@.map_values(|x: (&'static str, DefaultSourceKind)| (x.0@, x.1)) == home_candidates(
            module,
        ).map_values(|p: Seq<char>| (p, DefaultSourceKind::OmarchyUserConfigFallback)),
{
    let mut v: Vec<(&'static str, DefaultSourceKind)> = Vec::new();
    match module {
        DefaultModule::Hyprlock => {
            let k = DefaultSourceKind::OmarchyUserConfigFallback;
            v.push((".config/omarchy/default/hyprlock/themes/omarchy-default", k));
            v.push((".config/omarchy/default/hyprlock", k));
            v.push((".config/omarchy/themes/omarchy-default", k));
            v.push((".config/omarchy/config/hypr", k));
        },
        _ => {},
    }
    assert(v@.map_values(|x: (&'static str, DefaultSourceKind)| (x.0@, x.1)) =~= home_candidates(
        module,
    ).map_values(|p: Seq<char>| (p, DefaultSourceKind::OmarchyUserConfigFallback)));
    v
}

/// The places to look for a subsystem's default bundle, in precedence order:
/// those under the install root (when it is known), then, for the lock
/// screen, those under the home directory (when it is known).
pub fn default_candidates(module: DefaultModule, root: Option<&str>, home: Option<&str>) -> (r: Vec<
    DefaultCandidate,
>)
    ensures
        ({
            let n = match root {
                Some(_) => root_candidates(module).len(),
                None => 0,
            };
            &&& root matches Some(rt) ==> lists_under(r@.subrange(0, n as int), rt@, root_candidates(module))
            &&& home matches Some(h) ==> lists_under(
                r@.subrange(n as int, r@.len() as int),
                h@,
                home_candidates(module).map_values(|p: Seq<char>| (p, DefaultSourceKind::OmarchyUserConfigFallback)),
            )
            &&& r@.len() == n + match home {
                Some(_) => home_candidates(module).len(),
                None => 0,
            }
        }),
{
    let mut out: Vec<DefaultCandidate> = Vec::new();
    match root {
        Some(rt) => {
            let rels = root_rels(module);
            push_candidates(&mut out, rt, &rels);
            proof {
                assert(out@.subrange(0, out@.len() as int) =~= out@);
                assert(out@.len() == root_candidates(module).len());
            }
        },
        None => {},
    }
    let ghost mid = out@;
    assert(mid.len() == match root {
        Some(_) => root_candidates(module).len(),
        None => 0,
    });
    match home {
        Some(h) => {
            let rels = home_rels(module);
            push_candidates(&mut out, h, &rels);
            proof {
                assert(out@.subrange(0, mid.len() as int) =~= mid);
                assert(rels@.len() == home_candidates(module).len()) by {
                    assert(rels@.map_values(|x: (&'static str, DefaultSourceKind)| (x.0@, x.1)).len() == rels@.len());
                }
            }
        },
        None => {},
    }
    out
}

/// The marker files a directory bundle of the subsystem must hold; a
/// starship candidate is itself the file.
pub fn required_markers(module: DefaultModule) -> (r: Vec<&'static str>)
    ensures
        module == DefaultModule::Waybar ==> r@.map_values(|m: &'static str| m@) == seq![
            "config.jsonc"@,
            "style.css"@,
        ],
        module == DefaultModule::Walker ==> r@.map_values(|m: &'static str| m@) == seq!["style.css"@],
        module == DefaultModule::Hyprlock ==> r@.map_values(|m: &'static str| m@) == seq![
            "hyprlock.conf"@,
        ],
        module == DefaultModule::Starship ==> r@.len() == 0,
{
    let mut v: Vec<&'static str> = Vec::new();
    match module {
        DefaultModule::Waybar => {
            v.push("config.jsonc");
            v.push("style.css");
        },
        DefaultModule::Walker => {
            v.push("style.css");
        },
        DefaultModule::Hyprlock => {
            v.push("hyprlock.conf");
        },
        DefaultModule::Starship => {},
    }
    assert(module == DefaultModule::Waybar ==> v@.map_values(|m: &'static str| m@) =~= seq![
        "config.jsonc"@,
        "style.css"@,
    ]);
    assert(module == DefaultModule::Walker ==> v@.map_values(|m: &'static str| m@) =~= seq!["style.css"@]);
    assert(module == DefaultModule::Hyprlock ==> v@.map_values(|m: &'static str| m@) =~= seq![
        "hyprlock.conf"@,
    ]);
    v
}

/// The default bundle: the first candidate found to hold it (`present[i]`
/// says whether candidate `i` does). Later candidates are never chosen over
/// an earlier one that holds the bundle.
pub fn select_default(module: DefaultModule, candidates: &Vec<DefaultCandidate>, present: &Vec<bool>) -> (r:
    Option<ResolvedOmarchyDefault>)
    requires
        candidates@.len() == present@.len(),
    ensures
        match r {
            Some(d) => exists|i: int|
                0 <= i < present@.len() && present@[i] && (forall|j: int| 0 <= j < i ==> !present@[j])
                    && d.path@ == candidates@[i].path@ && d.kind == candidates@[i].kind && d.module
                    == module,
            None => forall|j: int| 0 <= j < present@.len() ==> !present@[j],
        },
{
    let mut i: usize = 0;
    while i < present.len()
        invariant
            i <= present@.len(),
            candidates@.len() == present@.len(),
            forall|j: int| 0 <= j < i ==> !present@[j],
        decreases present@.len() - i,
    {
        if present[i] {
            return Some(
                ResolvedOmarchyDefault {
                    module,
                    path: candidates[i].path.clone(),
                    kind: candidates[i].kind,
                },
            );
        }
        i = i + 1;
    }
    None
}

/// The path of the default alias among a subsystem's named bundles.
pub fn default_alias_path(themes_dir: &str) -> (r: String)
    ensures
        r@ == join(themes_dir@, DEFAULT_ALIAS@),
{
    join_path(themes_dir, DEFAULT_ALIAS)
}

} // verus!
