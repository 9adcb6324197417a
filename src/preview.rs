//! Choosing the preview image of a theme or a status bar bundle from what
//! its directories hold.
use vstd::prelude::*;
use crate::apply::extension_of;
use crate::order::sort_names;
use crate::reconcile::{join, join_path};
use crate::text::{eq_ascii_ci, lower_of, lowercase, seq_le, str_eq};
use crate::subsystems::opt_view;

verus! {

broadcast use vstd::seq_lib::group_to_multiset_ensures;

/// What a directory holds, as far as previews go.
#[derive(Debug, Clone)]
pub struct DirListing {
    /// The directory's path.
    pub dir: String,
    /// Whether the path is a directory at all.
    pub is_dir: bool,
    /// The names of the regular files in it.
    pub files: Vec<String>,
}

/// The first file of `l` named `wanted`, ignoring case, as a path.
pub open spec fn named_file(l: DirListing, wanted: Seq<char>) -> Option<Seq<char>> {
    if l.is_dir && exists|i: int| 0 <= i < l.files@.len() && lower_of(l.files@[i]@) == lower_of(wanted) {
        let i = choose|i: int|
            0 <= i < l.files@.len() && lower_of(l.files@[i]@) == lower_of(wanted) && forall|j: int|
                0 <= j < i ==> lower_of(l.files@[j]@) != lower_of(wanted);
        Some(join(l.dir@, l.files@[i]@))
    } else {
        None
    }
}

/// The file of `l` named `name` (any case), if there is one.
pub fn find_named_file(l: &DirListing, name: &str) -> (r: Option<String>)
    ensures
        opt_view(r) == named_file(*l, name@),
{
    if !l.is_dir {
        return None;
    }
    let wanted = lowercase(name);
    let mut i: usize = 0;
    while i < l.files.len()
        invariant
            i <= l.files@.len(),
            l.is_dir,
            wanted@ == lower_of(name@),
            forall|j: int| 0 <= j < i ==> lower_of(l.files@[j]@) != lower_of(name@),
        decreases l.files@.len() - i,
    {
        let low = lowercase(l.files[i].as_str());
        if str_eq(low.as_str(), wanted.as_str()) {
            proof {
                let w = choose|w: int|
                    0 <= w < l.files@.len() && lower_of(l.files@[w]@) == lower_of(name@) && forall|j: int|
                        0 <= j < w ==> lower_of(l.files@[j]@) != lower_of(name@);
                assert(0 <= i < l.files@.len() && lower_of(l.files@[i as int]@) == lower_of(name@) && forall|j: int|
                    0 <= j < i ==> lower_of(l.files@[j]@) != lower_of(name@));
                if w < i {
                    assert(lower_of(l.files@[w]@) != lower_of(name@));
                }
                if w > i {
                    assert(lower_of(l.files@[i as int]@) != lower_of(name@));
                }
            }
            return Some(join_path(l.dir.as_str(), l.files[i].as_str()));
        }
        i = i + 1;
    }
    None
}

/// The name's extension is one of `exts` (any case).
pub open spec fn ext_in(name: Seq<char>, exts: Seq<Seq<char>>) -> bool {
    extension_of(name) matches Some(e) && exists|k: int| 0 <= k < exts.len() && eq_ascii_ci(e, exts[k])
}

/// The paths of the files of `l` with one of `exts`.
pub open spec fn candidates(l: DirListing, exts: Seq<Seq<char>>) -> Set<Seq<char>> {
    Set::new(|p: Seq<char>| exists|i: int| 0 <= i < l.files@.len() && ext_in(l.files@[i]@, exts) && p == join(l.dir@, l.files@[i]@))
}

/// The least candidate path in name order, if any.
pub open spec fn first_with_ext(l: DirListing, exts: Seq<Seq<char>>) -> Option<Seq<char>> {
    if l.is_dir && exists|p: Seq<char>| candidates(l, exts).contains(p) {
        Some(choose|p: Seq<char>| candidates(l, exts).contains(p) && forall|q: Seq<char>| candidates(l, exts).contains(q) ==> seq_le(p, q))
    } else {
        None
    }
}

fn has_ext(name: &str, exts: &Vec<&'static str>) -> (r: bool)
    ensures
        r == ext_in(name@, exts@.map_values(|e: &'static str| e@)),
{
    let ext = crate::apply::extension(name);
    match ext {
        None => false,
        Some(e) => {
            let mut k: usize = 0;
            while k < exts.len()
                invariant
                    k <= exts@.len(),
                    extension_of(name@) == Some(e@),
                    forall|m: int| 0 <= m < k ==> !eq_ascii_ci(e@, exts@[m]@),
                decreases exts@.len() - k,
            {
                if crate::text::eq_ignore_ascii_case(e.as_str(), exts[k]) {
                    assert(exts@.map_values(|x: &'static str| x@)[k as int] == exts@[k as int]@);
                    return true;
                }
                k = k + 1;
            }
            proof {
                let ev = exts@.map_values(|x: &'static str| x@);
                assert forall|m: int| 0 <= m < ev.len() implies !eq_ascii_ci(e@, #[trigger] ev[m]) by {
                    assert(ev[m] == exts@[m]@);
                }
            }
            false
        },
    }
}

/// The first file of `l`, in path order, with one of `exts`.
pub fn find_first_by_exts(l: &DirListing, exts: &Vec<&'static str>) -> (r: Option<String>)
    ensures
        opt_view(r) == first_with_ext(*l, exts@.map_values(|e: &'static str| e@)),
{
    let ghost ev = exts@.map_values(|e: &'static str| e@);
    if !l.is_dir {
        return None;
    }
    let mut paths: Vec<String> = Vec::new();
    let mut i: usize = 0;
    while i < l.files.len()
        invariant
            i <= l.files@.len(),
            l.is_dir,
            ev == exts@.map_values(|e: &'static str| e@),
            forall|k: int| 0 <= k < paths@.len() ==> candidates(*l, ev).contains(#[trigger] paths@[k]@),
            forall|j: int| 0 <= j < i && ext_in(l.files@[j]@, ev) ==> exists|k: int| 0 <= k < paths@.len() && #[trigger] paths@[k]@ == join(l.dir@, l.files@[j]@),
        decreases l.files@.len() - i,
    {
        let ghost before = paths@;
        if has_ext(l.files[i].as_str(), exts) {
            paths.push(join_path(l.dir.as_str(), l.files[i].as_str()));
            proof {
                assert forall|k: int| 0 <= k < paths@.len() implies candidates(*l, ev).contains(#[trigger] paths@[k]@) by {
                    if k < before.len() {
                        assert(paths@[k] == before[k]);
                    } else {
                        assert(0 <= i < l.files@.len() && ext_in(l.files@[i as int]@, ev) && paths@[k]@ == join(l.dir@, l.files@[i as int]@));
                    }
                }
                assert forall|j: int| 0 <= j < i + 1 && ext_in(l.files@[j]@, ev) implies exists|k: int| 0 <= k < paths@.len() && #[trigger] paths@[k]@ == join(l.dir@, l.files@[j]@) by {
                    if j < i {
                        let k = choose|k: int| 0 <= k < before.len() && #[trigger] before[k]@ == join(l.dir@, l.files@[j]@);
                        assert(paths@[k] == before[k]);
                    } else {
                        assert(paths@[before.len() as int]@ == join(l.dir@, l.files@[j]@));
                    }
                }
            }
        }
        i = i + 1;
    }
    let ghost unsorted = paths@;
    let sorted = sort_names(paths);
    if sorted.len() == 0 {
        proof {
            assert forall|p: Seq<char>| !candidates(*l, ev).contains(p) by {
                if candidates(*l, ev).contains(p) {
                    let j = choose|j: int| 0 <= j < l.files@.len() && ext_in(l.files@[j]@, ev) && p == join(l.dir@, l.files@[j]@);
                    let k = choose|k: int| 0 <= k < unsorted.len() && #[trigger] unsorted[k]@ == join(l.dir@, l.files@[j]@);
                    assert(unsorted.to_multiset().count(unsorted[k]) > 0);
                }
            }
        }
        return None;
    }
    let first = sorted[0].clone();
    proof {
        let cs = candidates(*l, ev);
        assert(unsorted.contains(sorted@[0])) by {
            assert(sorted@.to_multiset().count(sorted@[0]) > 0);
        }
        let k0 = choose|k: int| 0 <= k < unsorted.len() && unsorted[k] == sorted@[0];
        assert(cs.contains(unsorted[k0]@));
        assert forall|q: Seq<char>| cs.contains(q) implies seq_le(first@, q) by {
            let j = choose|j: int| 0 <= j < l.files@.len() && ext_in(l.files@[j]@, ev) && q == join(l.dir@, l.files@[j]@);
            let k = choose|k: int| 0 <= k < unsorted.len() && #[trigger] unsorted[k]@ == join(l.dir@, l.files@[j]@);
            assert(unsorted.to_multiset().count(unsorted[k]) > 0);
            assert(sorted@.contains(unsorted[k]));
            let m = choose|m: int| 0 <= m < sorted@.len() && sorted@[m] == unsorted[k];
            if m > 0 {
                assert(seq_le(sorted@[0]@, sorted@[m]@));
            } else {
                crate::text::lemma_seq_le_refl(first@);
            }
        }
        assert(cs.contains(first@) && forall|q: Seq<char>| cs.contains(q) ==> seq_le(first@, q));
        assert(exists|p: Seq<char>| cs.contains(p));
        let w = first_with_ext(*l, ev)->0;
        assert(cs.contains(w) && forall|q: Seq<char>| cs.contains(q) ==> seq_le(w, q));
        assert(seq_le(w, first@) && seq_le(first@, w));
        crate::text::lemma_seq_le_antisym(w, first@);
    }
    Some(first)
}

/// The image extensions a preview may have.
pub open spec fn image_exts() -> Seq<Seq<char>> {
    seq!["png"@, "jpg"@, "jpeg"@, "webp"@]
}

fn image_ext_list() -> (r: Vec<&'static str>)
    ensures
        r@.map_values(|e: &'static str| e@) == image_exts(),
{
    let v: Vec<&'static str> = vec!["png", "jpg", "jpeg", "webp"];
    assert(v@.map_values(|e: &'static str| e@) =~= image_exts());
    v
}

fn png_ext_list() -> (r: Vec<&'static str>)
    ensures
        r@.map_values(|e: &'static str| e@) == seq!["png"@],
{
    let v: Vec<&'static str> = vec!["png"];
    assert(v@.map_values(|e: &'static str| e@) =~= seq!["png"@]);
    v
}

/// The first PNG of a directory, in path order.
pub fn find_first_png(l: &DirListing) -> (r: Option<String>)
    ensures
        opt_view(r) == first_with_ext(*l, seq!["png"@]),
{
    find_first_by_exts(l, &png_ext_list())
}

/// The first image of a directory, in path order.
pub fn find_first_image(l: &DirListing) -> (r: Option<String>)
    ensures
        opt_view(r) == first_with_ext(*l, image_exts()),
{
    find_first_by_exts(l, &image_ext_list())
}

/// The preview of a status bar bundle: its first PNG.
pub fn find_waybar_preview(waybar_dir: &DirListing) -> (r: Option<String>)
    ensures
        opt_view(r) == first_with_ext(*waybar_dir, seq!["png"@]),
{
    find_first_png(waybar_dir)
}

/// The preview of a theme: its `preview.png`, else its `theme.png`, else the
/// `preview.png` of its status bar bundle, else its first background image.
pub fn find_theme_preview(theme_dir: &DirListing, waybar_dir: &DirListing, backgrounds: &DirListing) -> (r:
    Option<String>)
    ensures
        opt_view(r) == (if named_file(*theme_dir, "preview.png"@) is Some {
            named_file(*theme_dir, "preview.png"@)
        } else if named_file(*theme_dir, "theme.png"@) is Some {
            named_file(*theme_dir, "theme.png"@)
        } else if named_file(*waybar_dir, "preview.png"@) is Some {
            named_file(*waybar_dir, "preview.png"@)
        } else {
            first_with_ext(*backgrounds, image_exts())
        }),
{
    if let Some(p) = find_named_file(theme_dir, "preview.png") {
        return Some(p);
    }
    if let Some(p) = find_named_file(theme_dir, "theme.png") {
        return Some(p);
    }
    if let Some(p) = find_named_file(waybar_dir, "preview.png") {
        return Some(p);
    }
    find_first_image(backgrounds)
}

} // verus!
