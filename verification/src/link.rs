//! Selection of workspace crates to link into another project.
//!
//! Given the packages of a target workspace and the packages of the project
//! being worked on, these functions decide which crates are candidates for
//! linking, which of them the project's own workspace members depend on, and
//! which outside packages are affected. Reading the cargo metadata and
//! rewriting manifests is the embedding's work.

use vstd::prelude::*;
use vstd::string::*;

use crate::util::str_eq;

verus! {

/// A package that can be patched in: its name and the directory holding its
/// manifest.
#[derive(Debug, Clone)]
pub struct PatchPkg {
    pub name: String,
    pub path: String,
}

/// A package of a cargo workspace, as the embedding reports it: its name, its
/// opaque identity, the directory of its manifest, and the names of its
/// dependencies.
#[derive(Debug, Clone)]
pub struct PkgInfo {
    pub name: String,
    pub id: String,
    pub manifest_dir: String,
    pub deps: Vec<String>,
}

/// Whether the list holds a string with this text.
pub open spec fn has_text(v: Seq<String>, t: Seq<char>) -> bool {
    exists|i: int| 0 <= i < v.len() && (#[trigger] v[i])@ == t
}

/// Whether the list holds a patch with this name and path.
pub open spec fn patch_listed(v: Seq<PatchPkg>, name: Seq<char>, path: Seq<char>) -> bool {
    exists|i: int| 0 <= i < v.len() && (#[trigger] v[i]).name@ == name && v[i].path@ == path
}

/// Whether the candidate at `ci` is the first with its name.
pub open spec fn first_candidate(candidates: Seq<PatchPkg>, ci: int) -> bool {
    &&& 0 <= ci < candidates.len()
    &&& forall|cj: int| 0 <= cj < ci ==> (#[trigger] candidates[cj]).name@ != candidates[ci].name@
}

/// Whether `name` names a workspace member: some package whose identity is a
/// member identity carries that name.
pub open spec fn member_named(
    packages: Seq<PkgInfo>,
    members: Seq<String>,
    name: Seq<char>,
) -> bool {
    exists|i: int|
        0 <= i < packages.len() && has_text(members, (#[trigger] packages[i]).id@)
            && packages[i].name@ == name
}

/// Whether some workspace member depends on a crate with this name.
pub open spec fn name_linked(
    packages: Seq<PkgInfo>,
    members: Seq<String>,
    name: Seq<char>,
) -> bool {
    exists|i: int, j: int|
        0 <= i < packages.len() && member_named(packages, members, (#[trigger] packages[i]).name@)
            && 0 <= j < packages[i].deps.len() && (#[trigger] packages[i].deps[j])@ == name
}

/// Whether the package depends on some candidate.
pub open spec fn uses_candidate(pkg: PkgInfo, candidates: Seq<PatchPkg>) -> bool {
    exists|j: int, ci: int|
        0 <= j < pkg.deps.len() && 0 <= ci < candidates.len() && (#[trigger] pkg.deps[j])@ == (
        #[trigger] candidates[ci]).name@
}

/// Whether the list holds a string with this text.
fn contains_text(v: &Vec<String>, t: &str) -> (r: bool)
    ensures
        r == has_text(v@, t@),
{
    let mut i: usize = 0;
    while i < v.len()
        invariant
            i <= v@.len(),
            forall|j: int| 0 <= j < i ==> (#[trigger] v@[j])@ != t@,
        decreases v@.len() - i,
    {
        if str_eq(v[i].as_str(), t) {
            return true;
        }
        i = i + 1;
    }
    false
}

/// The first candidate carrying exactly the given name, if any.
pub fn find_candidate_by_name(candidates: &Vec<PatchPkg>, name: &str) -> (r: Option<usize>)
    ensures
        match r {
            Some(i) => 0 <= i < candidates@.len() && (#[trigger] candidates@[i as int]).name@
                == name@ && first_candidate(candidates@, i as int),
            None => forall|j: int|
                0 <= j < candidates@.len() ==> (#[trigger] candidates@[j].name)@ != name@,
        },
{
    let mut i: usize = 0;
    while i < candidates.len()
        invariant
            i <= candidates@.len(),
            forall|j: int| 0 <= j < i ==> (#[trigger] candidates@[j].name)@ != name@,
        decreases candidates@.len() - i,
    {
        if str_eq(candidates[i].name.as_str(), name) {
            return Some(i);
        }
        i = i + 1;
    }
    None
}

/// Whether `name` names a workspace member.
fn is_member_named(packages: &Vec<PkgInfo>, members: &Vec<String>, name: &str) -> (r: bool)
    ensures
        r == member_named(packages@, members@, name@),
{
    let mut i: usize = 0;
    while i < packages.len()
        invariant
            i <= packages@.len(),
            forall|j: int|
                0 <= j < i ==> !(has_text(members@, (#[trigger] packages@[j]).id@)
                    && packages@[j].name@ == name@),
        decreases packages@.len() - i,
    {
        if contains_text(members, packages[i].id.as_str()) && str_eq(
            packages[i].name.as_str(),
            name,
        ) {
            return true;
        }
        i = i + 1;
    }
    false
}

/// Whether some workspace member depends on a crate with this name.
fn is_name_linked(packages: &Vec<PkgInfo>, members: &Vec<String>, name: &str) -> (r: bool)
    ensures
        r == name_linked(packages@, members@, name@),
{
    let mut i: usize = 0;
    while i < packages.len()
        invariant
            i <= packages@.len(),
            forall|pi: int, j: int|
                0 <= pi < i ==> !(member_named(packages@, members@, (
                #[trigger] packages@[pi]).name@) && 0 <= j < packages@[pi].deps.len() && (
                #[trigger] packages@[pi].deps[j])@ == name@),
        decreases packages@.len() - i,
    {
        if is_member_named(packages, members, packages[i].name.as_str()) {
            let deps = &packages[i].deps;
            let mut j: usize = 0;
            while j < deps.len()
                invariant
                    i < packages@.len(),
                    deps@ == packages@[i as int].deps@,
                    j <= deps@.len(),
                    member_named(packages@, members@, packages@[i as int].name@),
                    forall|k: int| 0 <= k < j ==> (#[trigger] deps@[k])@ != name@,
                decreases deps@.len() - j,
            {
                if str_eq(deps[j].as_str(), name) {
                    return true;
                }
                j = j + 1;
            }
        }
        i = i + 1;
    }
    false
}

/// Whether the package depends on some candidate.
fn pkg_uses_candidate(pkg: &PkgInfo, candidates: &Vec<PatchPkg>) -> (r: bool)
    ensures
        r == uses_candidate(*pkg, candidates@),
{
    let mut j: usize = 0;
    while j < pkg.deps.len()
        invariant
            j <= pkg.deps@.len(),
            forall|k: int, ci: int|
                0 <= k < j && 0 <= ci < candidates@.len() ==> (#[trigger] pkg.deps@[k])@ != (
                #[trigger] candidates@[ci]).name@,
        decreases pkg.deps@.len() - j,
    {
        if find_candidate_by_name(candidates, pkg.deps[j].as_str()).is_some() {
            return true;
        }
        j = j + 1;
    }
    false
}

/// The link candidates a target workspace offers: one patch per workspace
/// member, keeping the input order.
pub fn list_of_crates(packages: &Vec<PkgInfo>, members: &Vec<String>) -> (r: Vec<PatchPkg>)
    ensures
        r@ == packages@.filter(|p: PkgInfo| has_text(members@, p.id@)).map_values(
            (|p: PkgInfo| PatchPkg { name: p.name, path: p.manifest_dir }),
        ),
{
    let ghost pred = |p: PkgInfo| has_text(members@, p.id@);
    let ghost mapfn = |p: PkgInfo| PatchPkg { name: p.name, path: p.manifest_dir };
    let mut out: Vec<PatchPkg> = Vec::new();
    let mut i: usize = 0;
    proof {
        reveal_with_fuel(Seq::filter, 1);
        assert(packages@.take(0) =~= Seq::<PkgInfo>::empty());
        assert(out@ =~= packages@.take(0).filter(pred).map_values(mapfn));
    }
    while i < packages.len()
        invariant
            i <= packages@.len(),
            out@ == packages@.take(i as int).filter(pred).map_values(mapfn),
            pred == (|p: PkgInfo| has_text(members@, p.id@)),
            mapfn == ((|p: PkgInfo| PatchPkg { name: p.name, path: p.manifest_dir })),
        decreases packages@.len() - i,
    {
        proof {
            crate::util::lemma_filter_take_step(packages@, pred, i as int);
        }
        if contains_text(members, packages[i].id.as_str()) {
            out.push(
                PatchPkg {
                    name: packages[i].name.clone(),
                    path: packages[i].manifest_dir.clone(),
                },
            );
            proof {
                assert(out@ =~= packages@.take(i as int + 1).filter(pred).map_values(mapfn));
            }
        }
        i = i + 1;
    }
    proof {
        assert(packages@.take(packages@.len() as int) =~= packages@);
    }
    out
}

/// The crates to patch in and the outside packages affected.
///
/// A candidate is patched in when some workspace member depends on a crate of
/// its name; the first candidate of each name wins and each name appears at
/// most once. An outside package is affected when it is not a workspace
/// member by name and depends on some candidate; each such package name
/// appears at most once.
pub fn find_used_crates(
    packages: &Vec<PkgInfo>,
    members: &Vec<String>,
    candidates: &Vec<PatchPkg>,
) -> (r: (Vec<PatchPkg>, Vec<String>))
    ensures
        forall|ci: int|
            first_candidate(candidates@, ci) && name_linked(
                packages@,
                members@,
                (#[trigger] candidates@[ci]).name@,
            ) ==> patch_listed(r.0@, candidates@[ci].name@, candidates@[ci].path@),
        forall|name: Seq<char>, path: Seq<char>|
            patch_listed(r.0@, name, path) ==> name_linked(packages@, members@, name)
                && exists|ci: int|
                first_candidate(candidates@, ci) && (#[trigger] candidates@[ci]).name@ == name
                    && candidates@[ci].path@ == path,
        forall|i: int, j: int|
            0 <= i < j < r.0@.len() ==> (#[trigger] r.0@[i]).name@ != (#[trigger] r.0@[j]).name@,
        forall|n: Seq<char>|
            has_text(r.1@, n) <==> exists|pi: int|
                0 <= pi < packages@.len() && (#[trigger] packages@[pi]).name@ == n
                    && !member_named(packages@, members@, n) && uses_candidate(
                    packages@[pi],
                    candidates@,
                ),
        forall|i: int, j: int|
            0 <= i < j < r.1@.len() ==> (#[trigger] r.1@[i])@ != (#[trigger] r.1@[j])@,
{
    let mut direct: Vec<PatchPkg> = Vec::new();
    let mut ci: usize = 0;
    while ci < candidates.len()
        invariant
            ci <= candidates@.len(),
            forall|k: int|
                0 <= k < ci && first_candidate(candidates@, k) && name_linked(
                    packages@,
                    members@,
                    (#[trigger] candidates@[k]).name@,
                ) ==> patch_listed(direct@, candidates@[k].name@, candidates@[k].path@),
            forall|name: Seq<char>, path: Seq<char>|
                patch_listed(direct@, name, path) ==> name_linked(packages@, members@, name)
                    && exists|k: int|
                    0 <= k < ci && first_candidate(candidates@, k) && (
                    #[trigger] candidates@[k]).name@ == name && candidates@[k].path@ == path,
            forall|i: int, j: int|
                0 <= i < j < direct@.len() ==> (#[trigger] direct@[i]).name@ != (
                #[trigger] direct@[j]).name@,
        decreases candidates@.len() - ci,
    {
        let is_first = match find_candidate_by_name(candidates, candidates[ci].name.as_str()) {
            Some(k) => k == ci,
            None => false,
        };
        let ghost before = direct@;
        if is_first && is_name_linked(packages, members, candidates[ci].name.as_str()) {
            direct.push(
                PatchPkg {
                    name: candidates[ci].name.clone(),
                    path: candidates[ci].path.clone(),
                },
            );
            proof {
                assert(direct@[direct@.len() - 1].name@ == candidates@[ci as int].name@);
                assert(direct@[direct@.len() - 1].path@ == candidates@[ci as int].path@);
                assert forall|i: int, j: int|
                    0 <= i < j < direct@.len() implies (#[trigger] direct@[i]).name@ != (
                #[trigger] direct@[j]).name@ by {
                    if j == direct@.len() - 1 {
                        assert(direct@[i] == before[i]);
                        if before[i].name@ == candidates@[ci as int].name@ {
                            assert(patch_listed(before, before[i].name@, before[i].path@));
                        }
                    } else {
                        assert(direct@[i] == before[i]);
                        assert(direct@[j] == before[j]);
                    }
                }
            }
        }
        proof {
            // Every pair listed so far is still listed, and anything listed
            // traces back to a first candidate at or before `ci`.
            assert forall|name: Seq<char>, path: Seq<char>|
                patch_listed(direct@, name, path) implies name_linked(packages@, members@, name)
                && exists|k: int|
                0 <= k < ci + 1 && first_candidate(candidates@, k) && (
                #[trigger] candidates@[k]).name@ == name && candidates@[k].path@ == path by {
                let w = choose|w: int|
                    0 <= w < direct@.len() && (#[trigger] direct@[w]).name@ == name
                        && direct@[w].path@ == path;
                if w < before.len() {
                    assert(patch_listed(before, name, path));
                } else {
                    assert(first_candidate(candidates@, ci as int));
                }
            }
            assert forall|k: int|
                0 <= k < ci + 1 && first_candidate(candidates@, k) && name_linked(
                    packages@,
                    members@,
                    (#[trigger] candidates@[k]).name@,
                ) implies patch_listed(direct@, candidates@[k].name@, candidates@[k].path@) by {
                if k < ci {
                    let cname = candidates@[k].name@;
                    let cpath = candidates@[k].path@;
                    let w = choose|w: int|
                        0 <= w < before.len() && (#[trigger] before[w]).name@ == cname
                            && before[w].path@ == cpath;
                    assert(direct@[w] == before[w]);
                } else {
                    assert(patch_listed(direct@, candidates@[k].name@, candidates@[k].path@));
                }
            }
        }
        ci = ci + 1;
    }

    let mut all: Vec<String> = Vec::new();
    let mut pi: usize = 0;
    while pi < packages.len()
        invariant
            pi <= packages@.len(),
            forall|n: Seq<char>|
                has_text(all@, n) <==> exists|k: int|
                    0 <= k < pi && (#[trigger] packages@[k]).name@ == n && !member_named(
                        packages@,
                        members@,
                        n,
                    ) && uses_candidate(packages@[k], candidates@),
            forall|i: int, j: int|
                0 <= i < j < all@.len() ==> (#[trigger] all@[i])@ != (#[trigger] all@[j])@,
        decreases packages@.len() - pi,
    {
        let pkg = &packages[pi];
        let memb = is_member_named(packages, members, pkg.name.as_str());
        let uses = pkg_uses_candidate(pkg, candidates);
        let already = contains_text(&all, pkg.name.as_str());
        let ghost before = all@;
        if !memb && uses && !already {
            all.push(pkg.name.clone());
        }
        proof {
            assert forall|n: Seq<char>|
                has_text(all@, n) implies exists|k: int|
                0 <= k < pi + 1 && (#[trigger] packages@[k]).name@ == n && !member_named(
                    packages@,
                    members@,
                    n,
                ) && uses_candidate(packages@[k], candidates@) by {
                let w = choose|w: int| 0 <= w < all@.len() && (#[trigger] all@[w])@ == n;
                if w < before.len() {
                    assert(before[w] == all@[w]);
                    assert(has_text(before, n));
                } else {
                    assert(all@[w] == packages@[pi as int].name);
                }
            }
            assert forall|n: Seq<char>|
                (exists|k: int|
                    0 <= k < pi + 1 && (#[trigger] packages@[k]).name@ == n && !member_named(
                        packages@,
                        members@,
                        n,
                    ) && uses_candidate(packages@[k], candidates@)) implies has_text(
                all@,
                n,
            ) by {
                let k = choose|k: int|
                    0 <= k < pi + 1 && (#[trigger] packages@[k]).name@ == n && !member_named(
                        packages@,
                        members@,
                        n,
                    ) && uses_candidate(packages@[k], candidates@);
                if k < pi {
                    assert(has_text(before, n));
                    let w = choose|w: int|
                        0 <= w < before.len() && (#[trigger] before[w])@ == n;
                    assert(all@[w] == before[w]);
                } else {
                    assert(!memb && uses);
                    if already {
                        let w = choose|w: int|
                            0 <= w < before.len() && (#[trigger] before[w])@ == n;
                        assert(all@[w] == before[w]);
                    } else {
                        assert(all@[all@.len() - 1] == packages@[pi as int].name);
                    }
                }
            }
            assert forall|i: int, j: int|
                0 <= i < j < all@.len() implies (#[trigger] all@[i])@ != (
            #[trigger] all@[j])@ by {
                if j < before.len() {
                    assert(all@[i] == before[i]);
                    assert(all@[j] == before[j]);
                } else if j == all@.len() - 1 && all@.len() > before.len() {
                    assert(all@[i] == before[i]);
                    assert(!has_text(before, packages@[pi as int].name@));
                }
            }
        }
        pi = pi + 1;
    }
    (direct, all)
}

} // verus!
