//! The order in which the QEMU and `qemu-img` executables are looked for. A candidate is
//! a list of path components, a base directory followed by the names to join to it; the
//! host joins them into a path and asks the file system about it.
use vstd::prelude::*;

use crate::qemu_command::texts;
use crate::settings::opt_string_view;
use crate::text::{owned, trim, trimmed};

verus! {

/// The directories that the search looks in, as the environment gives them: the
/// Program Files roots that are set (`ProgramFiles`, then `ProgramFiles(x86)`), and the
/// directories of `PATH`, in order.
pub struct SearchDirs {
    pub program_files_roots: Vec<String>,
    pub path_dirs: Vec<String>,
}

/// What `std::path::Path::join` gives for `base` and `name` on a platform whose path
/// separator is `separator` (`\` on Windows, `/` elsewhere): the path rules of
/// `std::path` differ only between those two families.
pub uninterp spec fn path_joined(base: Seq<char>, name: Seq<char>, separator: char) -> Seq<char>;

/// What `std::path::Path::parent` gives for `path` on a platform whose path separator is
/// `separator`.
pub uninterp spec fn path_parent(path: Seq<char>, separator: char) -> Option<Seq<char>>;

/// `std::path::Path::join` of `name` onto `base`, with the separator of this platform
/// (`std::path::MAIN_SEPARATOR`). The contract claims that the joined path is a function
/// of the two paths and that separator alone; what it is, is left to `std`.
#[verifier::external_body]
fn join_path(base: &str, name: &str) -> (r: (String, char))
    ensures
        r.0@ == path_joined(base@, name@, r.1),
{
    (std::path::Path::new(base).join(name).to_string_lossy().into_owned(), std::path::MAIN_SEPARATOR)
}

/// `std::path::Path::parent` of `path`, with the separator of this platform
/// (`std::path::MAIN_SEPARATOR`). The contract claims that the parent is a function of
/// the path and that separator alone; what it is, is left to `std`.
#[verifier::external_body]
fn parent_path(path: &str) -> (r: (Option<String>, char))
    ensures
        opt_string_view(r.0) == path_parent(path@, r.1),
{
    let parent = match std::path::Path::new(path).parent() {
        Some(p) => Some(p.to_string_lossy().into_owned()),
        None => None,
    };
    (parent, std::path::MAIN_SEPARATOR)
}

/// The components `parts` joined one after the other, the `k`-th join made with the
/// separator `seps[k]`.
pub open spec fn joined_with(parts: Seq<Seq<char>>, seps: Seq<char>) -> Seq<char>
    decreases parts.len(),
{
    if parts.len() == 0 {
        Seq::empty()
    } else if parts.len() == 1 {
        parts[0]
    } else {
        path_joined(joined_with(parts.drop_last(), seps.drop_last()), parts.last(), seps.last())
    }
}

/// `path` is `parts` joined into one path by `std::path`.
pub open spec fn is_joined(parts: Seq<Seq<char>>, path: Seq<char>) -> bool {
    exists|seps: Seq<char>|
        seps.len() == (if parts.len() == 0 {
            0
        } else {
            parts.len() - 1
        }) && path == #[trigger] joined_with(parts, seps)
}

/// `paths` are the candidates of `order`, each joined into one path.
pub open spec fn joined_list(order: Seq<Seq<Seq<char>>>, paths: Seq<Seq<char>>) -> bool {
    &&& paths.len() == order.len()
    &&& forall|i: int| 0 <= i < order.len() ==> #[trigger] is_joined(order[i], paths[i])
}

/// The directory that holds the configured QEMU executable, by `std::path`: none when
/// no path is configured.
pub open spec fn configured_parent(configured: Option<Seq<char>>, parent: Option<Seq<char>>) -> bool {
    match configured {
        None => parent is None,
        Some(p) => exists|sep: char| parent == #[trigger] path_parent(trimmed(p), sep),
    }
}

/// The parent directory of the trimmed configured QEMU path, as [`configured_parent`]
/// says.
pub fn configured_qemu_parent(configured: &Option<String>) -> (r: Option<String>)
    ensures
        configured_parent(opt_string_view(*configured), opt_string_view(r)),
{
    match configured {
        Some(p) => {
            let (parent, sep) = parent_path(trim(p.as_str()));
            assert(opt_string_view(parent) == path_parent(trimmed(p@), sep));
            parent
        },
        None => None,
    }
}

/// One candidate's components joined into a path, as [`is_joined`] says.
pub fn join_candidate(parts: &Vec<String>) -> (r: String)
    ensures
        is_joined(texts(parts@), r@),
{
    let ghost ps = texts(parts@);
    if parts.len() == 0 {
        let r = owned("");
        proof {
            reveal_strlit("");
            assert(r@ == joined_with(ps, Seq::<char>::empty()));
        }
        return r;
    }
    let mut acc = parts[0].clone();
    let ghost mut seps: Seq<char> = Seq::empty();
    assert(ps.take(1) =~= seq![ps[0]]);
    let mut k: usize = 1;
    while k < parts.len()
        invariant
            1 <= k <= parts@.len(),
            ps == texts(parts@),
            seps.len() == k - 1,
            acc@ == joined_with(ps.take(k as int), seps),
        decreases parts.len() - k,
    {
        let (joined, sep) = join_path(acc.as_str(), parts[k].as_str());
        proof {
            assert(ps.take(k + 1 as int).drop_last() =~= ps.take(k as int));
            assert(seps.push(sep).drop_last() =~= seps);
            assert(ps.take(k + 1 as int).last() == parts@[k as int]@);
            seps = seps.push(sep);
        }
        acc = joined;
        k = k + 1;
    }
    assert(ps.take(parts@.len() as int) =~= ps);
    acc
}

/// Every candidate's components joined into a path, in order.
pub fn join_candidates(candidates: &Vec<Vec<String>>) -> (r: Vec<String>)
    ensures
        joined_list(parts_view(candidates@), texts(r@)),
{
    let mut r: Vec<String> = Vec::new();
    let mut i: usize = 0;
    while i < candidates.len()
        invariant
            i <= candidates@.len(),
            r@.len() == i,
            forall|k: int|
                0 <= k < i ==> #[trigger] is_joined(parts_view(candidates@)[k], texts(r@)[k]),
        decreases candidates.len() - i,
    {
        let path = join_candidate(&candidates[i]);
        let ghost r0 = r@;
        r.push(path);
        proof {
            assert forall|k: int| 0 <= k < i + 1 implies #[trigger] is_joined(
                parts_view(candidates@)[k],
                texts(r@)[k],
            ) by {
                assert(texts(r@)[k] == r@[k]@);
                if k < i {
                    assert(r@[k] == r0[k]);
                    assert(texts(r0)[k] == r0[k]@);
                    assert(is_joined(parts_view(candidates@)[k], texts(r0)[k]));
                } else {
                    assert(parts_view(candidates@)[k] == texts(candidates@[k]@));
                }
            }
        }
        i = i + 1;
    }
    r
}

/// The components of one candidate: `base`, then `middle`, then `name`.
pub open spec fn joined_parts(base: Seq<char>, middle: Seq<Seq<char>>, name: Seq<char>) -> Seq<
    Seq<char>,
> {
    seq![base] + middle + seq![name]
}

/// Under each base in turn, each name in turn, with `middle` between them.
pub open spec fn under_each(
    bases: Seq<Seq<char>>,
    middle: Seq<Seq<char>>,
    names: Seq<Seq<char>>,
) -> Seq<Seq<Seq<char>>>
    decreases bases.len(),
{
    if bases.len() == 0 {
        Seq::empty()
    } else {
        under_each(bases.drop_last(), middle, names) + names.map_values(
            |n: Seq<char>| joined_parts(bases.last(), middle, n),
        )
    }
}

/// The components of each candidate.
pub open spec fn parts_view(v: Seq<Vec<String>>) -> Seq<Seq<Seq<char>>> {
    v.map_values(|p: Vec<String>| texts(p@))
}

/// The names of the QEMU system emulator, the Windows one first.
pub open spec fn qemu_executable_names() -> Seq<Seq<char>> {
    seq!["qemu-system-x86_64.exe"@, "qemu-system-x86_64"@]
}

/// The names of `qemu-img`, the Windows one first.
pub open spec fn qemu_img_names() -> Seq<Seq<char>> {
    seq!["qemu-img.exe"@, "qemu-img"@]
}

/// Where QEMU is looked for after the configured path: `<root>/qemu/<name>` under each
/// Program Files root, then `<dir>/<name>` in each `PATH` directory.
pub open spec fn qemu_candidate_order(roots: Seq<Seq<char>>, dirs: Seq<Seq<char>>) -> Seq<
    Seq<Seq<char>>,
> {
    under_each(roots, seq!["qemu"@], qemu_executable_names()) + under_each(
        dirs,
        Seq::empty(),
        qemu_executable_names(),
    )
}

/// Where `qemu-img` is looked for: beside the configured QEMU executable (under
/// `parent`, the directory that holds it, when there is one), then
/// `<root>/qemu/qemu-img.exe` under each Program Files root, then `<dir>/<name>` in
/// each `PATH` directory.
pub open spec fn qemu_img_candidate_order(
    parent: Option<Seq<char>>,
    roots: Seq<Seq<char>>,
    dirs: Seq<Seq<char>>,
) -> Seq<Seq<Seq<char>>> {
    let beside = match parent {
        Some(p) => under_each(seq![p], Seq::empty(), qemu_img_names()),
        None => Seq::empty(),
    };
    beside + under_each(roots, seq!["qemu"@], seq!["qemu-img.exe"@]) + under_each(
        dirs,
        Seq::empty(),
        qemu_img_names(),
    )
}

/// The components `base`, then `middle`, then `name`.
fn candidate(base: &String, middle: &Vec<String>, name: &String) -> (r: Vec<String>)
    ensures
        texts(r@) == joined_parts(base@, texts(middle@), name@),
{
    let mut r: Vec<String> = Vec::new();
    r.push(base.clone());
    let mut k: usize = 0;
    while k < middle.len()
        invariant
            k <= middle@.len(),
            texts(r@) == seq![base@] + texts(middle@).take(k as int),
        decreases middle.len() - k,
    {
        let ghost r0 = r@;
        r.push(middle[k].clone());
        assert(texts(r@) =~= texts(r0).push(middle@[k as int]@));
        k = k + 1;
        assert(texts(middle@).take(k as int) =~= texts(middle@).take(k - 1 as int).push(
            middle@[k - 1]@,
        ));
        assert(texts(r@) =~= seq![base@] + texts(middle@).take(k as int));
    }
    r.push(name.clone());
    assert(texts(middle@).take(middle@.len() as int) =~= texts(middle@));
    assert(texts(r@) =~= joined_parts(base@, texts(middle@), name@));
    r
}

/// Appends to `out`, for each base in turn, each name in turn with `middle` between.
fn push_under_each(
    out: &mut Vec<Vec<String>>,
    bases: &Vec<String>,
    middle: &Vec<String>,
    names: &Vec<String>,
)
    ensures
        parts_view(final(out)@) == parts_view(old(out)@) + under_each(
            texts(bases@),
            texts(middle@),
            texts(names@),
        ),
{
    let ghost start = parts_view(out@);
    let ghost m = texts(middle@);
    let ghost ns = texts(names@);
    let mut i: usize = 0;
    while i < bases.len()
        invariant
            i <= bases@.len(),
            m == texts(middle@),
            ns == texts(names@),
            parts_view(out@) == start + under_each(texts(bases@).take(i as int), m, ns),
        decreases bases.len() - i,
    {
        let ghost before = parts_view(out@);
        let mut j: usize = 0;
        while j < names.len()
            invariant
                i < bases@.len(),
                j <= names@.len(),
                m == texts(middle@),
                ns == texts(names@),
                parts_view(out@) == before + ns.take(j as int).map_values(
                    |n: Seq<char>| joined_parts(bases@[i as int]@, m, n),
                ),
            decreases names.len() - j,
        {
            let c = candidate(&bases[i], middle, &names[j]);
            let ghost o0 = out@;
            out.push(c);
            assert(parts_view(out@) =~= parts_view(o0).push(texts(c@)));
            j = j + 1;
            assert(ns.take(j as int).map_values(|n: Seq<char>| joined_parts(bases@[i as int]@, m, n))
                =~= ns.take(j - 1 as int).map_values(
                |n: Seq<char>| joined_parts(bases@[i as int]@, m, n),
            ).push(joined_parts(bases@[i as int]@, m, ns[j - 1 as int])));
            assert(parts_view(out@) =~= before + ns.take(j as int).map_values(
                |n: Seq<char>| joined_parts(bases@[i as int]@, m, n),
            ));
        }
        let ghost bs = texts(bases@);
        assert(bs.take(i + 1 as int).drop_last() =~= bs.take(i as int));
        assert(bs.take(i + 1 as int).last() == bases@[i as int]@);
        assert(ns.take(ns.len() as int) =~= ns);
        i = i + 1;
    }
    assert(texts(bases@).take(bases@.len() as int) =~= texts(bases@));
}

/// The QEMU candidates, in the order of [`qemu_candidate_order`], from the Program Files
/// roots that are set and the `PATH` directories.
pub fn qemu_search_candidates(program_files_roots: &Vec<String>, path_dirs: &Vec<String>) -> (r: Vec<
    Vec<String>,
>)
    ensures
        parts_view(r@) == qemu_candidate_order(texts(program_files_roots@), texts(path_dirs@)),
{
    let names = vec![owned("qemu-system-x86_64.exe"), owned("qemu-system-x86_64")];
    let under_qemu = vec![owned("qemu")];
    let nothing: Vec<String> = Vec::new();
    let mut r: Vec<Vec<String>> = Vec::new();
    push_under_each(&mut r, program_files_roots, &under_qemu, &names);
    push_under_each(&mut r, path_dirs, &nothing, &names);
    proof {
        reveal_strlit("qemu-system-x86_64.exe");
        reveal_strlit("qemu-system-x86_64");
        reveal_strlit("qemu");
        assert(texts(names@) =~= qemu_executable_names());
        assert(texts(under_qemu@) =~= seq!["qemu"@]);
        assert(texts(nothing@) =~= Seq::<Seq<char>>::empty());
        assert(parts_view(Seq::<Vec<String>>::empty()) =~= Seq::<Seq<Seq<char>>>::empty());
    }
    r
}

/// The `qemu-img` candidates, in the order of [`qemu_img_candidate_order`], from the
/// directory that holds the configured QEMU executable (when one is configured and has
/// a parent), the Program Files roots that are set and the `PATH` directories.
pub fn qemu_img_search_candidates(
    configured_parent: &Option<String>,
    program_files_roots: &Vec<String>,
    path_dirs: &Vec<String>,
) -> (r: Vec<Vec<String>>)
    ensures
        parts_view(r@) == qemu_img_candidate_order(
            match configured_parent {
                Some(p) => Some(p@),
                None => None,
            },
            texts(program_files_roots@),
            texts(path_dirs@),
        ),
{
    let names = vec![owned("qemu-img.exe"), owned("qemu-img")];
    let windows_name = vec![owned("qemu-img.exe")];
    let under_qemu = vec![owned("qemu")];
    let nothing: Vec<String> = Vec::new();
    let mut r: Vec<Vec<String>> = Vec::new();
    match configured_parent {
        Some(p) => {
            let parents = vec![p.clone()];
            push_under_each(&mut r, &parents, &nothing, &names);
            proof {
                assert(texts(parents@) =~= seq![p@]);
            }
        },
        None => {},
    }
    push_under_each(&mut r, program_files_roots, &under_qemu, &windows_name);
    push_under_each(&mut r, path_dirs, &nothing, &names);
    proof {
        reveal_strlit("qemu-img.exe");
        reveal_strlit("qemu-img");
        reveal_strlit("qemu");
        assert(texts(names@) =~= qemu_img_names());
        assert(texts(windows_name@) =~= seq!["qemu-img.exe"@]);
        assert(texts(under_qemu@) =~= seq!["qemu"@]);
        assert(texts(nothing@) =~= Seq::<Seq<char>>::empty());
        assert(parts_view(Seq::<Vec<String>>::empty()) =~= Seq::<Seq<Seq<char>>>::empty());
    }
    r
}

} // verus!
