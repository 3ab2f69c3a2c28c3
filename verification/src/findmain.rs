//! Locating a target's `main`: the files that may hold it, where `fn main`
//! first appears in one, and the folder and `--goto` argument that open an
//! editor there.
use vstd::prelude::*;
use crate::manifest::{ManifestData, ManifestEntry};
use crate::target::TargetKind;
use crate::paths::{parent_of, path_parent};
use crate::render::{lines_of, split_lines, utf8_len};
use crate::runnable::{joined_path, path_join};
use crate::text::{chars_of, decimal, occurs_at, occurs_at_exec, string_from_chars, strings_view, u64_to_string};

verus! {

/// The first index at or after `i` at which `pat` occurs in `s`.
pub open spec fn find_from(s: Seq<char>, pat: Seq<char>, i: int) -> Option<int>
    decreases s.len() + 1 - i,
{
    if i < 0 || i + pat.len() > s.len() {
        None
    } else if occurs_at(s, pat, i) {
        Some(i)
    } else {
        find_from(s, pat, i + 1)
    }
}

/// Skipping indices at which `pat` does not occur does not change the first occurrence.
proof fn lemma_find_skip(s: Seq<char>, pat: Seq<char>, i: int)
    requires
        0 <= i,
        forall|j: int| 0 <= j < i ==> !occurs_at(s, pat, j),
    ensures
        find_from(s, pat, 0) == find_from(s, pat, i),
    decreases i,
{
    if i > 0 {
        lemma_find_skip(s, pat, i - 1);
        assert(!occurs_at(s, pat, i - 1));
    }
}

/// The first index at which `pat` occurs in `s`.
fn find_chars(s: &Vec<char>, pat: &Vec<char>) -> (r: Option<usize>)
    ensures
        match r {
            Some(i) => find_from(s@, pat@, 0) == Some(i as int) && i + pat@.len() <= s@.len(),
            None => find_from(s@, pat@, 0) is None,
        },
{
    if pat.len() > s.len() {
        return None;
    }
    let last = s.len() - pat.len();
    let mut i: usize = 0;
    loop
        invariant
            last == s.len() - pat.len(),
            i <= last,
            forall|j: int| 0 <= j < i ==> !occurs_at(s@, pat@, j),
        decreases last - i,
    {
        if occurs_at_exec(s, pat, i) {
            proof {
                lemma_find_skip(s@, pat@, i as int);
            }
            return Some(i);
        }
        if i == last {
            proof {
                lemma_find_skip(s@, pat@, i + 1);
            }
            return None;
        }
        i = i + 1;
    }
}

/// The 1-based column of the byte that follows `prefix`, as a `usize`
/// (`usize::wrapping_add` of one to the prefix's length in UTF-8 bytes).
pub open spec fn byte_column(prefix: Seq<char>) -> nat {
    vstd::wrapping::usize_specs::wrapping_add(utf8_len(prefix) as usize, 1) as nat
}

/// Where `fn main` first appears among `ls`: the 1-based number of the line,
/// and the 1-based byte column at which it starts in that line.
pub open spec fn main_position(ls: Seq<Seq<char>>) -> Option<(nat, nat)>
    decreases ls.len(),
{
    if ls.len() == 0 {
        None
    } else {
        match find_from(ls[0], "fn main"@, 0) {
            Some(i) => Some((1, byte_column(ls[0].take(i)))),
            None => match main_position(ls.drop_first()) {
                Some((l, c)) => Some((l + 1, c)),
                None => None,
            },
        }
    }
}

/// Lines without `fn main` only add to the line number of the first that has it.
proof fn lemma_main_position(ls: Seq<Seq<char>>, k: int)
    requires
        0 <= k <= ls.len(),
        forall|j: int| 0 <= j < k ==> find_from(#[trigger] ls[j], "fn main"@, 0) is None,
    ensures
        main_position(ls) == match main_position(ls.skip(k)) {
            Some((l, c)) => Some(((l + k) as nat, c)),
            None => None::<(nat, nat)>,
        },
    decreases k,
{
    if k > 0 {
        assert forall|j: int| 0 <= j < k - 1 implies find_from(#[trigger] ls.drop_first()[j], "fn main"@, 0) is None by {
            assert(ls.drop_first()[j] == ls[j + 1]);
        }
        lemma_main_position(ls.drop_first(), k - 1);
        assert(ls.drop_first().skip(k - 1) =~= ls.skip(k));
        assert(find_from(ls[0], "fn main"@, 0) is None);
    } else {
        assert(ls.skip(0) =~= ls);
    }
}

/// The line and column at which `fn main` first appears in a file's text,
/// both 1-based; the column counts bytes, as `str::find` does.
pub fn find_main_line(content: &str) -> (r: Option<(usize, usize)>)
    ensures
        match r {
            Some((l, c)) => main_position(lines_of(content@)) == Some((l as nat, c as nat)),
            None => main_position(lines_of(content@)) is None,
        },
{
    let lines = split_lines(content);
    let pat = chars_of("fn main");
    let ghost ls = lines_of(content@);
    let mut k: usize = 0;
    while k < lines.len()
        invariant
            ls == lines_of(content@),
            strings_view(lines@) == ls,
            pat@ == "fn main"@,
            k <= lines.len(),
            forall|j: int| 0 <= j < k ==> find_from(#[trigger] ls[j], "fn main"@, 0) is None,
        decreases lines.len() - k,
    {
        let v = chars_of(lines[k].as_str());
        assert(ls[k as int] == lines@[k as int]@);
        match find_chars(&v, &pat) {
            Some(i) => {
                let mut prefix: Vec<char> = Vec::new();
                let mut j: usize = 0;
                while j < i
                    invariant
                        j <= i,
                        i <= v.len(),
                        prefix@ == v@.take(j as int),
                    decreases i - j,
                {
                    prefix.push(v[j]);
                    j = j + 1;
                    assert(prefix@ =~= v@.take(j as int));
                }
                let text = string_from_chars(&prefix);
                let n = text.as_str().len();
                let col = n.wrapping_add(1);
                proof {
                    assert(text@ == ls[k as int].take(i as int));
                    assert(col as nat == byte_column(ls[k as int].take(i as int)));
                    lemma_main_position(ls, k as int);
                    let rest = ls.skip(k as int);
                    assert(rest[0] == ls[k as int]);
                    assert(main_position(rest) == Some((1nat, col as nat)));
                }
                return Some((k + 1, col));
            },
            None => {},
        }
        k = k + 1;
    }
    proof {
        lemma_main_position(ls, k as int);
        assert(ls.skip(k as int).len() == 0);
    }
    None
}

/// The conventional files that may hold a target's `main`, in the order
/// they are tried: `src/main.rs`, `main.rs`, `<name>.rs` and
/// `src/bin/<name>.rs` under `base`.
pub open spec fn conventional_main_files(base: Seq<char>, name: Seq<char>) -> Seq<Seq<char>> {
    seq![
        joined_path(joined_path(base, "src"@), "main.rs"@),
        joined_path(base, "main.rs"@),
        joined_path(base, name + ".rs"@),
        joined_path(joined_path(joined_path(base, "src"@), "bin"@), name + ".rs"@),
    ]
}

/// The conventional files that may hold a target's `main`, in the order they are tried.
pub fn main_file_candidates(base: &str, name: &str) -> (r: Vec<String>)
    ensures
        strings_view(r@) == conventional_main_files(base@, name@),
{
    let mut file = String::from_str(name);
    file.append(".rs");
    let src = path_join(base, "src");
    let mut r: Vec<String> = Vec::new();
    r.push(path_join(src.as_str(), "main.rs"));
    r.push(path_join(base, "main.rs"));
    r.push(path_join(base, file.as_str()));
    let bin = path_join(src.as_str(), "bin");
    r.push(path_join(bin.as_str(), file.as_str()));
    assert(strings_view(r@) =~= conventional_main_files(base@, name@));
    r
}

/// The files that manifest entries named `name` give for their target:
/// the entry's `path`, or `src/main.rs`, under `manifest_dir`, in entry order.
pub open spec fn entry_main_files(entries: Seq<ManifestEntry>, name: Seq<char>, manifest_dir: Seq<char>) -> Seq<Seq<char>>
    decreases entries.len(),
{
    if entries.len() == 0 {
        Seq::empty()
    } else {
        let e = entries[0];
        let rest = entry_main_files(entries.drop_first(), name, manifest_dir);
        match e.name {
            Some(n) => if n@ == name {
                let rel = match e.path {
                    Some(p) => p@,
                    None => "src/main.rs"@,
                };
                seq![joined_path(manifest_dir, rel)] + rest
            } else {
                rest
            },
            None => rest,
        }
    }
}

/// The files that manifest entries named `name` give for their target, in entry order.
pub fn manifest_main_files(entries: &Vec<ManifestEntry>, name: &str, manifest_dir: &str) -> (r: Vec<String>)
    ensures
        strings_view(r@) == entry_main_files(entries@, name@, manifest_dir@),
{
    let mut r: Vec<String> = Vec::new();
    let mut i: usize = entries.len();
    let ghost es = entries@;
    while i > 0
        invariant
            i <= entries.len(),
            es == entries@,
            strings_view(r@) == entry_main_files(es.skip(i as int), name@, manifest_dir@),
        decreases i,
    {
        i = i - 1;
        let e = &entries[i];
        assert(es.skip(i as int).drop_first() =~= es.skip(i + 1));
        assert(es.skip(i as int)[0] == es[i as int]);
        let ghost before = strings_view(r@);
        match &e.name {
            Some(n) => {
                if crate::cli::str_eq_exact(n.as_str(), name) {
                    let file = match &e.path {
                        Some(p) => path_join(manifest_dir, p.as_str()),
                        None => path_join(manifest_dir, "src/main.rs"),
                    };
                    r.insert(0, file);
                    assert(strings_view(r@) =~= seq![joined_path(manifest_dir@, match e.path {
                        Some(p) => p@,
                        None => "src/main.rs"@,
                    })] + before);
                }
            },
            None => {},
        }
    }
    assert(es.skip(0) =~= es);
    r
}

/// The section whose entries name a target's file: `[[bin]]` for a binary;
/// otherwise `[[example]]`, or `[[bin]]` when the manifest has no examples.
pub open spec fn main_section(m: ManifestData, binary: bool) -> Option<Seq<ManifestEntry>> {
    let sec = if binary {
        m.bin
    } else {
        match m.example {
            Some(e) => Some(e),
            None => m.bin,
        }
    };
    match sec {
        Some(v) => Some(v@),
        None => None,
    }
}

/// The files the manifest gives for a target named `name`, in entry order.
pub fn manifest_main_files_for(m: &ManifestData, binary: bool, name: &str, manifest_dir: &str) -> (r: Vec<String>)
    ensures
        strings_view(r@) == match main_section(*m, binary) {
            Some(es) => entry_main_files(es, name@, manifest_dir@),
            None => Seq::empty(),
        },
{
    let sec = if binary {
        &m.bin
    } else {
        match &m.example {
            Some(_) => &m.example,
            None => &m.bin,
        }
    };
    match sec {
        Some(es) => manifest_main_files(es, name, manifest_dir),
        None => {
            let r: Vec<String> = Vec::new();
            assert(strings_view(r@) =~= Seq::<Seq<char>>::empty());
            r
        },
    }
}

/// The file tried when neither the conventional places nor the manifest
/// gave one: `src/main.rs` in the manifest's folder for a binary or an
/// extended example, `examples/<name>.rs` under the working directory for
/// another example.
pub open spec fn fallback_main(
    kind: TargetKind,
    extended: bool,
    manifest_dir: Option<Seq<char>>,
    cwd: Seq<char>,
    name: Seq<char>,
) -> Option<Seq<char>> {
    if kind == TargetKind::Binary || (kind == TargetKind::Example && extended) {
        match manifest_dir {
            Some(d) => Some(joined_path(d, "src/main.rs"@)),
            None => None,
        }
    } else if kind == TargetKind::Example {
        Some(joined_path(joined_path(cwd, "examples"@), name + ".rs"@))
    } else {
        None
    }
}

/// The file tried last for a target's `main`.
pub fn fallback_main_file(kind: TargetKind, extended: bool, manifest_dir: &Option<String>, cwd: &str, name: &str) -> (r: Option<String>)
    ensures
        crate::pattern::opt_view(r) == fallback_main(kind, extended, crate::pattern::opt_view(*manifest_dir), cwd@, name@),
{
    if kind == TargetKind::Binary || (kind == TargetKind::Example && extended) {
        match manifest_dir {
            Some(d) => Some(path_join(d.as_str(), "src/main.rs")),
            None => None,
        }
    } else if kind == TargetKind::Example {
        let mut file = String::from_str(name);
        file.append(".rs");
        let dir = path_join(cwd, "examples");
        Some(path_join(dir.as_str(), file.as_str()))
    } else {
        None
    }
}

/// `is_file` said no for the file `f`.
pub open spec fn file_absent<F: Fn(&str) -> bool>(is_file: F, f: Seq<char>) -> bool {
    exists|s: &str| #![trigger is_file.ensures((s,), false)] s@ == f && is_file.ensures((s,), false)
}

/// `is_file` said yes for the file `f`.
pub open spec fn file_present<F: Fn(&str) -> bool>(is_file: F, f: Seq<char>) -> bool {
    exists|s: &str| #![trigger is_file.ensures((s,), true)] s@ == f && is_file.ensures((s,), true)
}

/// `c` is the first of `files` that `is_file` said yes for: it said no for
/// every earlier one.
pub open spec fn first_found<F: Fn(&str) -> bool>(is_file: F, files: Seq<Seq<char>>, c: Seq<char>) -> bool {
    exists|k: int| 0 <= k < files.len() && #[trigger] files[k] == c && file_present(is_file, c)
        && forall|j: int| 0 <= j < k ==> file_absent(is_file, #[trigger] files[j])
}

/// `is_file` said no for every one of `files`.
pub open spec fn none_found<F: Fn(&str) -> bool>(is_file: F, files: Seq<Seq<char>>) -> bool {
    forall|j: int| 0 <= j < files.len() ==> file_absent(is_file, #[trigger] files[j])
}

/// The first of `candidates` that `is_file` says is there: one for which it
/// said yes after it said no for every earlier one; `None` when it said no
/// for all.
pub fn first_existing<F: Fn(&str) -> bool>(candidates: &Vec<String>, is_file: &F) -> (r: Option<String>)
    requires
        forall|s: &str| is_file.requires((s,)),
    ensures
        match r {
            Some(c) => first_found(*is_file, strings_view(candidates@), c@),
            None => none_found(*is_file, strings_view(candidates@)),
        },
{
    let ghost fs = strings_view(candidates@);
    let mut i: usize = 0;
    while i < candidates.len()
        invariant
            forall|s: &str| is_file.requires((s,)),
            fs == strings_view(candidates@),
            i <= candidates.len(),
            forall|j: int| 0 <= j < i ==> file_absent(*is_file, #[trigger] fs[j]),
        decreases candidates.len() - i,
    {
        let c = candidates[i].as_str();
        assert(fs[i as int] == c@);
        if is_file(c) {
            assert(file_present(*is_file, c@));
            return Some(candidates[i].clone());
        }
        assert(file_absent(*is_file, c@));
        i = i + 1;
    }
    None
}

/// The manifest of the first member called `name`, if any.
pub open spec fn first_member(ms: Seq<(String, String)>, name: Seq<char>) -> Option<Seq<char>>
    decreases ms.len(),
{
    if ms.len() == 0 {
        None
    } else if ms[0].0@ == name {
        Some(ms[0].1@)
    } else {
        first_member(ms.drop_first(), name)
    }
}

/// The folder the search for a target's `main` starts from: in a workspace
/// whose members are known, the folder of the first member named like the
/// target, else the manifest's folder.
pub open spec fn search_base(manifest_path: Seq<char>, members: Option<Seq<(String, String)>>, name: Seq<char>) -> Option<Seq<char>> {
    match members {
        Some(ms) => match first_member(ms, name) {
            Some(m) => parent_of(m),
            None => parent_of(manifest_path),
        },
        None => parent_of(manifest_path),
    }
}

/// The folder the search for a target's `main` starts from.
pub fn main_search_base(manifest_path: &str, members: &Option<Vec<(String, String)>>, name: &str) -> (r: Option<String>)
    ensures
        crate::pattern::opt_view(r) == search_base(
            manifest_path@,
            match members {
                Some(v) => Some(v@),
                None => None,
            },
            name@,
        ),
{
    match members {
        Some(ms) => {
            let mut i: usize = 0;
            assert(ms@.skip(0) =~= ms@);
            while i < ms.len()
                invariant
                    i <= ms.len(),
                    (match members { Some(v) => Some(v@), None => None }) == Some(ms@),
                    first_member(ms@.skip(i as int), name@) == first_member(ms@, name@),
                decreases ms.len() - i,
            {
                assert(ms@.skip(i as int)[0] == ms@[i as int]);
                assert(ms@.skip(i as int).drop_first() =~= ms@.skip(i + 1));
                if crate::cli::str_eq_exact(ms[i].0.as_str(), name) {
                    assert(first_member(ms@.skip(i as int), name@) == Some(ms@[i as int].1@));
                    let p = path_parent(ms[i].1.as_str());
                    return p;
                }
                i = i + 1;
            }
            assert(ms@.skip(i as int).len() == 0);
            path_parent(manifest_path)
        },
        None => path_parent(manifest_path),
    }
}

/// The files tried for a target's `main`, in order: the conventional ones
/// under `base`, then those the manifest (when it could be read) gives for
/// the target, under the manifest's folder.
pub open spec fn main_file_search(
    base: Seq<char>,
    name: Seq<char>,
    manifest: Option<ManifestData>,
    binary: bool,
    manifest_dir: Seq<char>,
) -> Seq<Seq<char>> {
    conventional_main_files(base, name) + match manifest {
        Some(m) => match main_section(m, binary) {
            Some(es) => entry_main_files(es, name, manifest_dir),
            None => Seq::empty(),
        },
        None => Seq::empty(),
    }
}

/// Finds the file holding a target's `main`: the first of the files
/// `main_file_search` lists (from the search base, and the manifest's
/// folder) that `is_file` says is there. Nothing is found where the search
/// base or the manifest's folder is missing, or where `is_file` says no for
/// every file.
pub fn find_main_file<F: Fn(&str) -> bool>(
    manifest_path: &str,
    members: &Option<Vec<(String, String)>>,
    name: &str,
    manifest: &Option<ManifestData>,
    binary: bool,
    is_file: &F,
) -> (r: Option<String>)
    requires
        forall|s: &str| is_file.requires((s,)),
    ensures
        ({
            let base = search_base(manifest_path@, match members { Some(v) => Some(v@), None => None }, name@);
            match (base, parent_of(manifest_path@)) {
                (Some(b), Some(d)) => {
                    let files = main_file_search(b, name@, *manifest, binary, d);
                    match r {
                        Some(c) => first_found(*is_file, files, c@),
                        None => none_found(*is_file, files),
                    }
                },
                _ => r is None,
            }
        }),
{
    let base = match main_search_base(manifest_path, members, name) {
        Some(b) => b,
        None => return None,
    };
    let dir = match path_parent(manifest_path) {
        Some(d) => d,
        None => return None,
    };
    let mut files = main_file_candidates(base.as_str(), name);
    let ghost conv = strings_view(files@);
    match manifest {
        Some(m) => {
            let mut more = manifest_main_files_for(m, binary, name, dir.as_str());
            let ghost extra = strings_view(more@);
            files.append(&mut more);
            assert(strings_view(files@) =~= conv + extra);
        },
        None => {
            assert(strings_view(files@) =~= conv + Seq::<Seq<char>>::empty());
        },
    }
    assert(strings_view(files@) == main_file_search(base@, name@, *manifest, binary, dir@));
    assert(search_base(manifest_path@, match members { Some(v) => Some(v@), None => None }, name@) == Some(base@));
    assert(parent_of(manifest_path@) == Some(dir@));
    first_existing(&files, is_file)
}

/// The folder an editor opens for a target, and where it goes to: the
/// folder of the file found to hold `main` (the file itself when it has no
/// parent) with `file:line:column` when `fn main` was found in it and the
/// bare file otherwise; with no file, the manifest's folder and nowhere.
pub open spec fn editor_target(
    manifest_path: Seq<char>,
    file: Option<Seq<char>>,
    main_at: Option<(nat, nat)>,
) -> (Seq<char>, Option<Seq<char>>) {
    match file {
        Some(f) => {
            let folder = match parent_of(f) {
                Some(p) => p,
                None => f,
            };
            match main_at {
                Some((l, c)) => (folder, Some(f + ":"@ + decimal(l) + ":"@ + decimal(c))),
                None => (folder, Some(f)),
            }
        },
        None => (
            match parent_of(manifest_path) {
                Some(p) => p,
                None => manifest_path,
            },
            None,
        ),
    }
}

/// The arguments for an editor: the folder to open and the optional
/// `--goto` location, given the file found to hold `main` and where `fn main`
/// is in it.
pub fn compute_vscode_args(
    manifest_path: &str,
    file: &Option<String>,
    main_at: Option<(usize, usize)>,
) -> (r: (String, Option<String>))
    ensures
        (r.0@, crate::pattern::opt_view(r.1)) == editor_target(
            manifest_path@,
            crate::pattern::opt_view(*file),
            match main_at {
                Some((l, c)) => Some((l as nat, c as nat)),
                None => None,
            },
        ),
{
    match file {
        Some(f) => {
            let folder = match path_parent(f.as_str()) {
                Some(p) => p,
                None => f.clone(),
            };
            match main_at {
                Some((l, c)) => {
                    let mut goto = f.clone();
                    goto.append(":");
                    goto.append(u64_to_string(l as u64).as_str());
                    goto.append(":");
                    goto.append(u64_to_string(c as u64).as_str());
                    (folder, Some(goto))
                },
                None => (folder, Some(f.clone())),
            }
        },
        None => {
            let folder = match path_parent(manifest_path) {
                Some(p) => p,
                None => String::from_str(manifest_path),
            };
            (folder, None)
        },
    }
}

} // verus!
