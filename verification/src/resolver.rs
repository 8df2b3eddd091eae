//! The binary resolver: from a logical binary name and the optional search
//! directories to the ordered candidate paths and the final choice. No
//! failure is possible: when no candidate file exists the bare name is
//! returned and the operating system's search path decides at spawn time.
use vstd::prelude::*;
use crate::text::{views_of, lemma_views_of_push, push_char};

verus! {

/// What joining a relative file onto a directory yields: the platform
/// separator is inserted unless the directory is empty or already ends in a
/// separator (`/` counts as one on every platform).
pub open spec fn spec_join_path(dir: Seq<char>, sep: char, file: Seq<char>) -> Seq<char> {
    if dir.len() == 0 {
        file
    } else if dir.last() == sep || dir.last() == '/' {
        dir + file
    } else {
        dir + seq![sep] + file
    }
}

pub fn join_path(dir: &str, sep: char, file: &str) -> (r: String)
    ensures
        r@ == spec_join_path(dir@, sep, file@),
{
    let n = dir.unicode_len();
    if n == 0 {
        return file.to_owned();
    }
    let last = dir.get_char(n - 1);
    let mut s = dir.to_owned();
    if !(last == sep || last == '/') {
        push_char(&mut s, sep);
        assert(s@ =~= dir@ + seq![sep]);
    }
    s.append(file);
    s
}

/// The file name to look for: the bare name, or name dot platform extension.
pub open spec fn spec_binary_filename(name: Seq<char>, exe_ext: Seq<char>) -> Seq<char> {
    if exe_ext.len() == 0 {
        name
    } else {
        name + "."@ + exe_ext
    }
}

pub fn binary_filename(name: &str, exe_ext: &str) -> (r: String)
    ensures
        r@ == spec_binary_filename(name@, exe_ext@),
{
    if exe_ext.is_empty() {
        name.to_owned()
    } else {
        let mut s = name.to_owned();
        s.append(".");
        s.append(exe_ext);
        s
    }
}

/// The conventional sub-directory that an acquired distribution lands in.
pub open spec fn spec_bin_dir_name() -> Seq<char> {
    "scrcpy-bin"@
}

/// The ordered candidate paths, first match intended to win: the
/// user-supplied directory, the conventional sub-directory of the working
/// directory, then the same sub-directory beside the running executable.
pub open spec fn spec_candidates(
    filename: Seq<char>,
    custom: Option<Seq<char>>,
    cwd: Option<Seq<char>>,
    exe_dir: Option<Seq<char>>,
    sep: char,
) -> Seq<Seq<char>> {
    (match custom {
        Some(d) => seq![spec_join_path(d, sep, filename)],
        None => Seq::empty(),
    }) + (match cwd {
        Some(d) => seq![
            spec_join_path(spec_join_path(d, sep, spec_bin_dir_name()), sep, filename),
        ],
        None => Seq::empty(),
    }) + (match exe_dir {
        Some(d) => seq![
            spec_join_path(spec_join_path(d, sep, spec_bin_dir_name()), sep, filename),
        ],
        None => Seq::empty(),
    })
}

pub fn candidate_paths(
    filename: &str,
    custom: &Option<String>,
    cwd: &Option<String>,
    exe_dir: &Option<String>,
    sep: char,
) -> (r: Vec<String>)
    ensures
        views_of(r@) == spec_candidates(
            filename@,
            crate::config::opt_view(*custom),
            crate::config::opt_view(*cwd),
            crate::config::opt_view(*exe_dir),
            sep,
        ),
{
    let mut r: Vec<String> = Vec::new();
    assert(views_of(r@) =~= Seq::<Seq<char>>::empty());
    if let Some(d) = custom {
        let p = join_path(d.as_str(), sep, filename);
        proof {
            lemma_views_of_push(r@, p);
        }
        r.push(p);
    }
    if let Some(d) = cwd {
        let bin = join_path(d.as_str(), sep, "scrcpy-bin");
        let p = join_path(bin.as_str(), sep, filename);
        proof {
            lemma_views_of_push(r@, p);
        }
        r.push(p);
    }
    if let Some(d) = exe_dir {
        let bin = join_path(d.as_str(), sep, "scrcpy-bin");
        let p = join_path(bin.as_str(), sep, filename);
        proof {
            lemma_views_of_push(r@, p);
        }
        r.push(p);
    }
    assert(views_of(r@) =~= spec_candidates(
        filename@,
        crate::config::opt_view(*custom),
        crate::config::opt_view(*cwd),
        crate::config::opt_view(*exe_dir),
        sep,
    ));
    r
}

/// The resolver's verdict given which candidates exist on disk: the first
/// existing candidate, else the bare name for the system search path.
pub open spec fn spec_choose_binary(
    name: Seq<char>,
    cands: Seq<Seq<char>>,
    present: Seq<bool>,
) -> Seq<char>
    decreases cands.len(),
{
    if cands.len() == 0 || present.len() == 0 {
        name
    } else if present[0] {
        cands[0]
    } else {
        spec_choose_binary(name, cands.skip(1), present.skip(1))
    }
}

proof fn lemma_choose_at(name: Seq<char>, cands: Seq<Seq<char>>, present: Seq<bool>, i: int)
    requires
        cands.len() == present.len(),
        0 <= i < cands.len(),
        present[i],
        forall|j: int| 0 <= j < i ==> !present[j],
    ensures
        spec_choose_binary(name, cands, present) == cands[i],
    decreases i,
{
    if i > 0 {
        lemma_choose_at(name, cands.skip(1), present.skip(1), i - 1);
    }
}

proof fn lemma_choose_none(name: Seq<char>, cands: Seq<Seq<char>>, present: Seq<bool>)
    requires
        cands.len() == present.len(),
        forall|j: int| 0 <= j < present.len() ==> !present[j],
    ensures
        spec_choose_binary(name, cands, present) == name,
    decreases cands.len(),
{
    if cands.len() > 0 {
        lemma_choose_none(name, cands.skip(1), present.skip(1));
    }
}

pub fn choose_binary(name: &str, candidates: &Vec<String>, present: &Vec<bool>) -> (r: String)
    requires
        candidates@.len() == present@.len(),
    ensures
        r@ == spec_choose_binary(name@, views_of(candidates@), present@),
{
    let n = candidates.len();
    let mut i: usize = 0;
    while i < n
        invariant
            n == candidates@.len(),
            candidates@.len() == present@.len(),
            i <= n,
            forall|j: int| 0 <= j < i ==> !present@[j],
        decreases n - i,
    {
        if present[i] {
            proof {
                lemma_choose_at(name@, views_of(candidates@), present@, i as int);
            }
            return candidates[i].clone();
        }
        i += 1;
    }
    proof {
        lemma_choose_none(name@, views_of(candidates@), present@);
    }
    name.to_owned()
}

} // verus!
