//! Searching a colon-separated list of directories for an executable file.

use vstd::prelude::*;
use crate::text::{concat_str, opt_view, push_char, views};

verus! {

/// What the search needs to know of a file: whether it is a regular file,
/// and its permission bits.
#[derive(PartialEq, Eq, Structural, Debug, Clone, Copy)]
pub struct FileMeta {
    pub is_file: bool,
    pub mode: u32,
}

/// The execute bit of owner, group or other is set.
pub open spec fn has_exec_bit(mode: u32) -> bool {
    (mode & 0o100u32) != 0 || (mode & 0o010u32) != 0 || (mode & 0o001u32) != 0
}

/// A file counts as executable when its metadata could be read, it is a
/// regular file, and some execute bit is set.
pub open spec fn executable(meta: Option<FileMeta>) -> bool {
    match meta {
        Some(m) => m.is_file && has_exec_bit(m.mode),
        None => false,
    }
}

/// Whether a file with metadata `meta` (`None`: it could not be read) may
/// be run as a program.
pub fn is_executable_file(meta: Option<FileMeta>) -> (r: bool)
    ensures
        r == executable(meta),
{
    match meta {
        Some(m) => {
            let mode = m.mode;
            assert(((mode & 0o111u32) != 0) == ((mode & 0o100u32) != 0 || (mode & 0o010u32) != 0
                || (mode & 0o001u32) != 0)) by (bit_vector);
            m.is_file && (mode & 0o111u32) != 0
        },
        None => false,
    }
}

/// The splitter's state: the finished pieces and the piece being built.
pub struct SplitState {
    pub pieces: Seq<Seq<char>>,
    pub current: Seq<char>,
}

/// The splitter's state after reading all of `s`.
pub open spec fn split_scan(s: Seq<char>) -> SplitState
    decreases s.len(),
{
    if s.len() == 0 {
        SplitState { pieces: Seq::empty(), current: Seq::empty() }
    } else {
        let st = split_scan(s.drop_last());
        if s.last() == ':' {
            SplitState { pieces: st.pieces.push(st.current), current: Seq::empty() }
        } else {
            SplitState { current: st.current.push(s.last()), ..st }
        }
    }
}

/// The pieces of `s` between colons, empty ones included; there is always
/// one more piece than there are colons.
pub open spec fn split_colons(s: Seq<char>) -> Seq<Seq<char>> {
    split_scan(s).pieces.push(split_scan(s).current)
}

/// `name` appended to the directory `dir` as a path: an absolute name
/// replaces the directory, and a separator is put between the two unless
/// `dir` is empty or already ends in one.
pub open spec fn join_path(dir: Seq<char>, name: Seq<char>) -> Seq<char> {
    if name.len() > 0 && name[0] == '/' {
        name
    } else if dir.len() > 0 && dir.last() != '/' {
        dir + seq!['/'] + name
    } else {
        dir + name
    }
}

/// The paths tried for `name`, one per directory of the search list, in
/// order; none when there is no search list.
pub open spec fn candidates(name: Seq<char>, search: Option<Seq<char>>) -> Seq<Seq<char>> {
    match search {
        Some(s) => split_colons(s).map_values(|d: Seq<char>| join_path(d, name)),
        None => Seq::empty(),
    }
}

/// Splits `s` at every colon.
pub fn split_colon_list(s: &str) -> (r: Vec<String>)
    ensures
        views(r@) == split_colons(s@),
{
    let mut pieces: Vec<String> = Vec::new();
    let mut current = String::new();
    let n = s.unicode_len();
    let mut i: usize = 0;
    while i < n
        invariant
            n == s@.len(),
            i <= n,
            views(pieces@) == split_scan(s@.take(i as int)).pieces,
            current@ == split_scan(s@.take(i as int)).current,
        decreases n - i,
    {
        let ch = s.get_char(i);
        assert(s@.take(i + 1).drop_last() =~= s@.take(i as int));
        if ch == ':' {
            let ghost old_pieces = pieces@;
            pieces.push(current);
            assert(views(pieces@) =~= views(old_pieces).push(current@));
            current = String::new();
        } else {
            push_char(&mut current, ch);
        }
        i = i + 1;
    }
    assert(s@.take(n as int) =~= s@);
    let ghost old_pieces = pieces@;
    pieces.push(current);
    assert(views(pieces@) =~= views(old_pieces).push(current@));
    pieces
}

/// The path of `name` inside the directory `dir`.
pub fn join_dir(dir: &str, name: &str) -> (r: String)
    ensures
        r@ == join_path(dir@, name@),
{
    let name_len = name.unicode_len();
    let dir_len = dir.unicode_len();
    if name_len > 0 && name.get_char(0) == '/' {
        String::from_str(name)
    } else if dir_len > 0 && dir.get_char(dir_len - 1) != '/' {
        let mut r = String::from_str(dir);
        push_char(&mut r, '/');
        r.append(name);
        r
    } else {
        concat_str(dir, name)
    }
}

/// The paths to try for `cmd_name` under the search list `path_var`, in
/// the order of its directories.
pub fn path_candidates(cmd_name: &str, path_var: &Option<String>) -> (r: Vec<String>)
    ensures
        views(r@) == candidates(cmd_name@, opt_view(*path_var)),
{
    let mut r: Vec<String> = Vec::new();
    match path_var {
        None => {
            assert(views(r@) =~= Seq::<Seq<char>>::empty());
        },
        Some(p) => {
            let dirs = split_colon_list(p.as_str());
            let ghost want = candidates(cmd_name@, Some(p@));
            let n = dirs.len();
            let mut i: usize = 0;
            while i < n
                invariant
                    n == dirs@.len(),
                    i <= n,
                    views(dirs@) == split_colons(p@),
                    want == split_colons(p@).map_values(|d: Seq<char>| join_path(d, cmd_name@)),
                    r@.len() == i,
                    forall|k: int| 0 <= k < i ==> r@[k]@ == want[k],
                decreases n - i,
            {
                assert(views(dirs@)[i as int] == dirs@[i as int]@);
                let c = join_dir(dirs[i].as_str(), cmd_name);
                r.push(c);
                i = i + 1;
            }
            assert(views(r@) =~= want);
        },
    }
    r
}

/// The first of `paths` whose metadata, at the same position of `metas`,
/// shows an executable file.
pub open spec fn first_executable(paths: Seq<Seq<char>>, metas: Seq<Option<FileMeta>>) -> Option<
    Seq<char>,
>
    decreases metas.len(),
{
    if metas.len() == 0 || paths.len() == 0 {
        None
    } else if executable(metas[0]) {
        Some(paths[0])
    } else {
        first_executable(paths.drop_first(), metas.drop_first())
    }
}

/// The first candidate whose file is executable: `metas[i]` is what was
/// read of `candidates[i]`.
pub fn find_in_path(candidates: &Vec<String>, metas: &Vec<Option<FileMeta>>) -> (r: Option<
    String,
>)
    requires
        candidates@.len() == metas@.len(),
    ensures
        opt_view(r) == first_executable(views(candidates@), metas@),
{
    let ghost paths = views(candidates@);
    let n = metas.len();
    let mut i: usize = 0;
    assert(paths.skip(0) =~= paths);
    assert(metas@.skip(0) =~= metas@);
    while i < n
        invariant
            n == metas@.len(),
            n == candidates@.len(),
            paths == views(candidates@),
            i <= n,
            first_executable(paths, metas@) == first_executable(
                paths.skip(i as int),
                metas@.skip(i as int),
            ),
        decreases n - i,
    {
        assert(paths.skip(i as int).drop_first() =~= paths.skip(i + 1));
        assert(metas@.skip(i as int).drop_first() =~= metas@.skip(i + 1));
        if is_executable_file(metas[i]) {
            return Some(candidates[i].clone());
        }
        i = i + 1;
    }
    None
}

} // verus!
