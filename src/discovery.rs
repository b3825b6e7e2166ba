use vstd::prelude::*;
use vstd::string::*;

use crate::text::{contains, contains_seq, has_prefix, starts_with, str_eq};

verus! {

/// The index of the last `c` in `s`, or -1.
pub open spec fn last_index_of(s: Seq<char>, c: char) -> int
    decreases s.len(),
{
    if s.len() == 0 {
        -1
    } else if s.last() == c {
        s.len() - 1
    } else {
        last_index_of(s.drop_last(), c)
    }
}

proof fn lemma_last_index_bounds(s: Seq<char>, c: char)
    ensures
        -1 <= last_index_of(s, c) < s.len(),
        last_index_of(s, c) >= 0 ==> s[last_index_of(s, c)] == c,
    decreases s.len(),
{
    if s.len() > 0 && s.last() != c {
        lemma_last_index_bounds(s.drop_last(), c);
    }
}

/// The last component of a `/`-separated path.
pub open spec fn base_name(path: Seq<char>) -> Seq<char> {
    path.subrange(last_index_of(path, '/') + 1, path.len() as int)
}

/// The base name without its extension. A base name whose only dot leads it has no extension.
pub open spec fn file_stem(path: Seq<char>) -> Seq<char> {
    let b = base_name(path);
    let d = last_index_of(b, '.');
    if d > 0 {
        b.subrange(0, d)
    } else {
        b
    }
}

/// What follows the last dot of the base name, when that dot does not lead it.
pub open spec fn extension(path: Seq<char>) -> Option<Seq<char>> {
    let b = base_name(path);
    let d = last_index_of(b, '.');
    if d > 0 {
        Some(b.subrange(d + 1, b.len() as int))
    } else {
        None
    }
}

/// The extension of source files of the language under test.
pub open spec fn source_extension() -> Seq<char> {
    "py"@
}

/// Whether `path` holds one of the `ignores` fragments.
pub open spec fn is_ignored(path: Seq<char>, ignores: Seq<Seq<char>>) -> bool {
    exists|i: int| 0 <= i < ignores.len() && contains_seq(path, #[trigger] ignores[i])
}

/// Whether discovery keeps a path: a regular file whose stem starts with `prefix`, whose
/// extension is the source extension, and which holds no ignored fragment.
pub open spec fn is_discovered(path: Seq<char>, is_file: bool, prefix: Seq<char>, ignores: Seq<Seq<char>>) -> bool {
    &&& is_file
    &&& has_prefix(file_stem(path), prefix)
    &&& extension(path) == Some(source_extension())
    &&& !is_ignored(path, ignores)
}

/// A path that a root pattern matched, and whether it is a regular file.
#[derive(Debug)]
pub struct FileCandidate {
    pub path: String,
    pub is_file: bool,
}

/// The paths of the candidates that discovery keeps, in order.
pub open spec fn discovered(candidates: Seq<FileCandidate>, prefix: Seq<char>, ignores: Seq<Seq<char>>) -> Seq<Seq<char>>
    decreases candidates.len(),
{
    if candidates.len() == 0 {
        Seq::<Seq<char>>::empty()
    } else {
        let rest = discovered(candidates.drop_last(), prefix, ignores);
        let c = candidates.last();
        if is_discovered(c.path@, c.is_file, prefix, ignores) {
            rest.push(c.path@)
        } else {
            rest
        }
    }
}

/// The position just past the last `c` in `s`, or 0.
fn after_last(s: &str, c: char) -> (r: usize)
    ensures
        r as int == last_index_of(s@, c) + 1,
{
    let n = s.unicode_len();
    let mut j: usize = n;
    assert(s@.subrange(0, n as int) =~= s@);
    while j > 0 && s.get_char(j - 1) != c
        invariant
            j <= n,
            n == s@.len(),
            last_index_of(s@, c) == last_index_of(s@.subrange(0, j as int), c),
        decreases j,
    {
        assert(s@.subrange(0, j as int).drop_last() =~= s@.subrange(0, j - 1));
        j = j - 1;
    }
    j
}

/// Whether `path` holds one of the `ignores` fragments.
fn ignored(path: &str, ignores: &Vec<String>) -> (r: bool)
    ensures
        r == is_ignored(path@, ignores.deep_view()),
{
    let mut i: usize = 0;
    while i < ignores.len()
        invariant
            i <= ignores@.len(),
            forall|k: int| 0 <= k < i ==> !contains_seq(path@, #[trigger] ignores.deep_view()[k]),
        decreases ignores@.len() - i,
    {
        if contains(path, ignores[i].as_str()) {
            assert(contains_seq(path@, ignores.deep_view()[i as int]));
            return true;
        }
        i = i + 1;
    }
    false
}

/// The base name of `path` and the position just past its last dot (0 when it has none).
fn split_base(path: &str) -> (r: (&str, usize))
    ensures
        r.0@ == base_name(path@),
        r.1 as int == last_index_of(base_name(path@), '.') + 1,
{
    let n = path.unicode_len();
    let slash = after_last(path, '/');
    proof {
        lemma_last_index_bounds(path@, '/');
    }
    let base = path.substring_char(slash, n);
    let dot = after_last(base, '.');
    (base, dot)
}

/// Whether the extension of `path` is the source extension.
pub fn has_source_extension(path: &str) -> (r: bool)
    ensures
        r == (extension(path@) == Some(source_extension())),
{
    let (base, dot) = split_base(path);
    proof {
        lemma_last_index_bounds(base@, '.');
    }
    if dot > 1 {
        str_eq(base.substring_char(dot, base.unicode_len()), "py")
    } else {
        false
    }
}

/// Whether the stem of `path` starts with `prefix`.
fn stem_starts_with(path: &str, prefix: &str) -> (r: bool)
    ensures
        r == has_prefix(file_stem(path@), prefix@),
{
    let (base, dot) = split_base(path);
    proof {
        lemma_last_index_bounds(base@, '.');
    }
    if dot > 1 {
        starts_with(base.substring_char(0, dot - 1), prefix)
    } else {
        starts_with(base, prefix)
    }
}

/// Whether discovery keeps `path`: it is a regular file, its stem starts with `file_prefix`,
/// its extension is `py`, and it holds none of the `ignores` fragments.
pub fn accepts_file(path: &str, is_file: bool, file_prefix: &str, ignores: &Vec<String>) -> (r: bool)
    ensures
        r == is_discovered(path@, is_file, file_prefix@, ignores.deep_view()),
{
    is_file && stem_starts_with(path, file_prefix) && has_source_extension(path) && !ignored(path, ignores)
}

/// The paths of the candidates that discovery keeps, in the order given.
pub fn select_files(candidates: &Vec<FileCandidate>, file_prefix: &str, ignores: &Vec<String>) -> (r: Vec<String>)
    ensures
        r.deep_view() == discovered(candidates@, file_prefix@, ignores.deep_view()),
{
    let mut kept: Vec<String> = Vec::new();
    let mut i: usize = 0;
    assert(candidates@.subrange(0, 0) =~= Seq::<FileCandidate>::empty());
    while i < candidates.len()
        invariant
            i <= candidates@.len(),
            kept.deep_view() == discovered(candidates@.subrange(0, i as int), file_prefix@, ignores.deep_view()),
        decreases candidates@.len() - i,
    {
        let ghost seen = candidates@.subrange(0, i + 1);
        assert(seen.drop_last() =~= candidates@.subrange(0, i as int));
        let c = &candidates[i];
        if accepts_file(c.path.as_str(), c.is_file, file_prefix, ignores) {
            let ghost prev = kept.deep_view();
            kept.push(c.path.clone());
            assert(kept.deep_view() =~= prev.push(c.path@));
        }
        i = i + 1;
    }
    assert(candidates@.subrange(0, candidates@.len() as int) =~= candidates@);
    kept
}

/// `root` without one trailing `/`.
pub open spec fn without_trailing_slash(root: Seq<char>) -> Seq<char> {
    if root.len() > 0 && root.last() == '/' {
        root.drop_last()
    } else {
        root
    }
}

/// The glob pattern for a root: every path below it for a directory, the root itself otherwise.
pub fn glob_pattern(root: &str, is_dir: bool) -> (r: String)
    ensures
        r@ == if is_dir {
            without_trailing_slash(root@) + "/**/*"@
        } else {
            root@
        },
{
    if !is_dir {
        return String::from_str(root);
    }
    let n = root.unicode_len();
    let end = if n > 0 && root.get_char(n - 1) == '/' {
        n - 1
    } else {
        n
    };
    let mut pattern = String::from_str(root.substring_char(0, end));
    pattern.append("/**/*");
    assert(root@.subrange(0, n as int) =~= root@);
    assert(root@.drop_last() =~= root@.subrange(0, n - 1));
    pattern
}

} // verus!

verus! {

/// Discovery never yields a path whose stem lacks the file prefix, whose extension is not
/// the source extension, or that holds an ignored fragment.
pub proof fn lemma_discovered_paths_qualify(
    candidates: Seq<FileCandidate>,
    prefix: Seq<char>,
    ignores: Seq<Seq<char>>,
)
    ensures
        forall|i: int|
            0 <= i < discovered(candidates, prefix, ignores).len() ==> {
                let p = #[trigger] discovered(candidates, prefix, ignores)[i];
                &&& has_prefix(file_stem(p), prefix)
                &&& extension(p) == Some(source_extension())
                &&& !is_ignored(p, ignores)
            },
    decreases candidates.len(),
{
    if candidates.len() > 0 {
        lemma_discovered_paths_qualify(candidates.drop_last(), prefix, ignores);
    }
}

} // verus!
