use vstd::prelude::*;
use vstd::string::*;

use crate::discovery::{extension, has_source_extension, source_extension};
use crate::text::{contains, contains_seq, str_eq};

verus! {

/// `"def <name>("`: the text of a function definition named `name`.
pub open spec fn def_pattern(name: Seq<char>) -> Seq<char> {
    "def "@ + name + "("@
}

/// `"fixture(name=\"<name>\")"`: the text of a fixture registered under `name`.
pub open spec fn registration_pattern(name: Seq<char>) -> Seq<char> {
    "fixture(name=\""@ + name + "\")"@
}

/// Whether the text of a file defines the fixture `name`.
pub open spec fn defines_fixture(content: Seq<char>, name: Seq<char>) -> bool {
    contains_seq(content, def_pattern(name)) || contains_seq(content, registration_pattern(name))
}

/// Whether the text of a file defines the fixture `fixture_name`: it holds a definition of a
/// function of that name, or a fixture registration that names it.
pub fn file_contains_fixture(content: &str, fixture_name: &str) -> (r: bool)
    ensures
        r == defines_fixture(content@, fixture_name@),
{
    let mut def_text = String::from_str("def ");
    def_text.append(fixture_name);
    def_text.append("(");
    let mut registration = String::from_str("fixture(name=\"");
    registration.append(fixture_name);
    registration.append("\")");
    contains(content, def_text.as_str()) || contains(content, registration.as_str())
}

/// Whether the search ends at its start: the start path is a file whose text defines the
/// fixture.
pub fn resolves_at_start(start_is_file: bool, start_content: Option<&str>, fixture_name: &str) -> (r: bool)
    ensures
        r == (start_is_file && (start_content matches Some(c) && defines_fixture(c@, fixture_name@))),
{
    match start_content {
        Some(c) => start_is_file && file_contains_fixture(c, fixture_name),
        None => false,
    }
}

/// An entry of a directory listing: its name, whether it is a directory, and the text of the
/// file when it is a source file that could be read.
#[derive(Debug)]
pub struct DirEntryInfo {
    pub name: String,
    pub is_dir: bool,
    pub content: Option<String>,
}

/// Whether a listed entry is a source file that defines the fixture `name`.
pub open spec fn entry_defines(e: DirEntryInfo, name: Seq<char>) -> bool {
    &&& !e.is_dir
    &&& extension(e.name@) == Some(source_extension())
    &&& e.content matches Some(c) && defines_fixture(c@, name)
}

/// The index of the first entry that defines the fixture `name`.
pub open spec fn first_match(entries: Seq<DirEntryInfo>, name: Seq<char>) -> Option<int>
    decreases entries.len(),
{
    if entries.len() == 0 {
        None
    } else {
        match first_match(entries.drop_last(), name) {
            Some(i) => Some(i),
            None => if entry_defines(entries.last(), name) {
                Some(entries.len() - 1)
            } else {
                None
            },
        }
    }
}

/// The first entry, in listing order, that is a source file defining `fixture_name`.
pub fn matching_entry(entries: &Vec<DirEntryInfo>, fixture_name: &str) -> (r: Option<usize>)
    ensures
        match r {
            Some(i) => first_match(entries@, fixture_name@) == Some(i as int),
            None => first_match(entries@, fixture_name@) is None,
        },
{
    let mut i: usize = 0;
    assert(entries@.subrange(0, 0) =~= Seq::<DirEntryInfo>::empty());
    while i < entries.len()
        invariant
            i <= entries@.len(),
            first_match(entries@.subrange(0, i as int), fixture_name@) is None,
        decreases entries@.len() - i,
    {
        let ghost seen = entries@.subrange(0, i + 1);
        assert(seen.drop_last() =~= entries@.subrange(0, i as int));
        let e = &entries[i];
        let found = !e.is_dir && has_source_extension(e.name.as_str()) && match &e.content {
            Some(c) => file_contains_fixture(c.as_str(), fixture_name),
            None => false,
        };
        if found {
            proof {
                lemma_first_match_prefix(entries@, fixture_name@, i + 1);
            }
            return Some(i);
        }
        i = i + 1;
    }
    assert(entries@.subrange(0, entries@.len() as int) =~= entries@);
    None
}

/// A match found within a prefix of the listing is the match of the whole listing.
proof fn lemma_first_match_prefix(entries: Seq<DirEntryInfo>, name: Seq<char>, k: int)
    requires
        0 <= k <= entries.len(),
        first_match(entries.subrange(0, k), name) is Some,
    ensures
        first_match(entries, name) == first_match(entries.subrange(0, k), name),
    decreases entries.len() - k,
{
    if k < entries.len() {
        let longer = entries.subrange(0, k + 1);
        assert(longer.drop_last() =~= entries.subrange(0, k));
        lemma_first_match_prefix(entries, name, k + 1);
    } else {
        assert(entries.subrange(0, k) =~= entries);
    }
}

/// A directory as its path components below the root.
pub open spec fn dir_view(dir: Vec<String>) -> Seq<Seq<char>> {
    dir.deep_view()
}

/// The directory where the search starts: the parent of `start` when it is a file,
/// `start` itself otherwise.
pub open spec fn start_dir(start: Seq<Seq<char>>, start_is_file: bool) -> Seq<Seq<char>> {
    if start_is_file && start.len() > 0 {
        start.drop_last()
    } else {
        start
    }
}

/// Where the search goes after a directory without a match: one level up, unless the
/// directory is the stop boundary or the root.
pub open spec fn parent_step(dir: Seq<Seq<char>>, stop: Seq<Seq<char>>) -> Option<Seq<Seq<char>>> {
    if dir == stop || dir.len() == 0 {
        None
    } else {
        Some(dir.drop_last())
    }
}

fn copy_prefix(path: &Vec<String>, len: usize) -> (r: Vec<String>)
    requires
        len <= path@.len(),
    ensures
        r.deep_view() == path.deep_view().subrange(0, len as int),
{
    let mut r: Vec<String> = Vec::new();
    let mut i: usize = 0;
    while i < len
        invariant
            i <= len <= path@.len(),
            r.deep_view() =~= path.deep_view().subrange(0, i as int),
        decreases len - i,
    {
        let ghost prev = r.deep_view();
        r.push(path[i].clone());
        assert(r.deep_view() =~= prev.push(path@[i as int]@));
        i = i + 1;
    }
    r
}

/// The directory where the search for a fixture starts.
pub fn first_dir(start: &Vec<String>, start_is_file: bool) -> (r: Vec<String>)
    ensures
        r.deep_view() == start_dir(start.deep_view(), start_is_file),
{
    let n = start.len();
    if start_is_file && n > 0 {
        let r = copy_prefix(start, n - 1);
        assert(start.deep_view().drop_last() =~= start.deep_view().subrange(0, n - 1));
        r
    } else {
        let r = copy_prefix(start, n);
        assert(start.deep_view().subrange(0, n as int) =~= start.deep_view());
        r
    }
}

fn same_path(a: &Vec<String>, b: &Vec<String>) -> (r: bool)
    ensures
        r == (a.deep_view() == b.deep_view()),
{
    if a.len() != b.len() {
        assert(a.deep_view().len() != b.deep_view().len());
        return false;
    }
    let mut i: usize = 0;
    while i < a.len()
        invariant
            i <= a@.len(),
            a@.len() == b@.len(),
            forall|k: int| 0 <= k < i ==> a@[k]@ == b@[k]@,
        decreases a@.len() - i,
    {
        if !str_eq(a[i].as_str(), b[i].as_str()) {
            assert(a.deep_view()[i as int] != b.deep_view()[i as int]);
            return false;
        }
        i = i + 1;
    }
    assert(a.deep_view() =~= b.deep_view());
    true
}

/// The next directory to search after `dir` held no match, or `None` when the search ends
/// there: at the stop boundary or at the root.
pub fn next_dir(dir: &Vec<String>, stop: &Vec<String>) -> (r: Option<Vec<String>>)
    ensures
        match r {
            Some(d) => parent_step(dir.deep_view(), stop.deep_view()) == Some(d.deep_view()),
            None => parent_step(dir.deep_view(), stop.deep_view()) is None,
        },
{
    let n = dir.len();
    if n == 0 || same_path(dir, stop) {
        return None;
    }
    let r = copy_prefix(dir, n - 1);
    assert(dir.deep_view().drop_last() =~= dir.deep_view().subrange(0, n - 1));
    Some(r)
}

} // verus!

verus! {

/// The listing of `dir` in a fixed file tree, which maps each directory to its entries in
/// iteration order; a directory that the tree does not hold lists nothing.
pub open spec fn listing(tree: Map<Seq<Seq<char>>, Seq<DirEntryInfo>>, dir: Seq<Seq<char>>) -> Seq<DirEntryInfo> {
    if tree.dom().contains(dir) {
        tree[dir]
    } else {
        Seq::<DirEntryInfo>::empty()
    }
}

/// Within each directory of the tree, no two entries share a name.
pub open spec fn names_unique(tree: Map<Seq<Seq<char>>, Seq<DirEntryInfo>>) -> bool {
    forall|d: Seq<Seq<char>>, i: int, j: int|
        tree.dom().contains(d) && 0 <= i < tree[d].len() && 0 <= j < tree[d].len() && i != j
            ==> #[trigger] tree[d][i].name@ != #[trigger] tree[d][j].name@
}

/// Whether the tree holds a regular file at index `i` of the listing of `path`'s parent.
pub open spec fn is_file_entry(tree: Map<Seq<Seq<char>>, Seq<DirEntryInfo>>, path: Seq<Seq<char>>, i: int) -> bool {
    let l = listing(tree, path.drop_last());
    0 <= i < l.len() && !l[i].is_dir && l[i].name@ == path.last()
}

/// The regular file at `path`, if the tree holds one.
pub open spec fn file_at(tree: Map<Seq<Seq<char>>, Seq<DirEntryInfo>>, path: Seq<Seq<char>>) -> Option<DirEntryInfo> {
    if path.len() > 0 && exists|i: int| is_file_entry(tree, path, i) {
        Some(listing(tree, path.drop_last())[choose|i: int| is_file_entry(tree, path, i)])
    } else {
        None
    }
}

/// The upward walk from `dir`: the first defining source file of each directory, moving one
/// level up after a directory without one, until the stop boundary or the root.
pub open spec fn walk_from(
    tree: Map<Seq<Seq<char>>, Seq<DirEntryInfo>>,
    dir: Seq<Seq<char>>,
    name: Seq<char>,
    stop: Seq<Seq<char>>,
) -> Option<Seq<Seq<char>>>
    decreases dir.len(),
{
    match first_match(listing(tree, dir), name) {
        Some(i) => Some(dir.push(listing(tree, dir)[i].name@)),
        None => if dir == stop || dir.len() == 0 {
            None
        } else {
            walk_from(tree, dir.drop_last(), name, stop)
        },
    }
}

/// The file that defines the fixture `name` for a test in `start`: `start` itself when it is
/// a file that defines it, else the result of the upward walk from its directory.
pub open spec fn resolve(
    tree: Map<Seq<Seq<char>>, Seq<DirEntryInfo>>,
    start: Seq<Seq<char>>,
    name: Seq<char>,
    stop: Seq<Seq<char>>,
) -> Option<Seq<Seq<char>>> {
    let file = file_at(tree, start);
    if file matches Some(e) && (e.content matches Some(c) && defines_fixture(c@, name)) {
        Some(start)
    } else {
        walk_from(tree, start_dir(start, file is Some), name, stop)
    }
}

proof fn lemma_first_match_valid(entries: Seq<DirEntryInfo>, name: Seq<char>)
    ensures
        first_match(entries, name) matches Some(i) ==> 0 <= i < entries.len() && entry_defines(
            entries[i],
            name,
        ),
    decreases entries.len(),
{
    if entries.len() > 0 {
        lemma_first_match_valid(entries.drop_last(), name);
    }
}

proof fn lemma_walk_finds_defining_file(
    tree: Map<Seq<Seq<char>>, Seq<DirEntryInfo>>,
    dir: Seq<Seq<char>>,
    name: Seq<char>,
    stop: Seq<Seq<char>>,
)
    requires
        names_unique(tree),
    ensures
        walk_from(tree, dir, name, stop) matches Some(f) ==> (file_at(tree, f) matches Some(e)
            && entry_defines(e, name)),
    decreases dir.len(),
{
    let l = listing(tree, dir);
    lemma_first_match_valid(l, name);
    match first_match(l, name) {
        Some(i) => {
            let f = dir.push(l[i].name@);
            assert(f.drop_last() =~= dir);
            assert(is_file_entry(tree, f, i));
            let k = choose|k: int| is_file_entry(tree, f, k);
            assert(k == i) by {
                if k != i {
                    assert(tree.dom().contains(dir));
                    assert(tree[dir][k].name@ != tree[dir][i].name@);
                }
            }
        },
        None => {
            if !(dir == stop || dir.len() == 0) {
                lemma_walk_finds_defining_file(tree, dir.drop_last(), name, stop);
            }
        },
    }
}

/// Resolution is a function of the file tree: repeating it from the same start gives the
/// same file, and resolving again from the file found finds that file itself.
pub proof fn lemma_resolution_idempotent(
    tree: Map<Seq<Seq<char>>, Seq<DirEntryInfo>>,
    start: Seq<Seq<char>>,
    name: Seq<char>,
    stop: Seq<Seq<char>>,
)
    requires
        names_unique(tree),
    ensures
        resolve(tree, start, name, stop) matches Some(f) ==> resolve(tree, f, name, stop) == Some(f),
{
    let file = file_at(tree, start);
    if !(file matches Some(e) && (e.content matches Some(c) && defines_fixture(c@, name))) {
        lemma_walk_finds_defining_file(tree, start_dir(start, file is Some), name, stop);
    }
}

} // verus!
