//! Which files of a module directory enter its package, and in which order.
//!
//! A file is given by its path relative to the module directory, as the list of its
//! components, each component as the bytes of its name. Files under a `.git` or `target`
//! directory, and the package file being written and its temporary file, are left out.
//! The rest enter the archive sorted by path, component by component, each component
//! compared byte by byte, which is the order of `std::path::Path` for relative paths
//! made of plain names.

use vstd::prelude::*;

verus! {

/// A path relative to the module directory, as its components.
#[derive(Clone, Debug, PartialEq, Eq)]
pub struct PackagePath {
    pub components: Vec<Vec<u8>>,
}

impl View for PackagePath {
    type V = Seq<Seq<u8>>;

    open spec fn view(&self) -> Seq<Seq<u8>> {
        self.components@.map_values(|c: Vec<u8>| c@)
    }
}

/// Byte strings in lexicographic order: `a` comes before or equals `b`.
pub open spec fn bytes_le(a: Seq<u8>, b: Seq<u8>) -> bool
    decreases a.len(),
{
    if a.len() == 0 {
        true
    } else if b.len() == 0 {
        false
    } else if a[0] != b[0] {
        a[0] < b[0]
    } else {
        bytes_le(a.drop_first(), b.drop_first())
    }
}

/// Paths in lexicographic order of their components: `a` comes before or equals `b`.
pub open spec fn path_le(a: Seq<Seq<u8>>, b: Seq<Seq<u8>>) -> bool
    decreases a.len(),
{
    if a.len() == 0 {
        true
    } else if b.len() == 0 {
        false
    } else if a[0] != b[0] {
        bytes_le(a[0], b[0])
    } else {
        path_le(a.drop_first(), b.drop_first())
    }
}

/// A component that packages leave out: `.git` or `target`.
pub open spec fn excluded_name(c: Seq<u8>) -> bool {
    c == seq![0x2eu8, 0x67u8, 0x69u8, 0x74u8] || c == seq![0x74u8, 0x61u8, 0x72u8, 0x67u8, 0x65u8, 0x74u8]
}

/// Whether the file at `p` enters the package: no component is `.git` or `target`, and
/// it is neither the package file `output` nor its temporary file `temporary`.
pub open spec fn kept_in_package(p: Seq<Seq<u8>>, output: Seq<Seq<u8>>, temporary: Seq<Seq<u8>>) -> bool {
    &&& forall|k: int| 0 <= k < p.len() ==> !excluded_name(#[trigger] p[k])
    &&& p != output
    &&& p != temporary
}

/// A file with a `.git` or `target` directory anywhere in its path never enters the
/// package, at whatever depth the directory is.
pub proof fn lemma_vcs_and_build_dirs_left_out(p: Seq<Seq<u8>>, output: Seq<Seq<u8>>, temporary: Seq<Seq<u8>>, k: int)
    requires
        0 <= k < p.len(),
        p[k] == seq![0x2eu8, 0x67u8, 0x69u8, 0x74u8] || p[k] == seq![0x74u8, 0x61u8, 0x72u8, 0x67u8, 0x65u8, 0x74u8],
    ensures
        !kept_in_package(p, output, temporary),
{
    assert(excluded_name(p[k]));
}

/// Every other file enters the package, unless it is the package file or its temporary
/// file.
pub proof fn lemma_other_files_kept(p: Seq<Seq<u8>>, output: Seq<Seq<u8>>, temporary: Seq<Seq<u8>>)
    requires
        forall|k: int| 0 <= k < p.len() ==> #[trigger] p[k] != seq![0x2eu8, 0x67u8, 0x69u8, 0x74u8]
            && p[k] != seq![0x74u8, 0x61u8, 0x72u8, 0x67u8, 0x65u8, 0x74u8],
        p != output,
        p != temporary,
    ensures
        kept_in_package(p, output, temporary),
{
}

/// No file in an archive order has a `.git` or `target` component, and none is the
/// package file or its temporary file.
pub proof fn lemma_archive_has_no_vcs_or_build_files(entries: Seq<PackagePath>, output: Seq<Seq<u8>>, temporary: Seq<Seq<u8>>, r: Seq<usize>)
    requires
        is_archive_order(entries, output, temporary, r),
    ensures
        forall|a: int, k: int| 0 <= a < r.len() && 0 <= k < entries[r[a] as int]@.len() ==>
            #[trigger] entries[r[a] as int]@[k] != seq![0x2eu8, 0x67u8, 0x69u8, 0x74u8]
            && entries[r[a] as int]@[k] != seq![0x74u8, 0x61u8, 0x72u8, 0x67u8, 0x65u8, 0x74u8],
        forall|a: int| 0 <= a < r.len() ==> #[trigger] entries[r[a] as int]@ != output && entries[r[a] as int]@ != temporary,
{
    assert forall|a: int| 0 <= a < r.len() implies kept_in_package(#[trigger] entries[r[a] as int]@, output, temporary) by {
        assert(r[a] < entries.len());
        assert(r.contains(r[a]));
        assert(r[a] as int as usize == r[a]);
    }
    assert forall|a: int, k: int| 0 <= a < r.len() && 0 <= k < entries[r[a] as int]@.len() implies
        #[trigger] entries[r[a] as int]@[k] != seq![0x2eu8, 0x67u8, 0x69u8, 0x74u8]
        && entries[r[a] as int]@[k] != seq![0x74u8, 0x61u8, 0x72u8, 0x67u8, 0x65u8, 0x74u8] by {
        assert(kept_in_package(entries[r[a] as int]@, output, temporary));
        assert(!excluded_name(entries[r[a] as int]@[k]));
    }
}

/// Either of two byte strings comes before the other.
pub proof fn lemma_bytes_le_total(a: Seq<u8>, b: Seq<u8>)
    ensures
        bytes_le(a, b) || bytes_le(b, a),
    decreases a.len(),
{
    if a.len() > 0 && b.len() > 0 && a[0] == b[0] {
        lemma_bytes_le_total(a.drop_first(), b.drop_first());
    }
}

/// Either of two paths comes before the other.
pub proof fn lemma_path_le_total(a: Seq<Seq<u8>>, b: Seq<Seq<u8>>)
    ensures
        path_le(a, b) || path_le(b, a),
    decreases a.len(),
{
    if a.len() > 0 && b.len() > 0 {
        if a[0] == b[0] {
            lemma_path_le_total(a.drop_first(), b.drop_first());
        } else {
            lemma_bytes_le_total(a[0], b[0]);
        }
    }
}

/// Byte strings that come before each other are equal.
pub proof fn lemma_bytes_le_antisymmetric(a: Seq<u8>, b: Seq<u8>)
    requires
        bytes_le(a, b),
        bytes_le(b, a),
    ensures
        a == b,
    decreases a.len(),
{
    if a.len() > 0 && b.len() > 0 {
        lemma_bytes_le_antisymmetric(a.drop_first(), b.drop_first());
        assert(a == seq![a[0]] + a.drop_first());
        assert(b == seq![b[0]] + b.drop_first());
    }
}

/// The order of byte strings is transitive.
pub proof fn lemma_bytes_le_transitive(a: Seq<u8>, b: Seq<u8>, c: Seq<u8>)
    requires
        bytes_le(a, b),
        bytes_le(b, c),
    ensures
        bytes_le(a, c),
    decreases a.len(),
{
    if a.len() > 0 && b.len() > 0 && c.len() > 0 && a[0] == b[0] && b[0] == c[0] {
        lemma_bytes_le_transitive(a.drop_first(), b.drop_first(), c.drop_first());
    }
}

/// Paths that come before each other are equal.
pub proof fn lemma_path_le_antisymmetric(a: Seq<Seq<u8>>, b: Seq<Seq<u8>>)
    requires
        path_le(a, b),
        path_le(b, a),
    ensures
        a == b,
    decreases a.len(),
{
    if a.len() > 0 && b.len() > 0 {
        if a[0] != b[0] {
            lemma_bytes_le_antisymmetric(a[0], b[0]);
        } else {
            lemma_path_le_antisymmetric(a.drop_first(), b.drop_first());
            assert(a == seq![a[0]] + a.drop_first());
            assert(b == seq![b[0]] + b.drop_first());
        }
    }
}

/// The order of paths is transitive.
pub proof fn lemma_path_le_transitive(a: Seq<Seq<u8>>, b: Seq<Seq<u8>>, c: Seq<Seq<u8>>)
    requires
        path_le(a, b),
        path_le(b, c),
    ensures
        path_le(a, c),
    decreases a.len(),
{
    if a.len() > 0 && b.len() > 0 && c.len() > 0 {
        if a[0] == b[0] && b[0] == c[0] {
            lemma_path_le_transitive(a.drop_first(), b.drop_first(), c.drop_first());
        } else if a[0] != b[0] && b[0] != c[0] {
            lemma_bytes_le_transitive(a[0], b[0], c[0]);
            if a[0] == c[0] {
                lemma_bytes_le_antisymmetric(a[0], b[0]);
            }
        }
    }
}

/// Whether entry `i` goes into the archive before entry `j`: its path comes first, and of
/// two equal paths the one listed first in `entries` goes first.
pub open spec fn archive_before(entries: Seq<PackagePath>, i: usize, j: usize) -> bool {
    &&& path_le(entries[i as int]@, entries[j as int]@)
    &&& entries[i as int]@ == entries[j as int]@ ==> i < j
}

/// `r` is an archive order of `entries`: the indices of every kept file, each once,
/// each going into the archive before every later one.
pub open spec fn is_archive_order(entries: Seq<PackagePath>, output: Seq<Seq<u8>>, temporary: Seq<Seq<u8>>, r: Seq<usize>) -> bool {
    &&& entries.len() <= usize::MAX
    &&& forall|k: int| 0 <= k < r.len() ==> #[trigger] r[k] < entries.len()
    &&& r.no_duplicates()
    &&& forall|i: int| 0 <= i < entries.len() ==> (r.contains(i as usize) <==> kept_in_package(
        #[trigger] entries[i]@, output, temporary))
    &&& forall|a: int, b: int| 0 <= a < b < r.len() ==> archive_before(entries, #[trigger] r[a], #[trigger] r[b])
}

/// The paths of the files in archive order.
pub open spec fn archive_paths(entries: Seq<PackagePath>, r: Seq<usize>) -> Seq<Seq<Seq<u8>>> {
    r.map_values(|k: usize| entries[k as int]@)
}

/// No two entries have the same path, as a directory walk lists them.
pub open spec fn distinct_paths(entries: Seq<PackagePath>) -> bool {
    forall|i: int, j: int| 0 <= i < entries.len() && 0 <= j < entries.len() && i != j ==> entries[i]@ != entries[j]@
}

/// Some entry has the path `p`.
pub open spec fn lists_path(entries: Seq<PackagePath>, p: Seq<Seq<u8>>) -> bool {
    exists|i: int| 0 <= i < entries.len() && entries[i]@ == p
}

proof fn lemma_sorted_paths_unique(p1: Seq<Seq<Seq<u8>>>, p2: Seq<Seq<Seq<u8>>>)
    requires
        p1.no_duplicates(),
        p2.no_duplicates(),
        forall|a: int, b: int| 0 <= a < b < p1.len() ==> path_le(#[trigger] p1[a], #[trigger] p1[b]),
        forall|a: int, b: int| 0 <= a < b < p2.len() ==> path_le(#[trigger] p2[a], #[trigger] p2[b]),
        forall|x: Seq<Seq<u8>>| p1.contains(x) <==> p2.contains(x),
    ensures
        p1 == p2,
    decreases p1.len(),
{
    if p1.len() == 0 {
        if p2.len() > 0 {
            assert(p2.contains(p2[0]));
        }
        assert(p1 =~= p2);
    } else {
        assert(p1.contains(p1[0]));
        assert(p2.len() > 0);
        assert(p2.contains(p2[0]));
        if p1[0] != p2[0] {
            let j = choose|j: int| 0 <= j < p1.len() && p1[j] == p2[0];
            let m = choose|m: int| 0 <= m < p2.len() && p2[m] == p1[0];
            assert(j > 0);
            assert(m > 0);
            assert(path_le(p1[0], p1[j]));
            assert(path_le(p2[0], p2[m]));
            lemma_path_le_antisymmetric(p1[0], p2[0]);
        }
        let t1 = p1.drop_first();
        let t2 = p2.drop_first();
        assert forall|x: Seq<Seq<u8>>| t1.contains(x) <==> t2.contains(x) by {
            if t1.contains(x) {
                let k = choose|k: int| 0 <= k < t1.len() && t1[k] == x;
                assert(p1[k + 1] == x);
                assert(p1.contains(x));
                assert(x != p1[0]);
                let k2 = choose|k2: int| 0 <= k2 < p2.len() && p2[k2] == x;
                assert(k2 > 0);
                assert(t2[k2 - 1] == x);
            }
            if t2.contains(x) {
                let k = choose|k: int| 0 <= k < t2.len() && t2[k] == x;
                assert(p2[k + 1] == x);
                assert(p2.contains(x));
                assert(x != p2[0]);
                let k1 = choose|k1: int| 0 <= k1 < p1.len() && p1[k1] == x;
                assert(k1 > 0);
                assert(t1[k1 - 1] == x);
            }
        }
        assert forall|a: int, b: int| 0 <= a < b < t1.len() implies path_le(#[trigger] t1[a], #[trigger] t1[b]) by {
            assert(path_le(p1[a + 1], p1[b + 1]));
        }
        assert forall|a: int, b: int| 0 <= a < b < t2.len() implies path_le(#[trigger] t2[a], #[trigger] t2[b]) by {
            assert(path_le(p2[a + 1], p2[b + 1]));
        }
        lemma_sorted_paths_unique(t1, t2);
        assert(p1 =~= seq![p1[0]] + t1);
        assert(p2 =~= seq![p2[0]] + t2);
    }
}

proof fn lemma_archive_paths_facts(entries: Seq<PackagePath>, output: Seq<Seq<u8>>, temporary: Seq<Seq<u8>>, r: Seq<usize>)
    requires
        distinct_paths(entries),
        is_archive_order(entries, output, temporary, r),
    ensures
        archive_paths(entries, r).no_duplicates(),
        forall|a: int, b: int| 0 <= a < b < archive_paths(entries, r).len()
            ==> path_le(#[trigger] archive_paths(entries, r)[a], #[trigger] archive_paths(entries, r)[b]),
        forall|x: Seq<Seq<u8>>| archive_paths(entries, r).contains(x) <==> (lists_path(entries, x)
            && kept_in_package(x, output, temporary)),
{
    let ps = archive_paths(entries, r);
    assert forall|a: int, b: int| 0 <= a < ps.len() && 0 <= b < ps.len() && a != b implies ps[a] != ps[b] by {
        assert(r[a] != r[b]);
        assert(r[a] < entries.len() && r[b] < entries.len());
    }
    assert forall|a: int, b: int| 0 <= a < b < ps.len() implies path_le(#[trigger] ps[a], #[trigger] ps[b]) by {
        assert(archive_before(entries, r[a], r[b]));
    }
    assert forall|x: Seq<Seq<u8>>| ps.contains(x) <==> (lists_path(entries, x) && kept_in_package(x, output, temporary)) by {
        if ps.contains(x) {
            let k = choose|k: int| 0 <= k < ps.len() && ps[k] == x;
            let i = r[k] as int;
            assert(r[k] < entries.len());
            assert(entries[i]@ == x);
            assert(r.contains(i as usize));
            assert(kept_in_package(entries[i]@, output, temporary));
        }
        if lists_path(entries, x) && kept_in_package(x, output, temporary) {
            let i = choose|i: int| 0 <= i < entries.len() && entries[i]@ == x;
            assert(kept_in_package(entries[i]@, output, temporary));
            assert(r.contains(i as usize));
            let k = choose|k: int| 0 <= k < r.len() && r[k] == i as usize;
            assert(r[k] as int == i);
            assert(ps[k] == entries[r[k] as int]@);
        }
    }
}

/// The archive depends on the files' paths alone: two directory walks that list the
/// same distinct paths, in any order, put the same paths into the archive in the same
/// order.
pub proof fn lemma_archive_paths_determined(
    entries1: Seq<PackagePath>,
    entries2: Seq<PackagePath>,
    output: Seq<Seq<u8>>,
    temporary: Seq<Seq<u8>>,
    r1: Seq<usize>,
    r2: Seq<usize>,
)
    requires
        distinct_paths(entries1),
        distinct_paths(entries2),
        forall|p: Seq<Seq<u8>>| lists_path(entries1, p) <==> lists_path(entries2, p),
        is_archive_order(entries1, output, temporary, r1),
        is_archive_order(entries2, output, temporary, r2),
    ensures
        archive_paths(entries1, r1) == archive_paths(entries2, r2),
{
    lemma_archive_paths_facts(entries1, output, temporary, r1);
    lemma_archive_paths_facts(entries2, output, temporary, r2);
    let p1 = archive_paths(entries1, r1);
    let p2 = archive_paths(entries2, r2);
    assert forall|x: Seq<Seq<u8>>| p1.contains(x) <==> p2.contains(x) by {
        assert(lists_path(entries1, x) <==> lists_path(entries2, x));
    }
    lemma_sorted_paths_unique(p1, p2);
}

fn bytes_eq(a: &Vec<u8>, b: &Vec<u8>) -> (res: bool)
    ensures
        res == (a@ == b@),
{
    if a.len() != b.len() {
        return false;
    }
    let mut i: usize = 0;
    while i < a.len()
        invariant
            a@.len() == b@.len(),
            i <= a@.len(),
            forall|k: int| 0 <= k < i ==> a@[k] == b@[k],
        decreases a@.len() - i,
    {
        if a[i] != b[i] {
            return false;
        }
        i += 1;
    }
    proof {
        assert(a@ =~= b@);
    }
    true
}

fn bytes_before_or_equal(a: &Vec<u8>, b: &Vec<u8>) -> (res: bool)
    ensures
        res == bytes_le(a@, b@),
{
    let mut i: usize = 0;
    proof {
        assert(a@.skip(0) == a@);
        assert(b@.skip(0) == b@);
    }
    while i < a.len() && i < b.len() && a[i] == b[i]
        invariant
            i <= a@.len(),
            i <= b@.len(),
            bytes_le(a@, b@) == bytes_le(a@.skip(i as int), b@.skip(i as int)),
        decreases a@.len() - i,
    {
        proof {
            assert(a@.skip(i as int).drop_first() == a@.skip(i + 1));
            assert(b@.skip(i as int).drop_first() == b@.skip(i + 1));
        }
        i += 1;
    }
    if i == a.len() {
        true
    } else if i == b.len() {
        false
    } else {
        a[i] < b[i]
    }
}

fn path_before_or_equal(a: &PackagePath, b: &PackagePath) -> (res: bool)
    ensures
        res == path_le(a@, b@),
{
    let x = &a.components;
    let y = &b.components;
    let mut i: usize = 0;
    proof {
        assert(a@.skip(0) == a@);
        assert(b@.skip(0) == b@);
    }
    while i < x.len() && i < y.len()
        invariant
            i <= a@.len(),
            i <= b@.len(),
            a@.len() == x@.len(),
            b@.len() == y@.len(),
            a@ == x@.map_values(|c: Vec<u8>| c@),
            b@ == y@.map_values(|c: Vec<u8>| c@),
            path_le(a@, b@) == path_le(a@.skip(i as int), b@.skip(i as int)),
        decreases a@.len() - i,
    {
        assert(a@[i as int] == x@[i as int]@);
        assert(b@[i as int] == y@[i as int]@);
        if !bytes_eq(&x[i], &y[i]) {
            return bytes_before_or_equal(&x[i], &y[i]);
        }
        proof {
            assert(a@.skip(i as int).drop_first() == a@.skip(i + 1));
            assert(b@.skip(i as int).drop_first() == b@.skip(i + 1));
        }
        i += 1;
    }
    i == x.len()
}

fn same_path(a: &PackagePath, b: &PackagePath) -> (res: bool)
    ensures
        res == (a@ == b@),
{
    let x = &a.components;
    let y = &b.components;
    if x.len() != y.len() {
        assert(a@.len() != b@.len());
        return false;
    }
    let mut i: usize = 0;
    while i < x.len()
        invariant
            x@.len() == y@.len(),
            a@ == x@.map_values(|c: Vec<u8>| c@),
            b@ == y@.map_values(|c: Vec<u8>| c@),
            i <= x@.len(),
            forall|k: int| 0 <= k < i ==> a@[k] == b@[k],
        decreases x@.len() - i,
    {
        if !bytes_eq(&x[i], &y[i]) {
            assert(a@[i as int] != b@[i as int]);
            return false;
        }
        i += 1;
    }
    proof {
        assert(a@ =~= b@);
    }
    true
}

fn is_excluded_name(c: &Vec<u8>) -> (res: bool)
    ensures
        res == excluded_name(c@),
{
    let git: Vec<u8> = vec![0x2e, 0x67, 0x69, 0x74];
    let target: Vec<u8> = vec![0x74, 0x61, 0x72, 0x67, 0x65, 0x74];
    proof {
        assert(git@ =~= seq![0x2eu8, 0x67u8, 0x69u8, 0x74u8]);
        assert(target@ =~= seq![0x74u8, 0x61u8, 0x72u8, 0x67u8, 0x65u8, 0x74u8]);
    }
    bytes_eq(c, &git) || bytes_eq(c, &target)
}

/// Whether the file at `path` enters the package written to `output` through
/// `temporary`.
pub fn is_kept_in_package(path: &PackagePath, output: &PackagePath, temporary: &PackagePath) -> (res: bool)
    ensures
        res == kept_in_package(path@, output@, temporary@),
{
    let x = &path.components;
    let mut i: usize = 0;
    while i < x.len()
        invariant
            path@ == x@.map_values(|c: Vec<u8>| c@),
            i <= x@.len(),
            forall|k: int| 0 <= k < i ==> !excluded_name(#[trigger] path@[k]),
        decreases x@.len() - i,
    {
        assert(path@[i as int] == x@[i as int]@);
        if is_excluded_name(&x[i]) {
            return false;
        }
        i += 1;
    }
    !same_path(path, output) && !same_path(path, temporary)
}

/// The files of a module directory that enter its package, in archive order: the
/// indices into `entries` of every kept file, each once, sorted by path; files with equal
/// paths keep the order they have in `entries`.
#[verifier::spinoff_prover]
#[verifier::rlimit(50)]
pub fn select_package_entries(entries: &Vec<PackagePath>, output: &PackagePath, temporary: &PackagePath) -> (res: Vec<usize>)
    ensures
        forall|k: int| 0 <= k < res@.len() ==> #[trigger] res@[k] < entries@.len(),
        res@.no_duplicates(),
        forall|i: int| 0 <= i < entries@.len() ==> (res@.contains(i as usize) <==> kept_in_package(
            #[trigger] entries@[i]@, output@, temporary@)),
        forall|a: int, b: int| 0 <= a < b < res@.len() ==> archive_before(entries@, #[trigger] res@[a], #[trigger] res@[b]),
        is_archive_order(entries@, output@, temporary@, res@),
{
    let mut res: Vec<usize> = Vec::new();
    let n = entries.len();
    let mut i: usize = 0;
    while i < n
        invariant
            n == entries@.len(),
            i <= n,
            forall|k: int| 0 <= k < res@.len() ==> #[trigger] res@[k] < i,
            res@.no_duplicates(),
            forall|j: int| 0 <= j < i ==> (res@.contains(j as usize) <==> kept_in_package(
                #[trigger] entries@[j]@, output@, temporary@)),
            forall|a: int, b: int| 0 <= a < b < res@.len() ==> archive_before(entries@, #[trigger] res@[a], #[trigger] res@[b]),
        decreases n - i,
    {
        if is_kept_in_package(&entries[i], output, temporary) {
            let mut p: usize = 0;
            while p < res.len() && path_before_or_equal(&entries[res[p]], &entries[i])
                invariant
                    n == entries@.len(),
                    i < n,
                    p <= res@.len(),
                    forall|k: int| 0 <= k < res@.len() ==> #[trigger] res@[k] < i,
                    forall|k: int| 0 <= k < p ==> path_le(entries@[#[trigger] res@[k] as int]@, entries@[i as int]@),
                decreases res@.len() - p,
            {
                p += 1;
            }
            let ghost old_res = res@;
            proof {
                if p < res@.len() {
                    lemma_path_le_total(entries@[res@[p as int] as int]@, entries@[i as int]@);
                }
            }
            res.insert(p, i);
            proof {
                assert(res@.len() == old_res.len() + 1);
                assert forall|k: int| 0 <= k < res@.len() implies
                    (k < p ==> res@[k] == old_res[k]) && (k == p ==> res@[k] == i) && (k > p ==> res@[k] == old_res[k - 1]) by {
                    if k < p {
                        assert(res@[k] == old_res.subrange(0, p as int)[k]);
                    } else if k > p {
                        assert(res@[k] == old_res.subrange(p as int, old_res.len() as int)[k - p - 1]);
                    }
                }
                assert forall|k: int| 0 <= k < res@.len() implies #[trigger] res@[k] < i + 1 by {
                    if k < p {
                        assert(old_res[k] < i);
                    } else if k > p {
                        assert(old_res[k - 1] < i);
                    }
                }
                assert forall|a: int, b: int| 0 <= a < res@.len() && 0 <= b < res@.len() && a != b implies res@[a] != res@[b] by {
                    if a != p && b != p {
                        let oa = if a < p { a } else { a - 1 };
                        let ob = if b < p { b } else { b - 1 };
                        assert(res@[a] == old_res[oa]);
                        assert(res@[b] == old_res[ob]);
                    } else if a == p {
                        let ob = if b < p { b } else { b - 1 };
                        assert(old_res[ob] < i);
                    } else {
                        let oa = if a < p { a } else { a - 1 };
                        assert(old_res[oa] < i);
                    }
                }
                assert forall|j: int| 0 <= j < i + 1 implies (res@.contains(j as usize) <==> kept_in_package(
                    #[trigger] entries@[j]@, output@, temporary@)) by {
                    if j < i {
                        if old_res.contains(j as usize) {
                            let k = choose|k: int| 0 <= k < old_res.len() && old_res[k] == j as usize;
                            if k < p {
                                assert(res@[k] == j as usize);
                            } else {
                                assert(res@[k + 1] == j as usize);
                            }
                        }
                        if res@.contains(j as usize) {
                            let k = choose|k: int| 0 <= k < res@.len() && res@[k] == j as usize;
                            if k < p {
                                assert(old_res[k] == j as usize);
                            } else if k > p {
                                assert(old_res[k - 1] == j as usize);
                            }
                        }
                    } else {
                        assert(res@[p as int] == i);
                    }
                }
                assert forall|a: int, b: int| 0 <= a < b < res@.len() implies archive_before(entries@, #[trigger] res@[a], #[trigger] res@[b]) by {
                    let ei = entries@[i as int]@;
                    if a != p && b != p {
                        let oa = if a < p { a } else { a - 1 };
                        let ob = if b < p { b } else { b - 1 };
                        assert(res@[a] == old_res[oa]);
                        assert(res@[b] == old_res[ob]);
                        assert(archive_before(entries@, old_res[oa], old_res[ob]));
                    } else if b == p {
                        assert(res@[a] == old_res[a]);
                        assert(path_le(entries@[old_res[a] as int]@, ei));
                        assert(old_res[a] < i);
                    } else {
                        let ob = b - 1;
                        assert(res@[b] == old_res[ob]);
                        let ep = entries@[old_res[p as int] as int]@;
                        let eb = entries@[old_res[ob] as int]@;
                        assert(!path_le(ep, ei));
                        assert(path_le(ei, ep));
                        if ob > p {
                            assert(archive_before(entries@, old_res[p as int], old_res[ob]));
                            lemma_path_le_transitive(ei, ep, eb);
                            assert(eb != ei);
                        }
                        assert(path_le(ei, eb));
                    }
                }
            }
        } else {
            proof {
                assert forall|j: int| 0 <= j < i + 1 implies (res@.contains(j as usize) <==> kept_in_package(
                    #[trigger] entries@[j]@, output@, temporary@)) by {
                    if j == i && res@.contains(j as usize) {
                        let k = choose|k: int| 0 <= k < res@.len() && res@[k] == j as usize;
                        assert(res@[k] < i);
                    }
                }
            }
        }
        i += 1;
    }
    res
}

} // verus!
