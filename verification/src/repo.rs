use vstd::prelude::*;
use vstd::string::*;

use crate::types::{spec_folder_name, PData, PDataView};

verus! {

/// The index of the first `-` in `s`, or the length of `s` where it has none.
pub open spec fn first_dash(s: Seq<char>) -> nat
    decreases s.len(),
{
    if s.len() == 0 {
        0
    } else if s[0] == '-' {
        0
    } else {
        1 + first_dash(s.drop_first())
    }
}

/// `s` holds a `-`.
pub open spec fn has_dash(s: Seq<char>) -> bool {
    first_dash(s) < s.len()
}

/// The text of `s` before its first `-` (all of `s` where it has none): the
/// first item of `s` split at `-`.
pub open spec fn first_segment(s: Seq<char>) -> Seq<char> {
    s.take(first_dash(s) as int)
}

/// The text of `s` between its first and its second `-` (or the end): the
/// second item of `s` split at `-`. Meaningful where `s` has a `-`.
pub open spec fn second_segment(s: Seq<char>) -> Seq<char> {
    first_segment(s.skip(first_dash(s) + 1int))
}

/// The package that a list of repository folder names holds under the name
/// `pkg`: the first folder whose name, split at `-`, starts with `pkg`, read as
/// that first item for the name and the second item for the version.
pub open spec fn repo_lookup(names: Seq<Seq<char>>, pkg: Seq<char>) -> Option<PDataView>
    decreases names.len(),
{
    if names.len() == 0 {
        None
    } else if first_segment(names[0]) == pkg {
        Some(PDataView { name: first_segment(names[0]), ver: second_segment(names[0]) })
    } else {
        repo_lookup(names.drop_first(), pkg)
    }
}

/// The lookup of `pkg` reaches a folder whose name is `pkg` itself, with no
/// `-` and so no version: there is no second item to read.
pub open spec fn repo_lookup_lacks_version(names: Seq<Seq<char>>, pkg: Seq<char>) -> bool
    decreases names.len(),
{
    if names.len() == 0 {
        false
    } else if first_segment(names[0]) == pkg {
        !has_dash(names[0])
    } else {
        repo_lookup_lacks_version(names.drop_first(), pkg)
    }
}

/// What `first_dash` is: no `-` before it, and a `-` at it unless it is the
/// length.
pub proof fn lemma_first_dash(s: Seq<char>)
    ensures
        first_dash(s) <= s.len(),
        forall|j: int| 0 <= j < first_dash(s) ==> s[j] != '-',
        first_dash(s) < s.len() ==> s[first_dash(s) as int] == '-',
    decreases s.len(),
{
    if s.len() > 0 && s[0] != '-' {
        let t = s.drop_first();
        lemma_first_dash(t);
        assert forall|j: int| 0 <= j < first_dash(s) implies s[j] != '-' by {
            if j > 0 {
                assert(s[j] == t[j - 1]);
            }
        }
    }
}

/// The first `-` of `s` at or after `from`, or the length of `s`.
fn find_dash(s: &str, from: usize, n: usize) -> (k: usize)
    requires
        n == s@.len(),
        from <= n,
    ensures
        from <= k <= n,
        forall|j: int| from <= j < k ==> s@[j] != '-',
        k < n ==> s@[k as int] == '-',
{
    let mut k = from;
    while k < n
        invariant
            n == s@.len(),
            from <= k <= n,
            forall|j: int| from <= j < k ==> s@[j] != '-',
        decreases n - k,
    {
        if s.get_char(k) == '-' {
            return k;
        }
        k += 1;
    }
    k
}

/// Where `k` is a position with no `-` in `s[from..k]` and a `-` (or the end)
/// at `k`, the first `-` of `s.skip(from)` is at `k - from`.
proof fn lemma_first_dash_at(s: Seq<char>, from: int, k: int)
    requires
        0 <= from <= k <= s.len(),
        forall|j: int| from <= j < k ==> s[j] != '-',
        k < s.len() ==> s[k] == '-',
    ensures
        first_dash(s.skip(from)) == k - from,
{
    let t = s.skip(from);
    lemma_first_dash(t);
    let f = first_dash(t) as int;
    if f < k - from {
        assert(t[f] == s[from + f]);
    } else if f > k - from {
        assert(t[k - from] == s[k]);
    }
}

/// The first two items of `s` split at `-`, and whether it has a `-` at all.
fn split_folder_name(s: &str) -> (res: (String, String, bool))
    ensures
        res.0@ == first_segment(s@),
        res.2 == has_dash(s@),
        res.2 ==> res.1@ == second_segment(s@),
{
    let n = s.unicode_len();
    let k1 = find_dash(s, 0, n);
    proof {
        lemma_first_dash_at(s@, 0, k1 as int);
        assert(s@.skip(0) =~= s@);
    }
    let first = s.substring_char(0, k1).to_owned();
    if k1 < n {
        let k2 = find_dash(s, k1 + 1, n);
        proof {
            lemma_first_dash_at(s@, k1 + 1, k2 as int);
            let t = s@.skip(k1 + 1);
            assert(t.take(k2 - (k1 + 1)) =~= s@.subrange(k1 + 1, k2 as int));
        }
        let second = s.substring_char(k1 + 1, k2).to_owned();
        (first, second, true)
    } else {
        (first, String::new(), false)
    }
}

/// Whether the lookup of `package` among the folder names `folders` reaches a
/// folder named `package` itself, which has no version to read.
pub fn repo_entry_lacks_version(folders: &Vec<String>, package: &str) -> (b: bool)
    ensures
        b == repo_lookup_lacks_version(folders.deep_view(), package@),
{
    let pkg = package.to_owned();
    let mut i: usize = 0;
    let ghost names = folders.deep_view();
    assert(names.skip(0) =~= names);
    while i < folders.len()
        invariant
            i <= folders.len(),
            names == folders.deep_view(),
            pkg@ == package@,
            repo_lookup_lacks_version(names, package@) == repo_lookup_lacks_version(
                names.skip(i as int),
                package@,
            ),
        decreases folders.len() - i,
    {
        let (first, _second, dashed) = split_folder_name(folders[i].as_str());
        let ghost rest = names.skip(i as int);
        assert(rest[0] == folders@[i as int]@);
        assert(rest.drop_first() =~= names.skip(i + 1));
        if first == pkg {
            return !dashed;
        }
        i += 1;
    }
    false
}

/// The lookup of `package` among `folders`, folder by folder.
fn find_in_folders(folders: &Vec<String>, package: &str) -> (r: Option<PData>)
    requires
        !repo_lookup_lacks_version(folders.deep_view(), package@),
    ensures
        match r {
            Some(p) => repo_lookup(folders.deep_view(), package@) == Some(p@),
            None => repo_lookup(folders.deep_view(), package@) is None,
        },
{
    let pkg = package.to_owned();
    let mut i: usize = 0;
    let ghost names = folders.deep_view();
    assert(names.skip(0) =~= names);
    while i < folders.len()
        invariant
            i <= folders.len(),
            names == folders.deep_view(),
            pkg@ == package@,
            repo_lookup(names, package@) == repo_lookup(names.skip(i as int), package@),
            repo_lookup_lacks_version(names, package@) == repo_lookup_lacks_version(
                names.skip(i as int),
                package@,
            ),
            !repo_lookup_lacks_version(names, package@),
        decreases folders.len() - i,
    {
        let (first, second, _dashed) = split_folder_name(folders[i].as_str());
        let ghost rest = names.skip(i as int);
        assert(rest[0] == folders@[i as int]@);
        assert(rest.drop_first() =~= names.skip(i + 1));
        if first == pkg {
            return Some(PData { name: first, ver: second });
        }
        i += 1;
    }
    None
}

/// The package named `package` among the repository folders `folders`
/// (`<name>-<version>` each): the first folder whose name, split at `-`,
/// starts with `package`, with the second item as its version; `None` where
/// no folder starts so.
pub fn get_repo_data(folders: &Vec<String>, package: &str) -> (r: Option<PData>)
    requires
        !repo_lookup_lacks_version(folders.deep_view(), package@),
    ensures
        match r {
            Some(p) => repo_lookup(folders.deep_view(), package@) == Some(p@),
            None => repo_lookup(folders.deep_view(), package@) is None,
        },
        forall|i: int|
            0 <= i < folders@.len() && first_segment(#[trigger] folders@[i]@) == package@ && (
            forall|j: int| 0 <= j < i ==> first_segment(folders@[j]@) != package@) ==> (r matches Some(
                p,
            ) && p.name@ == package@ && p.ver@ == second_segment(folders@[i]@)),
        (forall|i: int| 0 <= i < folders@.len() ==> first_segment(#[trigger] folders@[i]@) != package@)
            ==> r is None,
{
    let r = find_in_folders(folders, package);
    proof {
        let names = folders.deep_view();
        assert forall|i: int|
            0 <= i < folders@.len() && first_segment(#[trigger] folders@[i]@) == package@ && (
            forall|j: int| 0 <= j < i ==> first_segment(folders@[j]@) != package@) implies repo_lookup(
            names,
            package@,
        ) == Some(PDataView { name: package@, ver: second_segment(folders@[i]@) }) by {
            assert(names[i] == folders@[i]@);
            assert forall|j: int| 0 <= j < i implies first_segment(names[j]) != package@ by {
                assert(names[j] == folders@[j]@);
            }
            law_repo_lookup_first_match(names, package@, i);
        }
        if forall|i: int| 0 <= i < folders@.len() ==> first_segment(#[trigger] folders@[i]@) != package@ {
            assert forall|j: int| 0 <= j < names.len() implies first_segment(names[j]) != package@ by {
                assert(names[j] == folders@[j]@);
            }
            law_repo_lookup_none(names, package@);
        }
    }
    r
}

/// The first folder whose name starts with the package, split at `-`, is the
/// one found, wherever it stands in the list: its first item is the name and
/// its second item the version.
pub proof fn law_repo_lookup_first_match(names: Seq<Seq<char>>, pkg: Seq<char>, i: int)
    requires
        0 <= i < names.len(),
        first_segment(names[i]) == pkg,
        forall|j: int| 0 <= j < i ==> first_segment(names[j]) != pkg,
    ensures
        repo_lookup(names, pkg) == Some(PDataView { name: pkg, ver: second_segment(names[i]) }),
    decreases i,
{
    if i > 0 {
        let rest = names.drop_first();
        assert(first_segment(names[0]) != pkg);
        assert forall|j: int| 0 <= j < i - 1 implies first_segment(rest[j]) != pkg by {
            assert(rest[j] == names[j + 1]);
        }
        assert(rest[i - 1] == names[i]);
        law_repo_lookup_first_match(rest, pkg, i - 1);
    }
}

/// The lookup of a package lacks a version exactly where the first folder
/// whose name starts with the package, split at `-`, has no `-` at all; where
/// no folder starts so, it does not.
pub proof fn law_lacks_version_first_match(names: Seq<Seq<char>>, pkg: Seq<char>, i: int)
    requires
        0 <= i <= names.len(),
        forall|j: int| 0 <= j < i ==> first_segment(names[j]) != pkg,
        i < names.len() ==> first_segment(names[i]) == pkg,
    ensures
        i < names.len() ==> (repo_lookup_lacks_version(names, pkg) <==> !has_dash(names[i])),
        i == names.len() ==> !repo_lookup_lacks_version(names, pkg),
    decreases i,
{
    if i > 0 {
        let rest = names.drop_first();
        assert(first_segment(names[0]) != pkg);
        assert forall|j: int| 0 <= j < i - 1 implies first_segment(rest[j]) != pkg by {
            assert(rest[j] == names[j + 1]);
        }
        if i < names.len() {
            assert(rest[i - 1] == names[i]);
        }
        law_lacks_version_first_match(rest, pkg, i - 1);
    }
}

/// Where no folder's name starts with the package, split at `-`, nothing is
/// found.
pub proof fn law_repo_lookup_none(names: Seq<Seq<char>>, pkg: Seq<char>)
    requires
        forall|j: int| 0 <= j < names.len() ==> first_segment(names[j]) != pkg,
    ensures
        repo_lookup(names, pkg) is None,
    decreases names.len(),
{
    if names.len() > 0 {
        let rest = names.drop_first();
        assert(first_segment(names[0]) != pkg);
        assert forall|j: int| 0 <= j < rest.len() implies first_segment(rest[j]) != pkg by {
            assert(rest[j] == names[j + 1]);
        }
        law_repo_lookup_none(rest, pkg);
    }
}

/// The first item of a name split at `-` is the text before its first `-`:
/// it holds no `-`, it starts the name, and it is either all of the name or
/// followed by a `-`.
pub proof fn law_first_segment(s: Seq<char>)
    ensures
        !first_segment(s).contains('-'),
        first_segment(s) == s.take(first_segment(s).len() as int),
        first_segment(s).len() <= s.len(),
        first_segment(s).len() < s.len() ==> s[first_segment(s).len() as int] == '-',
{
    lemma_first_dash(s);
    let f = first_segment(s);
    if f.contains('-') {
        let k = choose|k: int| 0 <= k < f.len() && f[k] == '-';
        assert(s[k] == '-');
    }
}

/// A package whose name and version hold no `-` is found again, by its name,
/// in a repository whose only folder is the package's folder name: the folder
/// name splits back into the same name and version.
pub proof fn lemma_folder_name_round_trip(name: Seq<char>, ver: Seq<char>)
    requires
        !name.contains('-'),
        !ver.contains('-'),
    ensures
        has_dash(spec_folder_name(name, ver)),
        first_segment(spec_folder_name(name, ver)) == name,
        second_segment(spec_folder_name(name, ver)) == ver,
        repo_lookup(seq![spec_folder_name(name, ver)], name) == Some(
            PDataView { name: name, ver: ver },
        ),
        !repo_lookup_lacks_version(seq![spec_folder_name(name, ver)], name),
{
    let s = spec_folder_name(name, ver);
    let n = name.len() as int;
    assert forall|j: int| 0 <= j < n implies s[j] != '-' by {
        assert(s[j] == name[j]);
        if name[j] == '-' {
            assert(name.contains('-'));
        }
    }
    assert(s[n] == '-');
    lemma_first_dash_at(s, 0, n);
    assert(s.skip(0) =~= s);
    assert(s.take(n) =~= name);
    assert forall|j: int| n + 1 <= j < s.len() implies s[j] != '-' by {
        assert(s[j] == ver[j - n - 1]);
        if ver[j - n - 1] == '-' {
            assert(ver.contains('-'));
        }
    }
    lemma_first_dash_at(s, n + 1, s.len() as int);
    let t = s.skip(n + 1);
    assert(t =~= ver);
    assert(t.take(t.len() as int) =~= ver);
    let names = seq![s];
    assert(names[0] == s);
    assert(names.drop_first().len() == 0);
}

} // verus!
