use vstd::prelude::*;
use vstd::string::*;

use crate::version::{
    all_digits, digits_value, is_digit, spec_version_to_int, version_to_int, VersionError,
};

verus! {

/// How a repository version stands to an installed one.
#[derive(Clone, Copy, Debug, PartialEq, Eq)]
pub enum VersionOrder {
    /// The repository holds an older release.
    Older,
    /// The same release.
    Same,
    /// The repository holds a newer release.
    Newer,
}

/// The pieces of `s` between its dots, in order: `"1.10.0"` has the pieces
/// `"1"`, `"10"` and `"0"`; a string without dots is one piece.
pub open spec fn split_dots(s: Seq<char>) -> Seq<Seq<char>>
    decreases s.len(),
{
    if s.len() == 0 {
        seq![Seq::<char>::empty()]
    } else {
        let parts = split_dots(s.drop_last());
        if s.last() == '.' {
            parts.push(Seq::<char>::empty())
        } else {
            parts.update(parts.len() - 1, parts.last().push(s.last()))
        }
    }
}

/// Every piece is a non-empty string of decimal digits.
pub open spec fn numeric_pieces(ps: Seq<Seq<char>>) -> bool {
    forall|i: int| 0 <= i < ps.len() ==> #[trigger] ps[i].len() > 0 && all_digits(ps[i])
}

/// The parts of a version: the numbers between its dots, in order, where
/// each piece is a number; `None` where one is not (empty, or holding
/// anything but digits).
pub open spec fn spec_version_parts(ver: Seq<char>) -> Option<Seq<nat>> {
    let ps = split_dots(ver);
    if numeric_pieces(ps) {
        Some(ps.map_values(|p: Seq<char>| digits_value(p)))
    } else {
        None
    }
}

/// Part `i` of a version, a missing trailing part counting as 0.
pub open spec fn part_at(parts: Seq<nat>, i: int) -> nat {
    if 0 <= i < parts.len() {
        parts[i]
    } else {
        0
    }
}

/// How `repo` stands to `installed` from part `i` on: the first part in which
/// they differ decides; where none differs, they are the same.
pub open spec fn compare_parts_from(installed: Seq<nat>, repo: Seq<nat>, i: int) -> VersionOrder
    decreases installed.len() + repo.len() - i,
{
    if i < 0 || (i >= installed.len() && i >= repo.len()) {
        VersionOrder::Same
    } else if part_at(repo, i) < part_at(installed, i) {
        VersionOrder::Older
    } else if part_at(repo, i) > part_at(installed, i) {
        VersionOrder::Newer
    } else {
        compare_parts_from(installed, repo, i + 1)
    }
}

/// How a repository version stands to an installed one: their parts compared
/// in order as numbers, a missing trailing part counting as 0; `None` where
/// either has a part that is not a number.
pub open spec fn spec_compare_versions(installed: Seq<char>, repo: Seq<char>) -> Option<
    VersionOrder,
> {
    match (spec_version_parts(installed), spec_version_parts(repo)) {
        (Some(a), Some(b)) => Some(compare_parts_from(a, b, 0)),
        _ => None,
    }
}

/// The character strings that a list of character vectors holds.
pub open spec fn char_views(vs: Seq<Vec<char>>) -> Seq<Seq<char>> {
    vs.map_values(|v: Vec<char>| v@)
}

/// `10` to the power `n`.
pub open spec fn pow10(n: nat) -> nat
    decreases n,
{
    if n == 0 {
        1
    } else {
        10 * pow10((n - 1) as nat)
    }
}

/// `s` padded on the left with `'0'` up to the length `n`.
pub open spec fn pad_zeros(s: Seq<char>, n: int) -> Seq<char> {
    Seq::new((n - s.len()) as nat, |i: int| '0') + s
}

proof fn lemma_pow10_pos(n: nat)
    ensures
        pow10(n) >= 1,
    decreases n,
{
    if n > 0 {
        lemma_pow10_pos((n - 1) as nat);
    }
}

/// The value of digits written after others.
proof fn lemma_digits_value_concat(p: Seq<char>, t: Seq<char>)
    ensures
        digits_value(p + t) == digits_value(p) * pow10(t.len()) + digits_value(t),
    decreases t.len(),
{
    if t.len() == 0 {
        assert(p + t =~= p);
        assert(pow10(0) == 1);
        assert(digits_value(t) == 0);
        assert(digits_value(p) * 1 == digits_value(p));
    } else {
        let t1 = t.drop_last();
        lemma_digits_value_concat(p, t1);
        assert((p + t).drop_last() =~= p + t1);
        assert((p + t).last() == t.last());
        let a = digits_value(p);
        let q = pow10(t1.len());
        let b = digits_value(t1);
        let d = (t.last() as u32 - '0' as u32) as nat;
        assert((p + t).len() > 0);
        assert(digits_value(p + t) == digits_value(p + t1) * 10 + d);
        assert(digits_value(t) == b * 10 + d);
        assert(pow10(t.len()) == 10 * q);
        assert((a * q + b) * 10 + d == a * (10 * q) + (b * 10 + d)) by (nonlinear_arith);
        assert(a * pow10(t.len()) == a * (10 * q));
        assert(digits_value(p + t) == a * pow10(t.len()) + digits_value(t));
    }
}

/// `n` digits denote less than `10^n`.
proof fn lemma_digits_value_bound(t: Seq<char>)
    requires
        all_digits(t),
    ensures
        digits_value(t) < pow10(t.len()),
    decreases t.len(),
{
    if t.len() > 0 {
        let t1 = t.drop_last();
        assert forall|i: int| 0 <= i < t1.len() implies #[trigger] is_digit(t1[i]) by {
            assert(is_digit(t[i]));
        }
        lemma_digits_value_bound(t1);
        assert(is_digit(t[t.len() - 1]));
    }
}

/// Zeros denote nothing.
proof fn lemma_zeros_value(z: Seq<char>)
    requires
        forall|i: int| 0 <= i < z.len() ==> z[i] == '0',
    ensures
        digits_value(z) == 0,
    decreases z.len(),
{
    if z.len() > 0 {
        lemma_zeros_value(z.drop_last());
    }
}

/// Leading zeros do not change what digits denote.
proof fn lemma_pad_zeros_value(s: Seq<char>, n: int)
    requires
        n >= s.len(),
    ensures
        digits_value(pad_zeros(s, n)) == digits_value(s),
        pad_zeros(s, n).len() == n,
{
    let z = Seq::new((n - s.len()) as nat, |i: int| '0');
    lemma_zeros_value(z);
    lemma_digits_value_concat(z, s);
}

/// One digit denotes its own value.
proof fn lemma_single_digit_value(c: char)
    ensures
        digits_value(seq![c]) == (c as u32 - '0' as u32) as nat,
{
    assert(seq![c].drop_last().len() == 0);
    assert(digits_value(seq![c].drop_last()) == 0);
    assert(seq![c].last() == c);
}

/// Of two digit strings of one length, the one with the smaller digit at
/// their first difference denotes less.
proof fn lemma_first_difference(a: Seq<char>, b: Seq<char>, j: int)
    requires
        a.len() == b.len(),
        all_digits(a),
        all_digits(b),
        0 <= j < a.len(),
        a.take(j) == b.take(j),
        (a[j] as u32) < (b[j] as u32),
    ensures
        digits_value(a) < digits_value(b),
{
    let n = a.len() as int;
    let ra = a.skip(j + 1);
    let rb = b.skip(j + 1);
    assert(a =~= a.take(j) + (seq![a[j]] + ra));
    assert(b =~= b.take(j) + (seq![b[j]] + rb));
    lemma_digits_value_concat(a.take(j), seq![a[j]] + ra);
    lemma_digits_value_concat(b.take(j), seq![b[j]] + rb);
    lemma_digits_value_concat(seq![a[j]], ra);
    lemma_digits_value_concat(seq![b[j]], rb);
    assert forall|i: int| 0 <= i < ra.len() implies #[trigger] is_digit(ra[i]) by {
        assert(is_digit(a[i + j + 1]));
    }
    lemma_digits_value_bound(ra);
    assert(is_digit(a[j]) && is_digit(b[j]));
    let da = digits_value(seq![a[j]]);
    let db = digits_value(seq![b[j]]);
    lemma_single_digit_value(a[j]);
    lemma_single_digit_value(b[j]);
    assert(da < db);
    let m = pow10(ra.len());
    assert(rb.len() == ra.len());
    let x = digits_value(seq![a[j]] + ra);
    let y = digits_value(seq![b[j]] + rb);
    assert(x < y) by {
        assert(x == da * m + digits_value(ra));
        assert(y == db * m + digits_value(rb));
        assert(digits_value(ra) < m);
        assert(da * m + m <= db * m) by (nonlinear_arith)
            requires
                da < db,
        ;
    }
    let p = digits_value(a.take(j));
    let q = pow10((n - j) as nat);
    assert((seq![a[j]] + ra).len() == n - j);
    assert((seq![b[j]] + rb).len() == n - j);
    assert(p * q + x < p * q + y);
}

/// How the number `repo` denotes stands to the one `installed` denotes.
#[verifier::rlimit(30)]
fn compare_digits(installed: &Vec<char>, repo: &Vec<char>) -> (r: VersionOrder)
    requires
        all_digits(installed@),
        all_digits(repo@),
    ensures
        r == (if digits_value(repo@) < digits_value(installed@) {
            VersionOrder::Older
        } else if digits_value(repo@) > digits_value(installed@) {
            VersionOrder::Newer
        } else {
            VersionOrder::Same
        }),
{
    let la = installed.len();
    let lb = repo.len();
    let n = if la > lb {
        la
    } else {
        lb
    };
    let ghost pa = pad_zeros(installed@, n as int);
    let ghost pb = pad_zeros(repo@, n as int);
    proof {
        lemma_pad_zeros_value(installed@, n as int);
        lemma_pad_zeros_value(repo@, n as int);
        assert forall|i: int| 0 <= i < pa.len() implies #[trigger] is_digit(pa[i]) by {
            if i >= n - la {
                assert(pa[i] == installed@[i - (n - la)]);
            }
        }
        assert forall|i: int| 0 <= i < pb.len() implies #[trigger] is_digit(pb[i]) by {
            if i >= n - lb {
                assert(pb[i] == repo@[i - (n - lb)]);
            }
        }
    }
    let mut k: usize = 0;
    while k < n
        invariant
            k <= n,
            n >= la,
            n >= lb,
            la == installed@.len(),
            lb == repo@.len(),
            pa == pad_zeros(installed@, n as int),
            pb == pad_zeros(repo@, n as int),
            pa.len() == n,
            pb.len() == n,
            all_digits(pa),
            all_digits(pb),
            digits_value(pa) == digits_value(installed@),
            digits_value(pb) == digits_value(repo@),
            pa.take(k as int) == pb.take(k as int),
        decreases n - k,
    {
        let ca: char = if k < n - la {
            '0'
        } else {
            installed[k - (n - la)]
        };
        let cb: char = if k < n - lb {
            '0'
        } else {
            repo[k - (n - lb)]
        };
        assert(ca == pa[k as int]);
        assert(cb == pb[k as int]);
        let ua: u32 = ca as u32;
        let ub: u32 = cb as u32;
        if ub < ua {
            proof {
                lemma_first_difference(pb, pa, k as int);
            }
            return VersionOrder::Older;
        }
        if ub > ua {
            proof {
                lemma_first_difference(pa, pb, k as int);
            }
            return VersionOrder::Newer;
        }
        proof {
            vstd::utf8::char_u32_cast(ca, ua);
            vstd::utf8::char_u32_cast(cb, ub);
        }
        assert(pa.take(k + 1) =~= pa.take(k as int).push(ca));
        assert(pb.take(k + 1) =~= pb.take(k as int).push(cb));
        k += 1;
    }
    assert(pa =~= pa.take(n as int));
    assert(pb =~= pb.take(n as int));
    VersionOrder::Same
}

/// The pieces of `ver` between its dots, where each is a non-empty string of
/// digits.
fn numeric_pieces_of(ver: &str) -> (r: Option<Vec<Vec<char>>>)
    ensures
        match r {
            Some(ps) => char_views(ps@) == split_dots(ver@) && numeric_pieces(split_dots(ver@)),
            None => !numeric_pieces(split_dots(ver@)),
        },
{
    let n = ver.unicode_len();
    let mut pieces: Vec<Vec<char>> = Vec::new();
    let mut cur: Vec<char> = Vec::new();
    let mut i: usize = 0;
    assert(ver@.take(0).len() == 0);
    assert(char_views(pieces@).push(cur@) =~= split_dots(ver@.take(0)));
    while i < n
        invariant
            n == ver@.len(),
            i <= n,
            char_views(pieces@).push(cur@) == split_dots(ver@.take(i as int)),
        decreases n - i,
    {
        let c = ver.get_char(i);
        let ghost before = char_views(pieces@).push(cur@);
        assert(ver@.take(i + 1).drop_last() =~= ver@.take(i as int));
        assert(ver@.take(i + 1).last() == c);
        if c == '.' {
            let done = cur;
            pieces.push(done);
            cur = Vec::new();
            assert(char_views(pieces@).push(cur@) =~= before.push(Seq::<char>::empty()));
        } else {
            cur.push(c);
            assert(char_views(pieces@).push(cur@) =~= before.update(
                before.len() - 1,
                before.last().push(c),
            ));
        }
        i += 1;
    }
    assert(ver@.take(n as int) =~= ver@);
    let ghost last = char_views(pieces@).push(cur@);
    pieces.push(cur);
    assert(char_views(pieces@) =~= last);
    let ghost ps = char_views(pieces@);
    let mut j: usize = 0;
    while j < pieces.len()
        invariant
            j <= pieces.len(),
            ps == char_views(pieces@),
            ps == split_dots(ver@),
            ps.len() == pieces.len(),
            forall|q: int| 0 <= q < j ==> #[trigger] ps[q].len() > 0 && all_digits(ps[q]),
        decreases pieces.len() - j,
    {
        let piece = &pieces[j];
        assert(piece@ == ps[j as int]);
        if piece.len() == 0 {
            assert(ps[j as int].len() == 0);
            return None;
        }
        let mut k: usize = 0;
        while k < piece.len()
            invariant
                k <= piece.len(),
                j < ps.len(),
                ps == split_dots(ver@),
                piece@ == ps[j as int],
                forall|q: int| 0 <= q < k ==> #[trigger] is_digit(piece@[q]),
            decreases piece.len() - k,
        {
            let code: u32 = piece[k] as u32;
            if !(('0' as u32) <= code && code <= ('9' as u32)) {
                assert(!is_digit(ps[j as int][k as int]));
                assert(!all_digits(ps[j as int]));
                assert(ps[j as int].len() > 0);
                return None;
            }
            k += 1;
        }
        j += 1;
    }
    Some(pieces)
}

/// How the repository version `repo` stands to the installed version
/// `installed`: the numbers between their dots are compared in order, a
/// missing trailing number counting as 0, so `2.0.0` is newer than `1.10.0`
/// and `1.0` is the same as `1.0.0`. A version with a piece that is not a
/// number (empty, or holding anything but digits) is refused.
pub fn compare_versions(installed: &str, repo: &str) -> (r: Result<VersionOrder, VersionError>)
    ensures
        match spec_compare_versions(installed@, repo@) {
            Some(o) => r == Ok::<VersionOrder, VersionError>(o),
            None => r is Err,
        },
{
    let a = match numeric_pieces_of(installed) {
        Some(a) => a,
        None => return Err(VersionError),
    };
    let b = match numeric_pieces_of(repo) {
        Some(b) => b,
        None => return Err(VersionError),
    };
    let ghost pa = split_dots(installed@).map_values(|p: Seq<char>| digits_value(p));
    let ghost pb = split_dots(repo@).map_values(|p: Seq<char>| digits_value(p));
    let empty: Vec<char> = Vec::new();
    let la = a.len();
    let lb = b.len();
    let n = if la > lb {
        la
    } else {
        lb
    };
    let mut i: usize = 0;
    assert(all_digits(empty@));
    while i < n
        invariant
            i <= n,
            n >= la,
            n >= lb,
            la == a@.len(),
            lb == b@.len(),
            char_views(a@) == split_dots(installed@),
            char_views(b@) == split_dots(repo@),
            numeric_pieces(split_dots(installed@)),
            numeric_pieces(split_dots(repo@)),
            empty@.len() == 0,
            pa == split_dots(installed@).map_values(|p: Seq<char>| digits_value(p)),
            pb == split_dots(repo@).map_values(|p: Seq<char>| digits_value(p)),
            compare_parts_from(pa, pb, 0) == compare_parts_from(pa, pb, i as int),
        decreases n - i,
    {
        let x: &Vec<char> = if i < la {
            &a[i]
        } else {
            &empty
        };
        let y: &Vec<char> = if i < lb {
            &b[i]
        } else {
            &empty
        };
        proof {
            if i < la {
                assert(char_views(a@)[i as int] == a@[i as int]@);
                assert(split_dots(installed@)[i as int].len() > 0);
            }
            if i < lb {
                assert(char_views(b@)[i as int] == b@[i as int]@);
                assert(split_dots(repo@)[i as int].len() > 0);
            }
            assert(x@.len() == 0 ==> digits_value(x@) == 0);
            assert(y@.len() == 0 ==> digits_value(y@) == 0);
            assert(digits_value(x@) == part_at(pa, i as int));
            assert(digits_value(y@) == part_at(pb, i as int));
        }
        let o = compare_digits(x, y);
        match o {
            VersionOrder::Same => {},
            _ => {
                return Ok(o);
            },
        }
        i += 1;
    }
    Ok(VersionOrder::Same)
}

/// A version that splits into parts is the same as itself.
pub proof fn law_compare_versions_reflexive(ver: Seq<char>)
    requires
        spec_version_parts(ver) is Some,
    ensures
        spec_compare_versions(ver, ver) == Some(VersionOrder::Same),
{
    let p = spec_version_parts(ver)->0;
    lemma_compare_self(p, 0);
}

proof fn lemma_compare_self(p: Seq<nat>, i: int)
    requires
        i >= 0,
    ensures
        compare_parts_from(p, p, i) == VersionOrder::Same,
    decreases p.len() + p.len() - i,
{
    if i < p.len() {
        lemma_compare_self(p, i + 1);
    }
}

proof fn lemma_compare_swap(a: Seq<nat>, b: Seq<nat>, i: int)
    requires
        i >= 0,
    ensures
        compare_parts_from(a, b, i) == VersionOrder::Newer <==> compare_parts_from(b, a, i)
            == VersionOrder::Older,
        compare_parts_from(a, b, i) == VersionOrder::Same <==> compare_parts_from(b, a, i)
            == VersionOrder::Same,
    decreases a.len() + b.len() - i,
{
    if !(i >= a.len() && i >= b.len()) && part_at(b, i) == part_at(a, i) {
        lemma_compare_swap(a, b, i + 1);
    }
}

/// Swapping the two versions swaps newer and older and keeps the same the
/// same.
pub proof fn law_compare_versions_antisymmetric(v: Seq<char>, w: Seq<char>)
    ensures
        spec_compare_versions(v, w) is None <==> spec_compare_versions(w, v) is None,
        spec_compare_versions(v, w) == Some(VersionOrder::Newer) <==> spec_compare_versions(w, v)
            == Some(VersionOrder::Older),
        spec_compare_versions(v, w) == Some(VersionOrder::Same) <==> spec_compare_versions(w, v)
            == Some(VersionOrder::Same),
{
    if spec_version_parts(v) is Some && spec_version_parts(w) is Some {
        lemma_compare_swap(spec_version_parts(v)->0, spec_version_parts(w)->0, 0);
    }
}

/// How `b` stands to `a` as numbers.
pub open spec fn order_of_numbers(a: int, b: int) -> VersionOrder {
    if b > a {
        VersionOrder::Newer
    } else if b == a {
        VersionOrder::Same
    } else {
        VersionOrder::Older
    }
}

/// How the repository version `repo` stands to the installed version
/// `installed`, as `install` and `update` decide it.
///
/// Both versions must read as numbers through `version_to_int` (dots taken
/// out, the rest read as an `i32`); where either does not, there is no
/// answer. Where both do, the two numbers decide (`<`, `==`, `>`), with one
/// exception: where both versions split at their dots into numbers and these
/// differ, the first differing number decides. That exception is what the
/// update instructions rely on: renaming `bun-1.10.0` to `bun-2.0.0` and
/// running `update` installs the newer release, which the bare numbers (1100
/// against 200) would refuse as a downgrade; likewise `2.0.0` against
/// `1.10.0` is a downgrade, which is not done.
pub open spec fn spec_release_order(installed: Seq<char>, repo: Seq<char>) -> Option<
    VersionOrder,
> {
    match (spec_version_to_int(installed), spec_version_to_int(repo)) {
        (Some(iv), Some(rv)) => match spec_compare_versions(installed, repo) {
            Some(VersionOrder::Newer) => Some(VersionOrder::Newer),
            Some(VersionOrder::Older) => Some(VersionOrder::Older),
            _ => Some(order_of_numbers(iv as int, rv as int)),
        },
        _ => None,
    }
}

/// How the repository version `repo` stands to the installed version
/// `installed` (see `spec_release_order`); `VersionError` exactly where either
/// does not read as a number.
pub fn release_order(installed: &str, repo: &str) -> (r: Result<VersionOrder, VersionError>)
    ensures
        match spec_release_order(installed@, repo@) {
            Some(o) => r == Ok::<VersionOrder, VersionError>(o),
            None => r is Err,
        },
        r is Err <==> (spec_version_to_int(installed@) is None || spec_version_to_int(repo@) is None),
        r is Ok && spec_compare_versions(installed@, repo@) == Some(VersionOrder::Newer) ==> r
            == Ok::<VersionOrder, VersionError>(VersionOrder::Newer),
        r is Ok && spec_compare_versions(installed@, repo@) == Some(VersionOrder::Older) ==> r
            == Ok::<VersionOrder, VersionError>(VersionOrder::Older),
        r is Ok && spec_compare_versions(installed@, repo@) != Some(VersionOrder::Newer)
            && spec_compare_versions(installed@, repo@) != Some(VersionOrder::Older) ==> r == Ok::<
            VersionOrder,
            VersionError,
        >(
            order_of_numbers(
                spec_version_to_int(installed@)->0 as int,
                spec_version_to_int(repo@)->0 as int,
            ),
        ),
{
    let iv = match version_to_int(installed) {
        Ok(v) => v,
        Err(e) => return Err(e),
    };
    let rv = match version_to_int(repo) {
        Ok(v) => v,
        Err(e) => return Err(e),
    };
    match compare_versions(installed, repo) {
        Ok(VersionOrder::Newer) => Ok(VersionOrder::Newer),
        Ok(VersionOrder::Older) => Ok(VersionOrder::Older),
        _ => {
            if rv > iv {
                Ok(VersionOrder::Newer)
            } else if rv == iv {
                Ok(VersionOrder::Same)
            } else {
                Ok(VersionOrder::Older)
            }
        },
    }
}

/// Where both versions read as numbers and their parts differ, the first
/// differing part decides: the repository's release is newer where its part
/// is greater, older where it is smaller, whatever the numbers with the dots
/// taken out say.
pub proof fn law_release_order_follows_parts(installed: Seq<char>, repo: Seq<char>)
    requires
        spec_version_to_int(installed) is Some,
        spec_version_to_int(repo) is Some,
    ensures
        spec_compare_versions(installed, repo) == Some(VersionOrder::Newer) ==> spec_release_order(
            installed,
            repo,
        ) == Some(VersionOrder::Newer),
        spec_compare_versions(installed, repo) == Some(VersionOrder::Older) ==> spec_release_order(
            installed,
            repo,
        ) == Some(VersionOrder::Older),
{
}

/// Where the parts of two versions agree before position `k` (a missing part
/// being 0) and the repository's part at `k` is greater, the repository's
/// version is newer; where it is smaller, older.
pub proof fn law_compare_first_difference(installed: Seq<nat>, repo: Seq<nat>, k: int)
    requires
        0 <= k,
        forall|j: int| 0 <= j < k ==> part_at(installed, j) == part_at(repo, j),
        part_at(installed, k) != part_at(repo, k),
    ensures
        part_at(repo, k) > part_at(installed, k) ==> compare_parts_from(installed, repo, 0)
            == VersionOrder::Newer,
        part_at(repo, k) < part_at(installed, k) ==> compare_parts_from(installed, repo, 0)
            == VersionOrder::Older,
{
    lemma_compare_prefix(installed, repo, 0, k);
}

proof fn lemma_compare_prefix(installed: Seq<nat>, repo: Seq<nat>, i: int, k: int)
    requires
        0 <= i <= k,
        forall|j: int| 0 <= j < k ==> part_at(installed, j) == part_at(repo, j),
        part_at(installed, k) != part_at(repo, k),
    ensures
        compare_parts_from(installed, repo, i) == compare_parts_from(installed, repo, k),
        part_at(repo, k) > part_at(installed, k) ==> compare_parts_from(installed, repo, k)
            == VersionOrder::Newer,
        part_at(repo, k) < part_at(installed, k) ==> compare_parts_from(installed, repo, k)
            == VersionOrder::Older,
    decreases k - i,
{
    if i < k {
        assert(part_at(installed, i) == part_at(repo, i));
        if i >= installed.len() && i >= repo.len() {
            assert(part_at(installed, k) == 0 && part_at(repo, k) == 0);
        }
        lemma_compare_prefix(installed, repo, i + 1, k);
    }
}

/// Versions whose parts all agree (a missing part being 0) are the same.
pub proof fn law_compare_equal_parts(installed: Seq<nat>, repo: Seq<nat>)
    requires
        forall|j: int| 0 <= j ==> part_at(installed, j) == part_at(repo, j),
    ensures
        compare_parts_from(installed, repo, 0) == VersionOrder::Same,
{
    lemma_compare_equal_from(installed, repo, 0);
}

proof fn lemma_compare_equal_from(installed: Seq<nat>, repo: Seq<nat>, i: int)
    requires
        0 <= i,
        forall|j: int| 0 <= j ==> part_at(installed, j) == part_at(repo, j),
    ensures
        compare_parts_from(installed, repo, i) == VersionOrder::Same,
    decreases installed.len() + repo.len() - i,
{
    if !(i >= installed.len() && i >= repo.len()) {
        assert(part_at(installed, i) == part_at(repo, i));
        lemma_compare_equal_from(installed, repo, i + 1);
    }
}

/// A piece without dots is one piece; a piece without dots, a dot and the
/// rest split into that piece followed by the pieces of the rest.
pub proof fn law_split_dots_join(p: Seq<char>, t: Seq<char>)
    requires
        !p.contains('.'),
    ensures
        split_dots(p) == seq![p],
        split_dots(p + seq!['.'] + t) == seq![p] + split_dots(t),
    decreases t.len(),
{
    lemma_split_dots_single(p);
    if t.len() == 0 {
        let s = p + seq!['.'] + t;
        assert(s.drop_last() =~= p);
        assert(split_dots(t) =~= seq![Seq::<char>::empty()]);
        assert(seq![p].push(Seq::<char>::empty()) =~= seq![p] + split_dots(t));
    } else {
        law_split_dots_join(p, t.drop_last());
        let s = p + seq!['.'] + t;
        assert(s.drop_last() =~= p + seq!['.'] + t.drop_last());
        assert(s.last() == t.last());
        let a = split_dots(t.drop_last());
        if t.last() == '.' {
            assert((seq![p] + a).push(Seq::<char>::empty()) =~= seq![p] + a.push(
                Seq::<char>::empty(),
            ));
        } else {
            lemma_split_dots_nonempty(t.drop_last());
            assert((seq![p] + a).update((seq![p] + a).len() - 1, (seq![p] + a).last().push(
                t.last(),
            )) =~= seq![p] + a.update(a.len() - 1, a.last().push(t.last())));
        }
    }
}

proof fn lemma_split_dots_nonempty(s: Seq<char>)
    ensures
        split_dots(s).len() >= 1,
    decreases s.len(),
{
    if s.len() > 0 {
        lemma_split_dots_nonempty(s.drop_last());
    }
}

proof fn lemma_split_dots_single(p: Seq<char>)
    requires
        !p.contains('.'),
    ensures
        split_dots(p) == seq![p],
    decreases p.len(),
{
    if p.len() > 0 {
        let q = p.drop_last();
        assert(!q.contains('.')) by {
            if q.contains('.') {
                let k = choose|k: int| 0 <= k < q.len() && q[k] == '.';
                assert(p[k] == '.');
            }
        }
        lemma_split_dots_single(q);
        assert(p[p.len() - 1] != '.') by {
            if p[p.len() - 1] == '.' {
                assert(p.contains('.'));
            }
        }
        assert(q.push(p.last()) =~= p);
        assert(seq![q].update(0, q.push(p.last())) =~= seq![p]);
    } else {
        assert(p =~= Seq::<char>::empty());
    }
}

/// Two versions that differ only in their first part are ordered by that
/// part as a number: `1.3.0` is newer than `1.2.0` seen as `1` then `3.0`
/// against `2.0`, and `2.0.0` is newer than `1.0.0`.
pub proof fn law_compare_versions_leading_part(x: Seq<char>, y: Seq<char>, t: Seq<char>)
    requires
        x.len() > 0,
        y.len() > 0,
        all_digits(x),
        all_digits(y),
        spec_version_parts(t) is Some,
    ensures
        digits_value(y) > digits_value(x) ==> spec_compare_versions(
            x + seq!['.'] + t,
            y + seq!['.'] + t,
        ) == Some(VersionOrder::Newer),
        digits_value(y) < digits_value(x) ==> spec_compare_versions(
            x + seq!['.'] + t,
            y + seq!['.'] + t,
        ) == Some(VersionOrder::Older),
        digits_value(y) == digits_value(x) ==> spec_compare_versions(
            x + seq!['.'] + t,
            y + seq!['.'] + t,
        ) == Some(VersionOrder::Same),
{
    lemma_parts_cons(x, t);
    lemma_parts_cons(y, t);
    let a = spec_version_parts(x + seq!['.'] + t)->0;
    let b = spec_version_parts(y + seq!['.'] + t)->0;
    assert(part_at(a, 0) == digits_value(x));
    assert(part_at(b, 0) == digits_value(y));
    if digits_value(y) != digits_value(x) {
        law_compare_first_difference(a, b, 0);
    } else {
        assert forall|j: int| 0 <= j implies part_at(a, j) == part_at(b, j) by {
            if j > 0 {
                assert(part_at(a, j) == part_at(spec_version_parts(t)->0, j - 1));
                assert(part_at(b, j) == part_at(spec_version_parts(t)->0, j - 1));
            }
        }
        law_compare_equal_parts(a, b);
    }
}

/// A number, a dot, and a version split into the number followed by the
/// version's parts.
proof fn lemma_parts_cons(x: Seq<char>, t: Seq<char>)
    requires
        x.len() > 0,
        all_digits(x),
        spec_version_parts(t) is Some,
    ensures
        spec_version_parts(x + seq!['.'] + t) == Some(
            seq![digits_value(x)] + spec_version_parts(t)->0,
        ),
{
    assert(!x.contains('.')) by {
        if x.contains('.') {
            let k = choose|k: int| 0 <= k < x.len() && x[k] == '.';
            assert(is_digit(x[k]));
        }
    }
    law_split_dots_join(x, t);
    let ps = split_dots(x + seq!['.'] + t);
    let st = split_dots(t);
    assert(ps == seq![x] + st);
    assert forall|i: int| 0 <= i < ps.len() implies #[trigger] ps[i].len() > 0 && all_digits(
        ps[i],
    ) by {
        if i > 0 {
            assert(ps[i] == st[i - 1]);
        }
    }
    assert(ps.map_values(|p: Seq<char>| digits_value(p)) =~= seq![digits_value(x)]
        + st.map_values(|p: Seq<char>| digits_value(p)));
}

/// A version that reads as a number is the same release as itself.
pub proof fn law_release_order_reflexive(ver: Seq<char>)
    requires
        spec_version_to_int(ver) is Some,
    ensures
        spec_release_order(ver, ver) == Some(VersionOrder::Same),
{
    if spec_version_parts(ver) is Some {
        law_compare_versions_reflexive(ver);
    }
}

/// Swapping the two versions swaps newer and older and keeps the same the
/// same; both fail together.
pub proof fn law_release_order_antisymmetric(v: Seq<char>, w: Seq<char>)
    ensures
        spec_release_order(v, w) is None <==> spec_release_order(w, v) is None,
        spec_release_order(v, w) == Some(VersionOrder::Newer) <==> spec_release_order(w, v)
            == Some(VersionOrder::Older),
        spec_release_order(v, w) == Some(VersionOrder::Same) <==> spec_release_order(w, v)
            == Some(VersionOrder::Same),
{
    law_compare_versions_antisymmetric(v, w);
}

/// Where neither version has parts that differ, the numbers that
/// `version_to_int` gives decide alone: `1.0` to `1.0.0` (10 to 100) is
/// newer, and `1..0` against `10` is the same.
pub proof fn law_release_order_by_numbers(installed: Seq<char>, repo: Seq<char>)
    requires
        spec_version_to_int(installed) is Some,
        spec_version_to_int(repo) is Some,
        spec_compare_versions(installed, repo) is None || spec_compare_versions(installed, repo)
            == Some(VersionOrder::Same),
    ensures
        spec_release_order(installed, repo) == Some(
            order_of_numbers(
                spec_version_to_int(installed)->0 as int,
                spec_version_to_int(repo)->0 as int,
            ),
        ),
{
}

} // verus!
