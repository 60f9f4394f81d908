use vstd::prelude::*;
use vstd::string::*;

verus! {

/// The characters of a version string with every `.` taken out:
/// `"1.0.20"` becomes `"1020"`.
pub open spec fn remove_dots(s: Seq<char>) -> Seq<char>
    decreases s.len(),
{
    if s.len() == 0 {
        s
    } else {
        let rest = remove_dots(s.drop_last());
        if s.last() == '.' {
            rest
        } else {
            rest.push(s.last())
        }
    }
}

/// An ASCII decimal digit.
pub open spec fn is_digit(c: char) -> bool {
    '0' as u32 <= c as u32 && c as u32 <= '9' as u32
}

/// Every character of `s` is an ASCII decimal digit.
pub open spec fn all_digits(s: Seq<char>) -> bool {
    forall|i: int| 0 <= i < s.len() ==> #[trigger] is_digit(s[i])
}

/// The number that a string of decimal digits denotes.
pub open spec fn digits_value(s: Seq<char>) -> nat
    decreases s.len(),
{
    if s.len() == 0 {
        0
    } else {
        digits_value(s.drop_last()) * 10 + (s.last() as u32 - '0' as u32) as nat
    }
}

/// How many leading characters of `s` are a sign: one for a leading `+` or
/// `-`, else none.
pub open spec fn sign_len(s: Seq<char>) -> int {
    if s.len() > 0 && (s[0] == '-' || s[0] == '+') {
        1
    } else {
        0
    }
}

/// What parsing `s` as an `i32` gives: an optional `+` or `-`, then one or
/// more decimal digits and nothing else, denoting a value in the range of
/// `i32`. Anything else (an empty string, a lone sign, white space, any other
/// character, a value out of range) is refused.
pub open spec fn spec_parse_i32(s: Seq<char>) -> Option<i32> {
    let body = s.skip(sign_len(s));
    let neg = s.len() > 0 && s[0] == '-';
    if body.len() == 0 || !all_digits(body) {
        None
    } else {
        let v: int = if neg {
            -(digits_value(body) as int)
        } else {
            digits_value(body) as int
        };
        if i32::MIN <= v <= i32::MAX {
            Some(v as i32)
        } else {
            None
        }
    }
}

/// The number that a version string stands for: its dots taken out, the rest
/// read as an `i32`.
pub open spec fn spec_version_to_int(ver: Seq<char>) -> Option<i32> {
    spec_parse_i32(remove_dots(ver))
}

/// A version string that does not read as a number.
#[derive(Clone, Copy, Debug, PartialEq, Eq)]
pub struct VersionError;

impl VersionError {
    /// What the error says.
    pub fn message(&self) -> (s: String)
        ensures
            s@ == "Error converting version from string to int"@,
    {
        String::from_str("Error converting version from string to int")
    }
}

/// Where the dots stand in a version does not matter to the number it stands
/// for: versions with the same characters once their dots are taken out read
/// as the same number, or both fail.
pub proof fn law_dots_do_not_matter(a: Seq<char>, b: Seq<char>)
    requires
        remove_dots(a) == remove_dots(b),
    ensures
        spec_version_to_int(a) == spec_version_to_int(b),
{
}

/// Taking out the dots keeps every other character, in order: it is the
/// standard filter of the characters that are not `.`.
pub proof fn law_remove_dots_is_filter(s: Seq<char>)
    ensures
        remove_dots(s) == s.filter(|c: char| c != '.'),
    decreases s.len(),
{
    reveal(Seq::filter);
    if s.len() > 0 {
        law_remove_dots_is_filter(s.drop_last());
    }
}

/// `s` is decimal digits and dots, with at least one digit: a version such as
/// `1.0.20`.
pub open spec fn is_dotted_number(s: Seq<char>) -> bool {
    &&& forall|i: int| 0 <= i < s.len() ==> #[trigger] is_digit(s[i]) || s[i] == '.'
    &&& exists|i: int| 0 <= i < s.len() && #[trigger] is_digit(s[i])
}

/// An optional `+`, then digits denoting at most `i32::MAX`, reads as the
/// number that the digits denote; `-` then digits denoting at most
/// `2^31` reads as its negation.
pub proof fn law_parse_i32_of_digits(body: Seq<char>)
    requires
        body.len() > 0,
        all_digits(body),
    ensures
        digits_value(body) <= i32::MAX ==> spec_parse_i32(body) == Some(
            digits_value(body) as i32,
        ),
        digits_value(body) <= i32::MAX ==> spec_parse_i32(seq!['+'] + body) == Some(
            digits_value(body) as i32,
        ),
        digits_value(body) <= 2147483648 ==> spec_parse_i32(seq!['-'] + body) == Some(
            (-(digits_value(body) as int)) as i32,
        ),
        digits_value(body) > 2147483648 ==> spec_parse_i32(body) is None && spec_parse_i32(
            seq!['-'] + body,
        ) is None,
{
    assert(is_digit(body[0]));
    assert(body[0] != '-' && body[0] != '+');
    assert(body.skip(0) =~= body);
    assert((seq!['+'] + body).skip(1) =~= body);
    assert((seq!['-'] + body).skip(1) =~= body);
}

/// A version made of digits and dots reads as the number its digits denote,
/// wherever that number fits in an `i32`: `10.20.30` is `102030`.
pub proof fn law_version_of_dotted_number(ver: Seq<char>)
    ensures
        is_dotted_number(ver) && digits_value(ver.filter(|c: char| c != '.')) <= i32::MAX
            ==> spec_version_to_int(ver) == Some(
            digits_value(ver.filter(|c: char| c != '.')) as i32,
        ),
{
    if is_dotted_number(ver) && digits_value(ver.filter(|c: char| c != '.')) <= i32::MAX {
        law_remove_dots_is_filter(ver);
        lemma_dotted_digits(ver);
        law_parse_i32_of_digits(remove_dots(ver));
    }
}

/// The characters of a version made of digits and dots, once its dots are
/// taken out, are digits, at least one of them.
proof fn lemma_dotted_digits(ver: Seq<char>)
    requires
        is_dotted_number(ver),
    ensures
        all_digits(remove_dots(ver)),
        remove_dots(ver).len() > 0,
{
    lemma_remove_dots_digits(ver);
    let k = choose|i: int| 0 <= i < ver.len() && is_digit(ver[i]);
    lemma_remove_dots_keeps(ver, k);
}

proof fn lemma_remove_dots_digits(s: Seq<char>)
    requires
        forall|i: int| 0 <= i < s.len() ==> #[trigger] is_digit(s[i]) || s[i] == '.',
    ensures
        all_digits(remove_dots(s)),
    decreases s.len(),
{
    if s.len() > 0 {
        let t = s.drop_last();
        assert forall|i: int| 0 <= i < t.len() implies #[trigger] is_digit(t[i]) || t[i] == '.' by {
            assert(t[i] == s[i]);
            assert(is_digit(s[i]) || s[i] == '.');
        }
        lemma_remove_dots_digits(t);
        assert(is_digit(s[s.len() - 1]) || s[s.len() - 1] == '.');
        let r = remove_dots(t);
        if s.last() != '.' {
            assert forall|i: int| 0 <= i < r.push(s.last()).len() implies #[trigger] is_digit(
                r.push(s.last())[i],
            ) by {
                if i < r.len() {
                    assert(is_digit(r[i]));
                }
            }
        }
    }
}

proof fn lemma_remove_dots_keeps(s: Seq<char>, k: int)
    requires
        0 <= k < s.len(),
        s[k] != '.',
    ensures
        remove_dots(s).len() > 0,
    decreases s.len(),
{
    if s.last() == '.' {
        lemma_remove_dots_keeps(s.drop_last(), k);
    }
}

/// A prefix of a string of digits denotes no more than the whole string.
proof fn lemma_digits_value_prefix(s: Seq<char>, k: int)
    requires
        0 <= k <= s.len(),
        all_digits(s),
    ensures
        digits_value(s.take(k)) <= digits_value(s),
    decreases s.len(),
{
    if k < s.len() {
        let t = s.drop_last();
        assert forall|i: int| 0 <= i < t.len() implies #[trigger] is_digit(t[i]) by {
            assert(is_digit(s[i]));
        }
        lemma_digits_value_prefix(t, k);
        assert(t.take(k) =~= s.take(k));
    } else {
        assert(s.take(k) =~= s);
    }
}

/// The characters of `ver` without its dots.
fn strip_dots(ver: &str) -> (res: Vec<char>)
    ensures
        res@ == remove_dots(ver@),
{
    let n = ver.unicode_len();
    let mut out: Vec<char> = Vec::new();
    let mut i: usize = 0;
    while i < n
        invariant
            n == ver@.len(),
            i <= n,
            out@ == remove_dots(ver@.take(i as int)),
        decreases n - i,
    {
        let c = ver.get_char(i);
        assert(ver@.take(i + 1).drop_last() =~= ver@.take(i as int));
        if c != '.' {
            out.push(c);
        }
        i += 1;
    }
    assert(ver@.take(n as int) =~= ver@);
    out
}

/// Reads `s` as an `i32` the way `str::parse::<i32>` does.
fn parse_i32(s: &Vec<char>) -> (r: Option<i32>)
    ensures
        r == spec_parse_i32(s@),
{
    let n = s.len();
    let mut start: usize = 0;
    let mut neg = false;
    if n > 0 && (s[0] == '-' || s[0] == '+') {
        start = 1;
        neg = s[0] == '-';
    }
    assert(start == sign_len(s@));
    if start == n {
        return None;
    }
    let mut acc: u64 = 0;
    let mut k: usize = start;
    assert(s@.subrange(start as int, start as int).len() == 0);
    while k < n
        invariant
            n == s@.len(),
            start < n,
            start <= k <= n,
            start == sign_len(s@),
            neg == (s@.len() > 0 && s@[0] == '-'),
            all_digits(s@.subrange(start as int, k as int)),
            acc == digits_value(s@.subrange(start as int, k as int)),
            acc <= 2147483648,
        decreases n - k,
    {
        let c = s[k];
        let ghost body = s@.skip(start as int);
        let ghost pre = s@.subrange(start as int, k + 1);
        assert(body[k - start] == c);
        let code: u32 = c as u32;
        if !(('0' as u32) <= code && code <= ('9' as u32)) {
            assert(!is_digit(body[k - start]));
            return None;
        }
        let d: u64 = (code - ('0' as u32)) as u64;
        assert(pre.drop_last() =~= s@.subrange(start as int, k as int));
        assert(pre.last() == c);
        assert forall|i: int| 0 <= i < pre.len() implies #[trigger] is_digit(pre[i]) by {
            if i < pre.len() - 1 {
                assert(pre[i] == s@.subrange(start as int, k as int)[i]);
            }
        }
        let next = acc * 10 + d;
        if next > 2147483648 {
            assert(pre =~= body.take(k + 1 - start));
            proof {
                if all_digits(body) {
                    lemma_digits_value_prefix(body, (k + 1 - start) as int);
                }
            }
            return None;
        }
        acc = next;
        k += 1;
    }
    assert(s@.subrange(start as int, n as int) =~= s@.skip(start as int));
    if neg {
        let v: i64 = 0 - (acc as i64);
        Some(v as i32)
    } else if acc <= 2147483647 {
        Some(acc as i32)
    } else {
        None
    }
}

/// The number that a version string stands for: `"1.0.20"` is `1020`.
/// The dots are taken out and the rest is read as an `i32`; where that fails,
/// the version is refused.
pub fn version_to_int(ver: &str) -> (r: Result<i32, VersionError>)
    ensures
        match spec_version_to_int(ver@) {
            Some(v) => r == Ok::<i32, VersionError>(v),
            None => r is Err,
        },
        match spec_parse_i32(ver@.filter(|c: char| c != '.')) {
            Some(v) => r == Ok::<i32, VersionError>(v),
            None => r is Err,
        },
        is_dotted_number(ver@) && digits_value(ver@.filter(|c: char| c != '.')) <= i32::MAX
            ==> r == Ok::<i32, VersionError>(
            digits_value(ver@.filter(|c: char| c != '.')) as i32,
        ),
{
    proof {
        law_remove_dots_is_filter(ver@);
        law_version_of_dotted_number(ver@);
    }
    let digits = strip_dots(ver);
    match parse_i32(&digits) {
        Some(v) => Ok(v),
        None => Err(VersionError),
    }
}

} // verus!
