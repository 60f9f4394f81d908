use vstd::prelude::*;
use vstd::string::*;

use crate::types::PData;
use crate::version::{all_digits, digits_value, is_digit};

verus! {

/// The character of the decimal digit `d`.
pub open spec fn digit_char(d: nat) -> char {
    ((d + 48) as u32) as char
}

/// `n` written in decimal, without leading zeros.
pub open spec fn spec_decimal(n: nat) -> Seq<char>
    decreases n,
{
    if n < 10 {
        seq![digit_char(n)]
    } else {
        spec_decimal(n / 10) + seq![digit_char(n % 10)]
    }
}

/// The decimal writing of `n` is what it should be: decimal digits, without
/// a leading zero unless `n` is 0, that denote `n`.
pub proof fn law_decimal_denotes(n: nat)
    ensures
        all_digits(spec_decimal(n)),
        digits_value(spec_decimal(n)) == n,
        spec_decimal(n).len() > 0,
        n > 0 ==> spec_decimal(n)[0] != '0',
    decreases n,
{
    if n < 10 {
        let s = spec_decimal(n);
        assert(s.drop_last().len() == 0);
        assert(digits_value(s.drop_last()) == 0);
        assert(s.last() == digit_char(n));
        assert(digit_char(n) as u32 == n + 48);
        assert(is_digit(s[0]));
    } else {
        law_decimal_denotes(n / 10);
        let a = spec_decimal(n / 10);
        let s = spec_decimal(n);
        assert(s.drop_last() =~= a);
        assert(s.last() == digit_char(n % 10));
        assert(digit_char(n % 10) as u32 == n % 10 + 48);
        assert(n == (n / 10) * 10 + n % 10);
        assert forall|i: int| 0 <= i < s.len() implies #[trigger] is_digit(s[i]) by {
            if i < a.len() {
                assert(s[i] == a[i]);
            }
        }
        assert(s[0] == a[0]);
    }
}

/// The line that lists one installed package: a tab, its name, and its
/// version in square brackets.
pub open spec fn spec_package_line(p: PData) -> Seq<char> {
    "\t"@ + p.name@ + " ["@ + p.ver@ + "]"@
}

/// The decimal digit `d` as a string.
fn digit_string(d: usize) -> (s: String)
    requires
        d < 10,
    ensures
        s@ == seq![digit_char(d as nat)],
{
    let digits = "0123456789";
    proof {
        reveal_strlit("0123456789");
    }
    let s = digits.substring_char(d, d + 1).to_owned();
    assert(s@ =~= seq![digits@[d as int]]);
    s
}

/// `n` written in decimal.
pub fn decimal(n: usize) -> (s: String)
    ensures
        s@ == spec_decimal(n as nat),
{
    let mut m = n / 10;
    let mut s = digit_string(n % 10);
    while m > 0
        invariant
            spec_decimal(n as nat) == (if m == 0 {
                s@
            } else {
                spec_decimal(m as nat) + s@
            }),
        decreases m,
    {
        let d = digit_string(m % 10);
        let ghost old_s = s@;
        s = d.concat(s.as_str());
        assert(spec_decimal(m as nat) + old_s =~= (if m / 10 == 0 {
            s@
        } else {
            spec_decimal((m / 10) as nat) + s@
        }));
        m = m / 10;
    }
    s
}

/// The listing of the installed packages: a line with their count, then
/// `Installed:` and one line per package, or a line saying that there is
/// nothing to list.
pub fn list_report(installed: &Vec<PData>) -> (lines: Vec<String>)
    ensures
        lines@.len() == 2 + installed@.len(),
        lines@[0]@ == "Package count: "@ + spec_decimal(installed@.len()),
        installed@.len() == 0 ==> lines@[1]@ == "No packages to list!"@,
        installed@.len() > 0 ==> lines@[1]@ == "Installed:"@,
        forall|i: int|
            0 <= i < installed@.len() ==> #[trigger] lines@[i + 2]@ == spec_package_line(
                installed@[i],
            ),
{
    let mut lines: Vec<String> = Vec::new();
    lines.push(String::from_str("Package count: ").concat(decimal(installed.len()).as_str()));
    if installed.len() > 0 {
        lines.push(String::from_str("Installed:"));
        let mut i: usize = 0;
        while i < installed.len()
            invariant
                i <= installed@.len(),
                lines@.len() == 2 + i,
                lines@[0]@ == "Package count: "@ + spec_decimal(installed@.len()),
                lines@[1]@ == "Installed:"@,
                forall|k: int| 0 <= k < i ==> #[trigger] lines@[k + 2]@ == spec_package_line(
                    installed@[k],
                ),
            decreases installed@.len() - i,
        {
            let p = &installed[i];
            let line = String::from_str("\t").concat(p.name.as_str()).concat(" [").concat(
                p.ver.as_str(),
            ).concat("]");
            lines.push(line);
            i += 1;
        }
    } else {
        lines.push(String::from_str("No packages to list!"));
    }
    lines
}

} // verus!
