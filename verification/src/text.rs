use vstd::prelude::*;
use vstd::string::*;

verus! {

/// The text of one decimal digit.
pub open spec fn digit(d: nat) -> Seq<char> {
    if d == 0 {
        "0"@
    } else if d == 1 {
        "1"@
    } else if d == 2 {
        "2"@
    } else if d == 3 {
        "3"@
    } else if d == 4 {
        "4"@
    } else if d == 5 {
        "5"@
    } else if d == 6 {
        "6"@
    } else if d == 7 {
        "7"@
    } else if d == 8 {
        "8"@
    } else {
        "9"@
    }
}

/// The decimal numeral of `n`, without leading zeros.
pub open spec fn decimal(n: nat) -> Seq<char>
    decreases n,
{
    if n < 10 {
        digit(n)
    } else {
        decimal(n / 10) + digit(n % 10)
    }
}

/// The name under which an entity or an attribute is stored: the fixed prefix,
/// then the name itself.
pub open spec fn prefixed(name: Seq<char>) -> Seq<char> {
    "external_"@ + name
}

fn digit_text(d: u64) -> (s: &'static str)
    requires
        d < 10,
    ensures
        s@ == digit(d as nat),
{
    if d == 0 {
        "0"
    } else if d == 1 {
        "1"
    } else if d == 2 {
        "2"
    } else if d == 3 {
        "3"
    } else if d == 4 {
        "4"
    } else if d == 5 {
        "5"
    } else if d == 6 {
        "6"
    } else if d == 7 {
        "7"
    } else if d == 8 {
        "8"
    } else {
        "9"
    }
}

/// Writes `n` as a decimal numeral.
pub fn decimal_string(n: u64) -> (s: String)
    ensures
        s@ == decimal(n as nat),
{
    let mut rest: u64 = n;
    let mut tail: String = String::new();
    while rest >= 10
        invariant
            decimal(n as nat) == decimal(rest as nat) + tail@,
        decreases rest,
    {
        let low: u64 = rest % 10;
        let ghost before = tail@;
        tail = String::from_str(digit_text(low)).concat(tail.as_str());
        proof {
            assert(decimal(rest as nat) == decimal((rest / 10) as nat) + digit(low as nat));
            assert((decimal((rest / 10) as nat) + digit(low as nat)) + before =~= decimal(
                (rest / 10) as nat,
            ) + (digit(low as nat) + before));
        }
        rest = rest / 10;
    }
    let head = String::from_str(digit_text(rest));
    head.concat(tail.as_str())
}

/// Whether two texts are the same.
pub fn same_text(a: &str, b: &str) -> (r: bool)
    ensures
        r == (a@ == b@),
{
    let x = String::from_str(a);
    let y = String::from_str(b);
    x == y
}

/// The stored name of `name`.
pub fn column_name(name: &str) -> (s: String)
    ensures
        s@ == prefixed(name@),
{
    String::from_str("external_").concat(name)
}

} // verus!
