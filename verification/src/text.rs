//! Whole numbers as decimal text.

use vstd::prelude::*;
use vstd::string::*;

verus! {

/// The ten digits, each at the index of its worth.
pub open spec fn digits() -> Seq<char> {
    "0123456789"@
}

/// The decimal numeral of `n`: its digits from the highest to the lowest, without
/// leading zeros, and `0` for zero.
pub open spec fn decimal(n: nat) -> Seq<char>
    decreases n,
{
    if n < 10 {
        seq![digits()[n as int]]
    } else {
        decimal(n / 10).push(digits()[(n % 10) as int])
    }
}

/// Writes `n` as a decimal numeral.
pub fn to_decimal(n: u128) -> (r: String)
    ensures
        r@ == decimal(n as nat),
    decreases n,
{
    proof {
        reveal_strlit("0123456789");
    }
    let worth: usize = (n % 10) as usize;
    let last = "0123456789".substring_ascii(worth, worth + 1);
    assert(last@ =~= seq![digits()[worth as int]]);
    if n < 10 {
        String::from_str(last)
    } else {
        let r = to_decimal(n / 10).concat(last);
        assert(r@ =~= decimal((n / 10) as nat).push(digits()[worth as int]));
        r
    }
}

} // verus!
