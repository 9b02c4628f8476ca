//! Numbers as text: what error messages and origin URIs are written with.

use vstd::prelude::*;

verus! {

/// The digits of `n` in base ten, most significant first, with no leading
/// zero: the text of a sequence number.
pub open spec fn decimal_text(n: nat) -> Seq<char>
    decreases n,
{
    if n < 10 {
        seq!["0123456789"@[n as int]]
    } else {
        decimal_text(n / 10).push("0123456789"@[(n % 10) as int])
    }
}

/// `n` written in base ten.
pub fn decimal(n: u16) -> (text: String)
    ensures
        text@ == decimal_text(n as nat),
    decreases n,
{
    proof {
        reveal_strlit("0123456789");
    }
    let last: usize = (n % 10) as usize;
    let digit = "0123456789".substring_char(last, last + 1);
    assert(digit@ == seq!["0123456789"@[last as int]]);
    if n < 10 {
        String::from_str(digit)
    } else {
        let mut text = decimal(n / 10);
        text.append(digit);
        text
    }
}

} // verus!
