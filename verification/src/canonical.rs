//! Canonical string forms of items.
//!
//! A type that implements [`Canonical`] has one built-in, unambiguous textual
//! representation, described at the specification level by a sequence of
//! characters. The default join uses this representation for every item.

use vstd::prelude::*;
use vstd::string::StringExecFns;

verus! {

/// The character that writes a single decimal digit.
pub open spec fn digit_char(d: int) -> char {
    if d == 0 {
        '0'
    } else if d == 1 {
        '1'
    } else if d == 2 {
        '2'
    } else if d == 3 {
        '3'
    } else if d == 4 {
        '4'
    } else if d == 5 {
        '5'
    } else if d == 6 {
        '6'
    } else if d == 7 {
        '7'
    } else if d == 8 {
        '8'
    } else {
        '9'
    }
}

/// The decimal digit string of a natural number, most significant digit
/// first, with no leading zeros (a single `'0'` for zero).
pub open spec fn decimal_digits(n: nat) -> Seq<char>
    decreases n,
{
    if n < 10 {
        seq![digit_char(n as int)]
    } else {
        decimal_digits(n / 10).push(digit_char((n % 10) as int))
    }
}

/// A type with a canonical string conversion: one built-in, unambiguous
/// textual representation, used by the default join when no formatter is
/// supplied.
pub trait Canonical {
    /// The canonical representation, as a sequence of characters.
    spec fn canon(&self) -> Seq<char>;

    /// Produces the canonical representation as an owned string.
    fn canonical_string(&self) -> (r: String)
        ensures
            r@ == self.canon(),
    ;
}

/// A one-character string slice holding the decimal digit `d`.
fn digit_str(d: u64) -> (r: &'static str)
    requires
        d < 10,
    ensures
        r@ == seq![digit_char(d as int)],
{
    let r: &'static str = if d == 0 {
        "0"
    } else if d == 1 {
        "1"
    } else if d == 2 {
        "2"
    } else if d == 3 {
        "3"
    } else if d == 4 {
        "4"
    } else if d == 5 {
        "5"
    } else if d == 6 {
        "6"
    } else if d == 7 {
        "7"
    } else if d == 8 {
        "8"
    } else {
        "9"
    };
    proof {
        reveal_strlit("0");
        reveal_strlit("1");
        reveal_strlit("2");
        reveal_strlit("3");
        reveal_strlit("4");
        reveal_strlit("5");
        reveal_strlit("6");
        reveal_strlit("7");
        reveal_strlit("8");
        reveal_strlit("9");
        assert(r@ =~= seq![digit_char(d as int)]);
    }
    r
}

/// The decimal digit string of `n`, as an owned string.
pub fn u64_decimal(n: u64) -> (r: String)
    ensures
        r@ == decimal_digits(n as nat),
    decreases n,
{
    if n < 10 {
        String::from_str(digit_str(n))
    } else {
        let mut s = u64_decimal(n / 10);
        s.append(digit_str(n % 10));
        proof {
            assert(s@ =~= decimal_digits((n / 10) as nat).push(digit_char((n % 10) as int)));
        }
        s
    }
}

impl Canonical for u64 {
    open spec fn canon(&self) -> Seq<char> {
        decimal_digits(*self as nat)
    }

    fn canonical_string(&self) -> (r: String) {
        u64_decimal(*self)
    }
}

impl Canonical for String {
    open spec fn canon(&self) -> Seq<char> {
        self@
    }

    fn canonical_string(&self) -> (r: String) {
        self.clone()
    }
}

} // verus!
