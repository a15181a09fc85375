//! Small operations on text that the rest of the library is stated over.

use vstd::prelude::*;
use vstd::string::*;

verus! {

/// How many characters of `path` come before its first `/` (all of them where it has none).
pub open spec fn segment_len(path: Seq<char>) -> nat
    decreases path.len(),
{
    if path.len() == 0 || path[0] == '/' {
        0
    } else {
        1 + segment_len(path.drop_first())
    }
}

/// The part of `path` before its first `/`.
pub open spec fn first_segment(path: Seq<char>) -> Seq<char> {
    path.take(segment_len(path) as int)
}

/// `segment_len` is the one position that no `/` precedes and at which `path` ends or
/// holds a `/`.
pub proof fn lemma_segment_len(path: Seq<char>, n: int)
    requires
        0 <= n <= path.len(),
        forall|j: int| 0 <= j < n ==> path[j] != '/',
        n == path.len() || path[n] == '/',
    ensures
        segment_len(path) == n,
    decreases path.len(),
{
    if n > 0 {
        let rest = path.drop_first();
        assert forall|j: int| 0 <= j < n - 1 implies rest[j] != '/' by {
            assert(rest[j] == path[j + 1]);
        }
        lemma_segment_len(rest, n - 1);
    }
}

/// Whether two texts hold the same characters.
pub fn same_text(a: &str, b: &str) -> (r: bool)
    ensures
        r == (a@ == b@),
{
    String::from_str(a) == String::from_str(b)
}

/// The part of `path` before its first `/`, as a new string.
pub fn first_segment_of(path: &str) -> (r: String)
    ensures
        r@ == first_segment(path@),
{
    broadcast use axiom_spec_iter;

    let total = path.unicode_len();
    let mut n: usize = 0;
    let mut open = true;
    for c in it: path.chars()
        invariant
            it.seq() == path@,
            total == path@.len(),
            n <= it.index(),
            forall|j: int| 0 <= j < n ==> path@[j] != '/',
            open ==> n == it.index(),
            !open ==> n < path@.len() && path@[n as int] == '/',
    {
        if open {
            if c == '/' {
                open = false;
            } else {
                n = n + 1;
            }
        }
    }
    proof {
        lemma_segment_len(path@, n as int);
    }
    String::from_str(path.substring_char(0, n))
}

/// The character that writes the digit `d`.
pub open spec fn digit(d: int) -> char {
    if d == 0 {
        '0'
    } else if d == 1 {
        '1'
    } else if d == 2 {
        '2'
    } else if d == 3 {
        '3'
    } else if d == 4 {
        '4'
    } else if d == 5 {
        '5'
    } else if d == 6 {
        '6'
    } else if d == 7 {
        '7'
    } else if d == 8 {
        '8'
    } else {
        '9'
    }
}

/// The digits of `n` in base ten, the highest first, without leading zeros.
pub open spec fn digits(n: nat) -> Seq<char>
    decreases n,
{
    if n < 10 {
        seq![digit(n as int)]
    } else {
        digits(n / 10).push(digit((n % 10) as int))
    }
}

/// The number `i` written in base ten, with a minus sign before it where it is negative.
pub open spec fn decimal(i: int) -> Seq<char> {
    if i < 0 {
        seq!['-'] + digits((-i) as nat)
    } else {
        digits(i as nat)
    }
}

/// The text of one digit.
fn digit_text(d: u64) -> (r: &'static str)
    requires
        d < 10,
    ensures
        r@ == seq![digit(d as int)],
{
    proof {
        reveal_strlit("0");
        reveal_strlit("1");
        reveal_strlit("2");
        reveal_strlit("3");
        reveal_strlit("4");
        reveal_strlit("5");
        reveal_strlit("6");
        reveal_strlit("7");
        reveal_strlit("8");
        reveal_strlit("9");
    }
    let r = if d == 0 {
        "0"
    } else if d == 1 {
        "1"
    } else if d == 2 {
        "2"
    } else if d == 3 {
        "3"
    } else if d == 4 {
        "4"
    } else if d == 5 {
        "5"
    } else if d == 6 {
        "6"
    } else if d == 7 {
        "7"
    } else if d == 8 {
        "8"
    } else {
        "9"
    };
    assert(r@ =~= seq![digit(d as int)]);
    r
}

/// Writes `i` in base ten.
pub fn decimal_of(i: i64) -> (r: String)
    ensures
        r@ == decimal(i as int),
{
    let whole: u64 = if i < 0 {
        (-(i as i128)) as u64
    } else {
        i as u64
    };
    let mut left: u64 = whole / 10;
    let mut out = String::from_str(digit_text(whole % 10));
    while left > 0
        invariant
            digits(whole as nat) == (if left > 0 {
                digits(left as nat)
            } else {
                Seq::<char>::empty()
            }) + out@,
        decreases left,
    {
        let mut longer = String::from_str(digit_text(left % 10));
        longer.append(out.as_str());
        proof {
            let after = (left / 10) as nat;
            let head = if after > 0 {
                digits(after)
            } else {
                Seq::<char>::empty()
            };
            assert(digits(left as nat) =~= head + seq![digit((left % 10) as int)]);
            assert(head + seq![digit((left % 10) as int)] + out@ =~= head + longer@);
        }
        out = longer;
        left = left / 10;
    }
    assert(Seq::<char>::empty() + out@ =~= out@);
    if i < 0 {
        let mut signed = String::from_str("-");
        signed.append(out.as_str());
        proof {
            reveal_strlit("-");
            assert(signed@ =~= seq!['-'] + out@);
        }
        signed
    } else {
        out
    }
}

} // verus!
