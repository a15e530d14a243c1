//! Field paths: dotted keys and bracketed array indices.

use vstd::prelude::*;
use vstd::string::*;

verus! {

/// The character of a decimal digit.
pub open spec fn digit(d: nat) -> char {
    if d == 0 {
        '0'
    } else if d == 1 {
        '1'
    } else if d == 2 {
        '2'
    } else if d == 3 {
        '3'
    } else if d == 4 {
        '4'
    } else if d == 5 {
        '5'
    } else if d == 6 {
        '6'
    } else if d == 7 {
        '7'
    } else if d == 8 {
        '8'
    } else {
        '9'
    }
}

/// A number in decimal notation, without leading zeros.
pub open spec fn decimal_text(n: nat) -> Seq<char>
    decreases n,
{
    if n < 10 {
        seq![digit(n)]
    } else {
        decimal_text(n / 10).push(digit(n % 10))
    }
}

fn digit_str(d: usize) -> (s: &'static str)
    requires
        d < 10,
    ensures
        s@ == seq![digit(d as nat)],
{
    proof {
        reveal_strlit("0");
        reveal_strlit("1");
        reveal_strlit("2");
        reveal_strlit("3");
        reveal_strlit("4");
        reveal_strlit("5");
        reveal_strlit("6");
        reveal_strlit("7");
        reveal_strlit("8");
        reveal_strlit("9");
    }
    let s = if d == 0 {
        "0"
    } else if d == 1 {
        "1"
    } else if d == 2 {
        "2"
    } else if d == 3 {
        "3"
    } else if d == 4 {
        "4"
    } else if d == 5 {
        "5"
    } else if d == 6 {
        "6"
    } else if d == 7 {
        "7"
    } else if d == 8 {
        "8"
    } else {
        "9"
    };
    s
}

/// Writes `n` in decimal notation.
pub fn decimal(n: usize) -> (text: String)
    ensures
        text@ == decimal_text(n as nat),
    decreases n,
{
    let last = digit_str(n % 10);
    if n < 10 {
        last.to_owned()
    } else {
        let mut text = decimal(n / 10);
        text.append(last);
        text
    }
}

/// The path of the field `key` below `parent`; below the root, which has the
/// empty path, it is the key alone.
pub open spec fn child_path(parent: Seq<char>, key: Seq<char>) -> Seq<char> {
    if parent.len() == 0 {
        key
    } else {
        parent + seq!['.'] + key
    }
}

/// Builds the path of the field `key` below `parent`.
pub fn child_key(parent: &str, key: &str) -> (path: String)
    ensures
        path@ == child_path(parent@, key@),
{
    if parent.is_empty() {
        key.to_owned()
    } else {
        proof {
            reveal_strlit(".");
        }
        let mut path = parent.to_owned();
        path.append(".");
        path.append(key);
        path
    }
}

/// The path of the element at `index` of the array at `parent`.
pub open spec fn index_path(parent: Seq<char>, index: nat) -> Seq<char> {
    parent + seq!['['] + decimal_text(index) + seq![']']
}

/// Builds the path of the element at `index` of the array at `parent`.
pub fn index_key(parent: &str, index: usize) -> (path: String)
    ensures
        path@ == index_path(parent@, index as nat),
{
    proof {
        reveal_strlit("[");
        reveal_strlit("]");
    }
    let number = decimal(index);
    let mut path = parent.to_owned();
    path.append("[");
    path.append(number.as_str());
    path.append("]");
    path
}

} // verus!
