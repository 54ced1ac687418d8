//! Building the dotted, indexed paths that validation errors report:
//! `address.city` for a nested field, `tags[1]` for an array element.

use vstd::prelude::*;

verus! {

/// The character for one decimal digit.
pub open spec fn spec_digit(d: nat) -> char {
    if d == 0 {
        '0'
    } else if d == 1 {
        '1'
    } else if d == 2 {
        '2'
    } else if d == 3 {
        '3'
    } else if d == 4 {
        '4'
    } else if d == 5 {
        '5'
    } else if d == 6 {
        '6'
    } else if d == 7 {
        '7'
    } else if d == 8 {
        '8'
    } else {
        '9'
    }
}

/// The decimal rendering of `n`, most significant digit first.
pub open spec fn spec_digits(n: nat) -> Seq<char>
    decreases n,
{
    if n < 10 {
        seq![spec_digit(n)]
    } else {
        spec_digits(n / 10) + seq![spec_digit(n % 10)]
    }
}

/// The path of a field named `key` under a parent path `prefix`; the two are
/// dot-joined, and an empty prefix disappears.
pub open spec fn spec_child_path(prefix: Seq<char>, key: Seq<char>) -> Seq<char> {
    if prefix.len() == 0 {
        key
    } else {
        prefix + seq!['.'] + key
    }
}

/// The path of the element at `i` of the array at `path`: the index in
/// brackets.
pub open spec fn spec_elem_path(path: Seq<char>, i: int) -> Seq<char> {
    path + seq!['['] + spec_digits(i as nat) + seq![']']
}

/// A one-character string for each decimal digit.
fn digit_str(d: usize) -> (r: &'static str)
    requires
        d < 10,
    ensures
        r@ == seq![spec_digit(d as nat)],
{
    proof {
        reveal_strlit("0");
        reveal_strlit("1");
        reveal_strlit("2");
        reveal_strlit("3");
        reveal_strlit("4");
        reveal_strlit("5");
        reveal_strlit("6");
        reveal_strlit("7");
        reveal_strlit("8");
        reveal_strlit("9");
    }
    match d {
        0 => "0",
        1 => "1",
        2 => "2",
        3 => "3",
        4 => "4",
        5 => "5",
        6 => "6",
        7 => "7",
        8 => "8",
        _ => "9",
    }
}

/// Renders `n` in decimal.
pub fn usize_to_string(n: usize) -> (s: String)
    ensures
        s@ == spec_digits(n as nat),
    decreases n,
{
    if n < 10 {
        digit_str(n).to_owned()
    } else {
        let mut s = usize_to_string(n / 10);
        s.append(digit_str(n % 10));
        s
    }
}

/// Joins a parent path and a field key, exactly as `spec_child_path` says.
pub fn child_path(prefix: &str, key: &String) -> (r: String)
    ensures
        r@ == spec_child_path(prefix@, key@),
{
    if prefix.is_empty() {
        key.clone()
    } else {
        proof {
            reveal_strlit(".");
        }
        let mut s = prefix.to_owned();
        s.append(".");
        s.append(key.as_str());
        s
    }
}

/// Appends a bracketed element index to a path, as `spec_elem_path` says.
pub fn elem_path(path: &str, i: usize) -> (r: String)
    ensures
        r@ == spec_elem_path(path@, i as int),
{
    proof {
        reveal_strlit("[");
        reveal_strlit("]");
    }
    let mut s = path.to_owned();
    s.append("[");
    let digits = usize_to_string(i);
    s.append(digits.as_str());
    s.append("]");
    s
}

} // verus!
