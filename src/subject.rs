//! A user id written as the subject of a token, and read back.
use vstd::prelude::*;
use crate::claims::{
    chars_of, decimal, digit_run, digits_value, lemma_decimal_digits, lemma_digit_run,
    push_decimal, read_digits, string_of,
};

verus! {

/// The decimal text of an id, with a leading `-` when it is negative.
pub open spec fn subject_text(id: int) -> Seq<char> {
    if id < 0 {
        seq!['-'] + decimal((-id) as nat)
    } else {
        decimal(id as nat)
    }
}

/// Reads an optional `-` followed by decimal digits and nothing else, whose
/// value fits in an `i32`.
pub open spec fn parse_subject_text(t: Seq<char>) -> Option<i32> {
    let neg = t.len() > 0 && t[0] == '-';
    let s: int = if neg { 1 } else { 0 };
    let n = t.len() as int;
    let v: int = digits_value(t.subrange(s, n)) as int;
    let signed: int = if neg { -v } else { v };
    if digit_run(t.subrange(s, n)) == 0 || s + digit_run(t.subrange(s, n)) != n {
        None
    } else if i32::MIN <= signed && signed <= i32::MAX {
        Some(signed as i32)
    } else {
        None
    }
}

/// Writes a user id as a token subject.
pub fn subject_of(id: i32) -> (r: String)
    ensures
        r@ == subject_text(id as int),
{
    let mut out: Vec<char> = Vec::new();
    if id < 0 {
        out.push('-');
        push_decimal(&mut out, (-(id as i64)) as u64);
    } else {
        push_decimal(&mut out, id as u64);
    }
    assert(out@ =~= subject_text(id as int));
    string_of(&out)
}

/// Reads a user id back from a token subject; `None` when the text is not
/// the decimal form of an `i32`.
pub fn parse_subject(text: &str) -> (r: Option<i32>)
    ensures
        r == parse_subject_text(text@),
{
    let t = chars_of(text);
    let n = t.len();
    let neg = n > 0 && t[0] == '-';
    let s: usize = if neg { 1 } else { 0 };
    match read_digits(&t, s) {
        None => None,
        Some((v, j)) => {
            if j == s || j != n {
                None
            } else if neg {
                if v <= 2147483648 {
                    Some((-(v as i64)) as i32)
                } else {
                    None
                }
            } else if v <= 2147483647 {
                Some(v as i32)
            } else {
                None
            }
        },
    }
}

/// Reading back the subject written for an id gives that id.
pub proof fn lemma_subject_round_trip(id: i32)
    ensures
        parse_subject_text(subject_text(id as int)) == Some(id),
{
    let t = subject_text(id as int);
    let m: nat = if id < 0 { (-id) as nat } else { id as nat };
    let d = decimal(m);
    lemma_decimal_digits(m);
    lemma_digit_run(d, Seq::<char>::empty());
    assert(d + Seq::<char>::empty() =~= d);
    if id < 0 {
        assert(t.subrange(1, t.len() as int) =~= d);
    } else {
        assert(t.subrange(0, t.len() as int) =~= d);
        assert(d[0] != '-');
    }
}

} // verus!
