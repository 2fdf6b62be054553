//! Whole numbers in attributes and elements.
use vstd::prelude::*;
use crate::util::text::chars_of;
use crate::util::timestamp::digit;
use crate::util::timestamp::lemma_number_prefix;
use crate::util::timestamp::number;

verus! {

/// The number that `s` writes in decimal digits, where it is made of digits
/// only and the number fits in 64 bits.
pub open spec fn decimal(s: Seq<char>) -> Option<u64> {
    match number(s, 0, s.len()) {
        Some(n) => if s.len() > 0 && 0 <= n <= u64::MAX {
            Some(n as u64)
        } else {
            None
        },
        None => None,
    }
}

/// A number does not get smaller as digits are added to it.
pub proof fn lemma_number_grows(s: Seq<char>, from: int, shorter: nat, count: nat)
    requires
        shorter <= count,
        number(s, from, count) is Some,
    ensures
        number(s, from, shorter) is Some,
        0 <= number(s, from, shorter)->0 <= number(s, from, count)->0,
    decreases count,
{
    if number(s, from, shorter) is None {
        lemma_number_prefix(s, from, shorter, count);
    }
    if count > 0 {
        lemma_number_grows(s, from, 0, (count - 1) as nat);
        if shorter < count {
            lemma_number_grows(s, from, shorter, (count - 1) as nat);
        }
    }
}

/// Reads a number written in decimal digits.
pub fn parse_decimal(text: &str) -> (res: Option<u64>)
    ensures
        res == decimal(text@),
{
    let chars = chars_of(text);
    let s = &chars;
    if s.len() == 0 {
        return None;
    }
    let mut n: u64 = 0;
    let mut i: usize = 0;
    while i < s.len()
        invariant
            i <= s.len(),
            s@ == text@,
            number(s@, 0, i as nat) == Some(n as int),
        decreases s.len() - i,
    {
        let d = match digit(s[i]) {
            Some(d) => d,
            None => {
                proof {
                    lemma_number_prefix(s@, 0, (i + 1) as nat, s@.len());
                }
                return None;
            },
        };
        let next = match n.checked_mul(10) {
            Some(tens) => tens.checked_add(d as u64),
            None => None,
        };
        match next {
            Some(next) => {
                n = next;
            },
            None => {
                proof {
                    if number(s@, 0, s@.len()) is Some {
                        lemma_number_grows(s@, 0, (i + 1) as nat, s@.len());
                    }
                }
                return None;
            },
        }
        i = i + 1;
    }
    Some(n)
}

/// Reads a number written in decimal digits that fits in 32 bits.
pub fn parse_small_decimal(text: &str) -> (res: Option<u32>)
    ensures
        res == small_decimal(text@),
{
    match parse_decimal(text) {
        Some(n) => {
            if n <= 0xffff_ffff {
                Some(n as u32)
            } else {
                None
            }
        },
        None => None,
    }
}

/// The number that `s` writes in decimal digits, where it fits in 32 bits.
pub open spec fn small_decimal(s: Seq<char>) -> Option<u32> {
    match decimal(s) {
        Some(n) => if n <= 0xffff_ffff {
            Some(n as u32)
        } else {
            None
        },
        None => None,
    }
}

} // verus!
