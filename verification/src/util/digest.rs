//! Identifiers for feeds and entries that bring none.
use vstd::prelude::*;

verus! {

/// The value that a digest starts from.
pub const DIGEST_START: u64 = 0xcbf29ce484222325;

/// The factor by which a digest is multiplied after each character.
pub const DIGEST_FACTOR: u64 = 0x100000001b3;

/// One step of the digest: the character is mixed in, then the whole is
/// multiplied, modulo 2 to the 64.
pub open spec fn mix(hash: u64, c: char) -> u64 {
    (hash ^ (c as u64)).wrapping_mul(DIGEST_FACTOR)
}

/// The digest of `s`, continued from `hash`.
pub open spec fn digest(hash: u64, s: Seq<char>) -> u64
    decreases s.len(),
{
    if s.len() == 0 {
        hash
    } else {
        mix(digest(hash, s.drop_last()), s.last())
    }
}

/// The hexadecimal digit for a value below 16.
pub open spec fn hex_char(n: int) -> char {
    if n == 0 {
        '0'
    } else if n == 1 {
        '1'
    } else if n == 2 {
        '2'
    } else if n == 3 {
        '3'
    } else if n == 4 {
        '4'
    } else if n == 5 {
        '5'
    } else if n == 6 {
        '6'
    } else if n == 7 {
        '7'
    } else if n == 8 {
        '8'
    } else if n == 9 {
        '9'
    } else if n == 10 {
        'a'
    } else if n == 11 {
        'b'
    } else if n == 12 {
        'c'
    } else if n == 13 {
        'd'
    } else if n == 14 {
        'e'
    } else {
        'f'
    }
}

/// The last `digits` hexadecimal digits of `n`.
pub open spec fn hex(n: u64, digits: nat) -> Seq<char>
    decreases digits,
{
    if digits == 0 {
        Seq::empty()
    } else {
        hex(n / 16, (digits - 1) as nat).push(hex_char(n as int % 16))
    }
}

/// The identifier made up for a feed or an entry that brings none: its link
/// where it has one, else sixteen hexadecimal digits, the digest of its title
/// and its description.
pub open spec fn synthetic_id(
    link: Option<Seq<char>>,
    title: Seq<char>,
    description: Seq<char>,
) -> Seq<char> {
    match link {
        Some(link) => link,
        None => hex(digest(digest(DIGEST_START, title), description), 16),
    }
}

/// A number written in `digits` digits has that many characters.
pub proof fn lemma_hex_len(n: u64, digits: nat)
    ensures
        hex(n, digits).len() == digits,
    decreases digits,
{
    if digits > 0 {
        lemma_hex_len(n / 16, (digits - 1) as nat);
    }
}

fn digest_of(hash: u64, text: &str) -> (res: u64)
    ensures
        res == digest(hash, text@),
{
    let mut h: u64 = hash;
    for c in it: text.chars()
        invariant
            it.seq() == text@,
            h == digest(hash, it.seq().take(it.index() as int)),
    {
        assert(it.seq().take(it.index() + 1).drop_last() =~= it.seq().take(it.index() as int));
        h = (h ^ (c as u64)).wrapping_mul(DIGEST_FACTOR);
    }
    assert(text@.take(text@.len() as int) =~= text@);
    h
}

fn hex_digit(n: u64) -> (digit: &'static str)
    requires
        n < 16,
    ensures
        digit@ == seq![hex_char(n as int)],
{
    let digit = if n == 0 {
        "0"
    } else if n == 1 {
        "1"
    } else if n == 2 {
        "2"
    } else if n == 3 {
        "3"
    } else if n == 4 {
        "4"
    } else if n == 5 {
        "5"
    } else if n == 6 {
        "6"
    } else if n == 7 {
        "7"
    } else if n == 8 {
        "8"
    } else if n == 9 {
        "9"
    } else if n == 10 {
        "a"
    } else if n == 11 {
        "b"
    } else if n == 12 {
        "c"
    } else if n == 13 {
        "d"
    } else if n == 14 {
        "e"
    } else {
        "f"
    };
    proof {
        reveal_strlit("0");
        reveal_strlit("1");
        reveal_strlit("2");
        reveal_strlit("3");
        reveal_strlit("4");
        reveal_strlit("5");
        reveal_strlit("6");
        reveal_strlit("7");
        reveal_strlit("8");
        reveal_strlit("9");
        reveal_strlit("a");
        reveal_strlit("b");
        reveal_strlit("c");
        reveal_strlit("d");
        reveal_strlit("e");
        reveal_strlit("f");
        assert(digit@ =~= seq![hex_char(n as int)]);
    }
    digit
}

fn write_hex(out: &mut String, n: u64, digits: u32)
    ensures
        final(out)@ == old(out)@ + hex(n, digits as nat),
    decreases digits,
{
    if digits > 0 {
        write_hex(out, n / 16, digits - 1);
        out.append(hex_digit(n % 16));
        assert(out@ =~= old(out)@ + hex(n, digits as nat));
    } else {
        assert(out@ =~= old(out)@ + hex(n, digits as nat));
    }
}

/// Makes up the identifier of a feed or an entry that brings none.
pub fn synthesize_id(link: Option<&String>, title: &str, description: &str) -> (id: String)
    ensures
        id@ == synthetic_id(
            match link {
                Some(link) => Some(link@),
                None => None,
            },
            title@,
            description@,
        ),
        link is None ==> id@.len() == 16,
{
    match link {
        Some(link) => link.clone(),
        None => {
            let hash = digest_of(digest_of(DIGEST_START, title), description);
            let mut id = String::new();
            write_hex(&mut id, hash, 16);
            proof {
                lemma_hex_len(hash, 16);
            }
            assert(id@ =~= hex(hash, 16));
            id
        },
    }
}

} // verus!
