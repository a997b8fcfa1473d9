//! Character sequences: prefixes, joining words, decimal numbers.

use vstd::prelude::*;
use vstd::std_specs::iter::IteratorSpec;

verus! {

/// Whether `text` begins with `prefix`.
pub open spec fn has_prefix(text: Seq<char>, prefix: Seq<char>) -> bool {
    prefix.len() <= text.len() && text.subrange(0, prefix.len() as int) == prefix
}

/// Tests whether `text` begins with `prefix`.
pub fn starts_with(text: &str, prefix: &str) -> (found: bool)
    ensures
        found == has_prefix(text@, prefix@),
{
    let mut rest = text.chars();
    let mut wanted = prefix.chars();
    let ghost mut seen: int = 0;
    loop
        invariant
            0 <= seen <= prefix@.len(),
            seen <= text@.len(),
            rest.remaining() == text@.subrange(seen, text@.len() as int),
            wanted.remaining() == prefix@.subrange(seen, prefix@.len() as int),
            text@.subrange(0, seen) == prefix@.subrange(0, seen),
        decreases prefix@.len() - seen,
    {
        match wanted.next() {
            None => {
                assert(prefix@.subrange(0, seen) == prefix@);
                return true;
            },
            Some(p) => {
                match rest.next() {
                    None => {
                        return false;
                    },
                    Some(t) => {
                        if t != p {
                            return false;
                        }
                        proof {
                            seen = seen + 1;
                        }
                    },
                }
            },
        }
    }
}

/// Tests whether two texts are the same.
pub fn same_text(a: &str, b: &str) -> (same: bool)
    ensures
        same == (a@ == b@),
{
    let same = starts_with(a, b) && starts_with(b, a);
    proof {
        assert(a@.subrange(0, a@.len() as int) == a@);
    }
    same
}

/// The text after the first `count` characters of `text`.
pub(crate) fn skip_chars(text: &str, count: usize) -> (rest: &str)
    requires
        count <= text@.len(),
    ensures
        rest@ == text@.skip(count as int),
{
    let total = text.unicode_len();
    text.substring_char(count, total)
}

/// The first `count + 1` items are the first `count` items and then the item
/// at `count`.
pub proof fn lemma_take_one_more<A>(items: Seq<A>, count: int)
    requires
        0 <= count < items.len(),
    ensures
        items.take(count + 1).drop_last() == items.take(count),
        items.take(count + 1).last() == items[count],
{
}

/// The words joined into one text, with a single space between neighbours.
pub open spec fn joined(words: Seq<Seq<char>>) -> Seq<char>
    decreases words.len(),
{
    if words.len() == 0 {
        Seq::empty()
    } else if words.len() == 1 {
        words[0]
    } else {
        joined(words.drop_last()) + seq![' '] + words.last()
    }
}

/// Joins the words with single spaces.
pub fn join_words(words: &[String]) -> (text: String)
    ensures
        text@ == joined(words.deep_view()),
{
    let mut text = String::new();
    let mut i: usize = 0;
    while i < words.len()
        invariant
            0 <= i <= words.len(),
            text@ == joined(words.deep_view().take(i as int)),
        decreases words.len() - i,
    {
        proof {
            reveal_strlit(" ");
            lemma_take_one_more(words.deep_view(), i as int);
        }
        if i > 0 {
            text.append(" ");
        }
        text.append(words[i].as_str());
        i = i + 1;
    }
    assert(words.deep_view().take(i as int) == words.deep_view());
    text
}

/// The decimal digit for `d`, which is below ten.
pub open spec fn digit(d: nat) -> char {
    ('0' as nat + d) as char
}

/// `n` written in decimal, without leading zeros.
pub open spec fn decimal(n: nat) -> Seq<char>
    decreases n,
{
    if n < 10 {
        seq![digit(n)]
    } else {
        decimal(n / 10).push(digit(n % 10))
    }
}

/// The digit for `d` as a text of one character.
fn digit_text(d: usize) -> (text: &'static str)
    requires
        d < 10,
    ensures
        text@ == seq![digit(d as nat)],
{
    proof {
        reveal_strlit("0");
        reveal_strlit("1");
        reveal_strlit("2");
        reveal_strlit("3");
        reveal_strlit("4");
        reveal_strlit("5");
        reveal_strlit("6");
        reveal_strlit("7");
        reveal_strlit("8");
        reveal_strlit("9");
    }
    match d {
        0 => "0",
        1 => "1",
        2 => "2",
        3 => "3",
        4 => "4",
        5 => "5",
        6 => "6",
        7 => "7",
        8 => "8",
        _ => "9",
    }
}

/// Writes `n` in decimal.
pub fn decimal_text(n: usize) -> (text: String)
    ensures
        text@ == decimal(n as nat),
    decreases n,
{
    if n < 10 {
        String::from_str(digit_text(n))
    } else {
        let mut text = decimal_text(n / 10);
        text.append(digit_text(n % 10));
        text
    }
}

/// Whether `c` is one of the ten decimal digits.
pub open spec fn is_digit(c: char) -> bool {
    '0' <= c <= '9'
}

/// The number that the digit `c` stands for.
pub open spec fn digit_value(c: char) -> nat {
    (c as nat - '0' as nat) as nat
}

/// Whether every character of `text` is a decimal digit.
pub open spec fn all_digits(text: Seq<char>) -> bool {
    forall|i: int| 0 <= i < text.len() ==> is_digit(#[trigger] text[i])
}

/// The number that a run of decimal digits stands for; leading zeros count for
/// nothing.
pub open spec fn number_of(digits: Seq<char>) -> nat
    decreases digits.len(),
{
    if digits.len() == 0 {
        0
    } else {
        number_of(digits.drop_last()) * 10 + digit_value(digits.last())
    }
}

/// `text` without a leading plus sign.
pub open spec fn unsigned_part(text: Seq<char>) -> Seq<char> {
    if text.len() > 0 && text[0] == '+' {
        text.drop_first()
    } else {
        text
    }
}

/// The number that `text` denotes: an optional plus sign, then one or more
/// decimal digits and nothing else. Any other text denotes no number.
pub open spec fn parsed_number(text: Seq<char>) -> Option<nat> {
    let digits = unsigned_part(text);
    if digits.len() > 0 && all_digits(digits) {
        Some(number_of(digits))
    } else {
        None
    }
}

/// A number written in decimal is read back as that number.
pub proof fn lemma_decimal_is_parsed(n: nat)
    ensures
        decimal(n).len() > 0,
        all_digits(decimal(n)),
        number_of(decimal(n)) == n,
        parsed_number(decimal(n)) == Some(n),
    decreases n,
{
    let text = decimal(n);
    if n < 10 {
        assert(text.drop_last() == Seq::<char>::empty());
        assert(number_of(Seq::<char>::empty()) == 0);
    } else {
        lemma_decimal_is_parsed(n / 10);
        assert(text.drop_last() == decimal(n / 10));
    }
}

/// The number that fits a machine word, or none.
pub open spec fn word_sized(number: Option<nat>) -> Option<usize> {
    match number {
        Some(n) if n <= usize::MAX => Some(n as usize),
        _ => None,
    }
}

/// Reads `token` once: whether it denotes a number at all, and that number
/// where a machine word holds it.
fn scan_number(token: &str) -> (scanned: (bool, Option<usize>))
    ensures
        scanned.0 == (parsed_number(token@) is Some),
        scanned.1 == word_sized(parsed_number(token@)),
{
    let mut rest = token.chars();
    let mut value: Option<usize> = Some(0);
    let mut found = false;
    let mut at_start = true;
    let ghost mut seen: int = 0;
    let ghost mut count: int = 0;
    let ghost digits = unsigned_part(token@);
    loop
        invariant
            0 <= seen <= token@.len(),
            rest.remaining() == token@.subrange(seen, token@.len() as int),
            digits == unsigned_part(token@),
            at_start <==> seen == 0,
            found <==> count > 0,
            0 <= count <= digits.len(),
            seen - count == if seen > 0 && token@[0] == '+' { 1int } else { 0int },
            all_digits(digits.take(count)),
            value == word_sized(Some(number_of(digits.take(count)))),
        decreases token@.len() - seen,
    {
        match rest.next() {
            None => {
                assert(digits.take(count) == digits);
                return (found, if found { value } else { None });
            },
            Some(c) => {
                let sign = at_start && c == '+';
                at_start = false;
                if !sign {
                    if !('0' <= c && c <= '9') {
                        assert(!is_digit(digits[count]));
                        return (false, None);
                    }
                    let d: usize = (c as u32 - '0' as u32) as usize;
                    proof {
                        lemma_take_one_more(digits, count);
                        count = count + 1;
                    }
                    value = match value {
                        Some(v) => match v.checked_mul(10) {
                            Some(scaled) => scaled.checked_add(d),
                            None => None,
                        },
                        None => None,
                    };
                    found = true;
                }
                proof {
                    seen = seen + 1;
                }
            },
        }
    }
}

/// Reads `token` as a number that fits a machine word: the number it denotes,
/// where it denotes one and that one fits.
pub fn parse_index(token: &str) -> (index: Option<usize>)
    ensures
        index == word_sized(parsed_number(token@)),
{
    scan_number(token).1
}

/// Tells whether `token` denotes a number at all, however large: an optional
/// plus sign, then one or more decimal digits and nothing else.
pub fn is_number(token: &str) -> (found: bool)
    ensures
        found == (parsed_number(token@) is Some),
{
    scan_number(token).0
}

} // verus!
