//! Characters, tokens and decimal numbers: the small vocabulary in which the
//! poppler tools report facts and take arguments.

use vstd::prelude::*;
use vstd::slice::slice_subrange;
use vstd::std_specs::iter::IteratorSpec;

verus! {

/// The code points with the Unicode property `White_Space`.
pub open spec fn is_whitespace(c: char) -> bool {
    let u = c as u32;
    ||| 0x09 <= u <= 0x0D
    ||| u == 0x20
    ||| u == 0x85
    ||| u == 0xA0
    ||| u == 0x1680
    ||| 0x2000 <= u <= 0x200A
    ||| u == 0x2028
    ||| u == 0x2029
    ||| u == 0x202F
    ||| u == 0x205F
    ||| u == 0x3000
}

/// Tells whether `c` separates tokens.
pub fn whitespace(c: char) -> (b: bool)
    ensures
        b == is_whitespace(c),
{
    let u: u32 = c as u32;
    (0x09 <= u && u <= 0x0D) || u == 0x20 || u == 0x85 || u == 0xA0 || u == 0x1680 || (0x2000 <= u
        && u <= 0x200A) || u == 0x2028 || u == 0x2029 || u == 0x202F || u == 0x205F || u == 0x3000
}

/// `s` without the whitespace at its end.
pub open spec fn trim_end(s: Seq<char>) -> Seq<char>
    decreases s.len(),
{
    if s.len() > 0 && is_whitespace(s.last()) {
        trim_end(s.drop_last())
    } else {
        s
    }
}

/// The longest suffix of `s` that holds no whitespace.
pub open spec fn last_word(s: Seq<char>) -> Seq<char>
    decreases s.len(),
{
    if s.len() > 0 && !is_whitespace(s.last()) {
        last_word(s.drop_last()).push(s.last())
    } else {
        Seq::empty()
    }
}

/// The last of the whitespace-separated tokens of `s`; `None` where `s` holds
/// nothing but whitespace.
pub open spec fn last_token(s: Seq<char>) -> Option<Seq<char>> {
    let body = trim_end(s);
    if body.len() == 0 {
        None
    } else {
        Some(last_word(body))
    }
}

/// The characters of `s`, one element each.
pub fn chars_of(s: &str) -> (out: Vec<char>)
    ensures
        out@ == s@,
{
    let mut out: Vec<char> = Vec::new();
    for c in it: s.chars()
        invariant
            out@ == it.seq().take(it.index() as int),
            it.seq() == s@,
    {
        out.push(c);
    }
    out
}

/// Finds the last whitespace-separated token of `text`.
pub fn find_last_token(text: &[char]) -> (res: Option<&[char]>)
    ensures
        match res {
            Some(token) => last_token(text@) == Some(token@),
            None => last_token(text@) is None,
        },
{
    let mut end: usize = text.len();
    proof {
        assert(text@.take(end as int) =~= text@);
    }
    while end > 0 && whitespace(text[end - 1])
        invariant
            end <= text.len(),
            trim_end(text@) == trim_end(text@.take(end as int)),
        decreases end,
    {
        proof {
            assert(text@.take(end as int).drop_last() =~= text@.take(end - 1));
        }
        end -= 1;
    }
    if end == 0 {
        return None;
    }
    let ghost body = text@.take(end as int);
    let mut start: usize = end;
    proof {
        assert(body.take(start as int) =~= body);
        assert(body.subrange(start as int, end as int) =~= Seq::<char>::empty());
        assert(last_word(body) + Seq::<char>::empty() =~= last_word(body));
    }
    while start > 0 && !whitespace(text[start - 1])
        invariant
            start <= end <= text.len(),
            body == text@.take(end as int),
            last_word(body) == last_word(body.take(start as int)) + body.subrange(
                start as int,
                end as int,
            ),
        decreases start,
    {
        proof {
            let head = body.take(start as int);
            assert(head.drop_last() =~= body.take(start - 1));
            assert(last_word(head.drop_last()).push(head.last()) + body.subrange(
                start as int,
                end as int,
            ) =~= last_word(head.drop_last()) + body.subrange(start - 1, end as int));
        }
        start -= 1;
    }
    let token = slice_subrange(text, start, end);
    proof {
        assert(body.take(end as int) =~= body);
        assert(last_word(body.take(start as int)) =~= Seq::<char>::empty());
        assert(token@ =~= last_word(body));
    }
    Some(token)
}

/// Tells whether `c` is one of the ten decimal digits.
pub open spec fn is_digit(c: char) -> bool {
    '0' <= c <= '9'
}

/// The number that the digit `c` stands for.
pub open spec fn digit_value(c: char) -> nat {
    (c as u32 - '0' as u32) as nat
}

/// Tells whether `s` holds decimal digits only.
pub open spec fn all_digits(s: Seq<char>) -> bool {
    forall|i: int| 0 <= i < s.len() ==> is_digit(#[trigger] s[i])
}

/// The number that the digits of `s` write in base ten; leading zeros count
/// for nothing, and the empty sequence writes zero.
pub open spec fn decimal_value(s: Seq<char>) -> nat
    decreases s.len(),
{
    if s.len() == 0 {
        0
    } else {
        decimal_value(s.drop_last()) * 10 + digit_value(s.last())
    }
}

/// `s` without one leading plus sign.
pub open spec fn unsigned_part(s: Seq<char>) -> Seq<char> {
    if s.len() > 0 && s[0] == '+' {
        s.subrange(1, s.len() as int)
    } else {
        s
    }
}

/// What `s` means as a `u32`: an optional plus sign, then one or more
/// decimal digits whose value fits; anything else means nothing.
pub open spec fn parsed_u32(s: Seq<char>) -> Option<u32> {
    let digits = unsigned_part(s);
    if digits.len() > 0 && all_digits(digits) && decimal_value(digits) <= u32::MAX {
        Some(decimal_value(digits) as u32)
    } else {
        None
    }
}

/// A number in base ten is at least as large as any of its prefixes.
pub proof fn lemma_decimal_value_grows(s: Seq<char>, n: int)
    requires
        0 <= n <= s.len(),
    ensures
        decimal_value(s.take(n)) <= decimal_value(s),
    decreases s.len(),
{
    if n == s.len() {
        assert(s.take(n) =~= s);
    } else {
        assert(s.drop_last().take(n) =~= s.take(n));
        lemma_decimal_value_grows(s.drop_last(), n);
    }
}

/// Reads `token` as a `u32`.
pub fn parse_u32(token: &[char]) -> (res: Option<u32>)
    ensures
        res == parsed_u32(token@),
{
    let len: usize = token.len();
    let first: usize = if len > 0 && token[0] == '+' {
        1
    } else {
        0
    };
    if first == len {
        return None;
    }
    let ghost digits = unsigned_part(token@);
    let mut value: u32 = 0;
    let mut i: usize = first;
    proof {
        assert(digits.take(0) =~= Seq::<char>::empty());
    }
    while i < len
        invariant
            first <= i <= len,
            len == token@.len(),
            digits == unsigned_part(token@),
            digits =~= token@.subrange(first as int, len as int),
            all_digits(digits.take(i - first)),
            value == decimal_value(digits.take(i - first)),
        decreases len - i,
    {
        let c: char = token[i];
        let ghost seen = digits.take(i - first);
        let ghost next = digits.take(i - first + 1);
        proof {
            assert(next.drop_last() =~= seen);
            assert(next.last() == c);
            assert(decimal_value(next) == value * 10 + digit_value(c));
        }
        if !('0' <= c && c <= '9') {
            proof {
                assert(digits[i - first] == c);
            }
            return None;
        }
        let d: u32 = c as u32 - '0' as u32;
        if value > (u32::MAX - d) / 10 {
            proof {
                lemma_decimal_value_grows(digits, i - first + 1);
            }
            return None;
        }
        value = value * 10 + d;
        proof {
            assert forall|k: int| 0 <= k < next.len() implies is_digit(#[trigger] next[k]) by {
                if k < seen.len() {
                    assert(next[k] == seen[k]);
                }
            }
        }
        i += 1;
    }
    proof {
        assert(digits.take(len - first) =~= digits);
    }
    Some(value)
}

/// The character that writes the digit `d`.
pub open spec fn digit_char(d: nat) -> char {
    (48 + d) as u8 as char
}

/// `n` in base ten, without sign or leading zeros.
pub open spec fn decimal_digits(n: nat) -> Seq<char>
    decreases n,
{
    if n < 10 {
        seq![digit_char(n)]
    } else {
        decimal_digits(n / 10).push(digit_char(n % 10))
    }
}

/// What `decimal_digits` writes, `parsed_u32` reads back: the digits of a
/// number are digits, at least one of them, and their value is the number.
pub proof fn lemma_decimal_round_trip(n: nat)
    ensures
        decimal_digits(n).len() > 0,
        all_digits(decimal_digits(n)),
        decimal_value(decimal_digits(n)) == n,
        n <= u32::MAX ==> parsed_u32(decimal_digits(n)) == Some(n as u32),
    decreases n,
{
    let digits = decimal_digits(n);
    if n < 10 {
        assert(digits.drop_last() =~= Seq::<char>::empty());
        assert(decimal_value(digits.drop_last()) == 0);
    } else {
        lemma_decimal_round_trip(n / 10);
        assert(digits.drop_last() =~= decimal_digits(n / 10));
        assert forall|i: int| 0 <= i < digits.len() implies is_digit(#[trigger] digits[i]) by {
            if i < digits.len() - 1 {
                assert(digits[i] == decimal_digits(n / 10)[i]);
            }
        }
    }
    assert(digits[0] != '+');
}

/// The digits that are still to be written in front of the ones that
/// `decimal` has written, while `n` is what is left of the number.
spec fn leading_digits(n: nat) -> Seq<char> {
    if n == 0 {
        Seq::empty()
    } else {
        decimal_digits(n)
    }
}

fn digit_str(d: u32) -> (s: &'static str)
    requires
        d < 10,
    ensures
        s@ == seq![digit_char(d as nat)],
{
    proof {
        reveal_strlit("0");
        reveal_strlit("1");
        reveal_strlit("2");
        reveal_strlit("3");
        reveal_strlit("4");
        reveal_strlit("5");
        reveal_strlit("6");
        reveal_strlit("7");
        reveal_strlit("8");
        reveal_strlit("9");
    }
    let s = if d == 0 {
        "0"
    } else if d == 1 {
        "1"
    } else if d == 2 {
        "2"
    } else if d == 3 {
        "3"
    } else if d == 4 {
        "4"
    } else if d == 5 {
        "5"
    } else if d == 6 {
        "6"
    } else if d == 7 {
        "7"
    } else if d == 8 {
        "8"
    } else {
        "9"
    };
    assert(s@ =~= seq![digit_char(d as nat)]);
    s
}

/// Writes `n` in base ten.
pub fn decimal(n: u32) -> (s: String)
    ensures
        s@ == decimal_digits(n as nat),
{
    let mut out: String = String::from_str(digit_str(n % 10));
    let mut rest: u32 = n / 10;
    proof {
        assert(leading_digits(rest as nat) + out@ =~= decimal_digits(n as nat));
    }
    while rest > 0
        invariant
            decimal_digits(n as nat) == leading_digits(rest as nat) + out@,
        decreases rest,
    {
        let digit = String::from_str(digit_str(rest % 10));
        proof {
            assert(leading_digits(rest as nat / 10) + digit@ =~= leading_digits(rest as nat));
            assert(leading_digits(rest as nat / 10) + (digit@ + out@) =~= leading_digits(
                rest as nat,
            ) + out@);
        }
        out = digit.concat(out.as_str());
        rest = rest / 10;
    }
    proof {
        assert(leading_digits(0) + out@ =~= out@);
    }
    out
}

/// The texts of a list of strings.
pub open spec fn texts(strings: Seq<String>) -> Seq<Seq<char>> {
    Seq::new(strings.len(), |i: int| strings[i]@)
}

/// Appends a copy of `text` to `args`.
pub fn push_text(args: &mut Vec<String>, text: &str)
    ensures
        texts(final(args)@) == texts(old(args)@).push(text@),
{
    args.push(String::from_str(text));
    assert(texts(args@) =~= texts(old(args)@).push(text@));
}

/// Appends `number`, written in base ten, to `args`.
pub fn push_number(args: &mut Vec<String>, number: u32)
    ensures
        texts(final(args)@) == texts(old(args)@).push(decimal_digits(number as nat)),
{
    args.push(decimal(number));
    assert(texts(args@) =~= texts(old(args)@).push(decimal_digits(number as nat)));
}

/// Joins `parts` into one text, in their order.
pub fn join(parts: &Vec<String>) -> (text: String)
    ensures
        text@ == texts(parts@).flatten(),
{
    let mut text = String::new();
    let mut i: usize = 0;
    proof {
        assert(texts(parts@.take(0)) =~= Seq::<Seq<char>>::empty());
    }
    while i < parts.len()
        invariant
            i <= parts@.len(),
            text@ == texts(parts@.take(i as int)).flatten(),
        decreases parts@.len() - i,
    {
        proof {
            let seen = texts(parts@.take(i as int));
            assert(texts(parts@.take(i + 1)) =~= seen.push(parts@[i as int]@));
            seen.lemma_flatten_push(parts@[i as int]@);
        }
        text.append(parts[i].as_str());
        i += 1;
    }
    proof {
        assert(parts@.take(i as int) =~= parts@);
    }
    text
}

} // verus!
