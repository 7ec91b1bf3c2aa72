//! Reading numbers, lines and words out of text, and ordering texts.

use vstd::arithmetic::power::*;
use vstd::prelude::*;
use vstd::string::*;

use crate::text::chars_of;
use crate::text::decimal;
use crate::text::string_of;

verus! {

/// The value of `c` as a digit of the given radix (2 to 16).
pub open spec fn digit_value(c: char, radix: nat) -> Option<nat> {
    let v = if '0' <= c <= '9' {
        c as nat - '0' as nat
    } else if 'a' <= c <= 'f' {
        c as nat - 'a' as nat + 10
    } else if 'A' <= c <= 'F' {
        c as nat - 'A' as nat + 10
    } else {
        16
    };
    if 0 <= v < radix {
        Some(v as nat)
    } else {
        None
    }
}

/// The value of a sequence of digits, the most significant first.
pub open spec fn numeral(digits: Seq<char>, radix: nat) -> Option<nat>
    decreases digits.len(),
{
    if digits.len() == 0 {
        Some(0)
    } else {
        match (numeral(digits.drop_last(), radix), digit_value(digits.last(), radix)) {
            (Some(high), Some(low)) => Some(high * radix + low),
            _ => None,
        }
    }
}

/// `s` without one leading plus sign.
pub open spec fn unsigned_part(s: Seq<char>) -> Seq<char> {
    if s.len() > 0 && s[0] == '+' {
        s.drop_first()
    } else {
        s
    }
}

/// The number that `s` writes: at least one digit, one leading plus sign allowed, at most `max`.
pub open spec fn number(s: Seq<char>, radix: nat, max: nat) -> Option<nat> {
    let digits = unsigned_part(s);
    if digits.len() == 0 {
        None
    } else {
        match numeral(digits, radix) {
            Some(v) if v <= max => Some(v),
            _ => None,
        }
    }
}

/// More digits never make a number smaller.
proof fn lemma_numeral_grows(digits: Seq<char>, radix: nat, k: int)
    requires
        0 <= k <= digits.len(),
        radix >= 2,
    ensures
        numeral(digits, radix) matches Some(v) ==> numeral(digits.take(k), radix) is Some
            && numeral(digits.take(k), radix)->0 <= v,
    decreases digits.len(),
{
    if k == digits.len() {
        assert(digits.take(k) =~= digits);
    } else {
        lemma_numeral_grows(digits.drop_last(), radix, k);
        assert(digits.drop_last().take(k) =~= digits.take(k));
        if numeral(digits, radix) is Some {
            let high = numeral(digits.drop_last(), radix)->0;
            assert(high * radix >= high) by (nonlinear_arith)
                requires
                    radix >= 1,
            ;
        }
    }
}

fn value_of_digit(c: char, radix: u64) -> (v: Option<u64>)
    ensures
        match v {
            Some(d) => digit_value(c, radix as nat) == Some(d as nat),
            None => digit_value(c, radix as nat) is None,
        },
{
    let code: u64 = c as u32 as u64;
    let v: u64 = if '0' <= c && c <= '9' {
        code - 48
    } else if 'a' <= c && c <= 'f' {
        code - 87
    } else if 'A' <= c && c <= 'F' {
        code - 55
    } else {
        16
    };
    if v < radix {
        Some(v)
    } else {
        None
    }
}

/// Reads an unsigned number, as `from_str_radix` does.
pub fn parse_number(s: &str, radix: u64, max: u64) -> (v: Option<u64>)
    requires
        2 <= radix <= 16,
        max <= u32::MAX,
    ensures
        match v {
            Some(n) => number(s@, radix as nat, max as nat) == Some(n as nat),
            None => number(s@, radix as nat, max as nat) is None,
        },
{
    let chars = chars_of(s);
    let start: usize = if chars.len() > 0 && chars[0] == '+' {
        1
    } else {
        0
    };
    let ghost digits = unsigned_part(s@);
    proof {
        assert(digits =~= chars@.skip(start as int));
    }
    if start == chars.len() {
        return None;
    }
    let mut value: u64 = 0;
    let mut i: usize = start;
    while i < chars.len()
        invariant
            start <= i <= chars@.len(),
            digits == chars@.skip(start as int),
            digits == unsigned_part(s@),
            digits.len() > 0,
            2 <= radix <= 16,
            value <= max <= u32::MAX,
            numeral(digits.take(i - start), radix as nat) == Some(value as nat),
        decreases chars@.len() - i,
    {
        let ghost upto = digits.take(i - start + 1);
        proof {
            assert(upto.drop_last() =~= digits.take(i - start));
            assert(upto.last() == chars@[i as int]);
            lemma_numeral_grows(digits, radix as nat, i - start + 1);
            assert(value * radix <= u32::MAX * 16) by (nonlinear_arith)
                requires
                    value <= u32::MAX,
                    radix <= 16,
            ;
        }
        match value_of_digit(chars[i], radix) {
            Some(d) => {
                let next: u64 = value * radix + d;
                if next > max {
                    return None;
                }
                value = next;
            },
            None => {
                return None;
            },
        }
        i = i + 1;
    }
    proof {
        assert(digits.take(i - start) =~= digits);
    }
    Some(value)
}

/// A number that is written in decimal is read as itself.
pub proof fn lemma_number_of_decimal(n: nat, max: nat)
    requires
        n <= max,
    ensures
        number(decimal(n), 10, max) == Some(n),
{
    lemma_numeral_of_decimal(n);
    lemma_decimal_begins_with_digit(n);
}

proof fn lemma_numeral_of_decimal(n: nat)
    ensures
        numeral(decimal(n), 10) == Some(n),
    decreases n,
{
    reveal_with_fuel(numeral, 2);
    assert(digit_value(decimal(n).last(), 10) == Some(n % 10));
    if n < 10 {
        assert(decimal(n).drop_last() =~= Seq::<char>::empty());
    } else {
        lemma_numeral_of_decimal(n / 10);
        assert(decimal(n).drop_last() =~= decimal(n / 10));
    }
}

proof fn lemma_decimal_begins_with_digit(n: nat)
    ensures
        decimal(n).len() > 0,
        '0' <= decimal(n)[0] <= '9',
    decreases n,
{
    if n >= 10 {
        lemma_decimal_begins_with_digit(n / 10);
    }
}

/// The characters with the Unicode property White_Space.
pub open spec fn is_space(c: char) -> bool {
    ||| 0x9 <= c as int <= 0xd
    ||| c as int == 0x20
    ||| c as int == 0x85
    ||| c as int == 0xa0
    ||| c as int == 0x1680
    ||| 0x2000 <= c as int <= 0x200a
    ||| c as int == 0x2028
    ||| c as int == 0x2029
    ||| c as int == 0x202f
    ||| c as int == 0x205f
    ||| c as int == 0x3000
}

fn is_space_char(c: char) -> (b: bool)
    ensures
        b == is_space(c),
{
    let code: u32 = c as u32;
    (0x9 <= code && code <= 0xd) || code == 0x20 || code == 0x85 || code == 0xa0 || code == 0x1680
        || (0x2000 <= code && code <= 0x200a) || code == 0x2028 || code == 0x2029 || code == 0x202f
        || code == 0x205f || code == 0x3000
}

/// How many characters at the front of `s` are no white space.
pub open spec fn word_len(s: Seq<char>) -> nat
    decreases s.len(),
{
    if s.len() == 0 || is_space(s[0]) {
        0
    } else {
        1 + word_len(s.drop_first())
    }
}

pub proof fn lemma_word_len(s: Seq<char>)
    ensures
        word_len(s) <= s.len(),
        s.len() > 0 && !is_space(s[0]) ==> word_len(s) > 0,
    decreases s.len(),
{
    if s.len() > 0 && !is_space(s[0]) {
        lemma_word_len(s.drop_first());
    }
}

/// The maximal stretches of `s` without white space, in order.
pub open spec fn words(s: Seq<char>) -> Seq<Seq<char>>
    decreases s.len(),
{
    if s.len() == 0 {
        seq![]
    } else if is_space(s[0]) {
        words(s.drop_first())
    } else {
        proof {
            lemma_word_len(s);
        }
        seq![s.take(word_len(s) as int)] + words(s.skip(word_len(s) as int))
    }
}

/// The texts of a list of strings.
pub open spec fn views(list: Seq<String>) -> Seq<Seq<char>> {
    list.map_values(|s: String| s@)
}

fn word_length(chars: &Vec<char>, from: usize) -> (n: usize)
    requires
        from <= chars@.len(),
    ensures
        n == word_len(chars@.skip(from as int)),
        from + n <= chars@.len(),
{
    let mut i: usize = from;
    proof {
        lemma_word_len(chars@.skip(from as int));
    }
    while i < chars.len() && !is_space_char(chars[i])
        invariant
            from <= i <= chars@.len(),
            word_len(chars@.skip(from as int)) == (i - from) + word_len(chars@.skip(i as int)),
        decreases chars@.len() - i,
    {
        proof {
            assert(chars@.skip(i as int).drop_first() =~= chars@.skip(i + 1));
        }
        i = i + 1;
    }
    i - from
}

/// The maximal stretches of `s` without white space, in order, as `split_whitespace` gives them.
pub fn split_words(s: &str) -> (list: Vec<String>)
    ensures
        views(list@) == words(s@),
{
    let chars = chars_of(s);
    let mut list: Vec<String> = Vec::new();
    let mut i: usize = 0;
    proof {
        assert(chars@.skip(0) =~= s@);
        assert(views(list@) + words(s@) =~= words(s@));
    }
    while i < chars.len()
        invariant
            i <= chars@.len(),
            views(list@) + words(chars@.skip(i as int)) == words(s@),
        decreases chars@.len() - i,
    {
        let ghost rest = chars@.skip(i as int);
        if is_space_char(chars[i]) {
            proof {
                assert(rest.drop_first() =~= chars@.skip(i + 1));
            }
            i = i + 1;
        } else {
            let n: usize = word_length(&chars, i);
            let ghost before = views(list@);
            list.push(string_of(&chars, i, i + n));
            proof {
                lemma_word_len(rest);
                assert(rest.take(n as int) =~= chars@.subrange(i as int, i + n));
                assert(rest.skip(n as int) =~= chars@.skip(i + n));
                assert(views(list@) =~= before.push(rest.take(n as int)));
                assert(views(list@) + words(chars@.skip(i + n)) =~= before + words(rest));
            }
            i = i + n;
        }
    }
    proof {
        assert(views(list@) + words(chars@.skip(i as int)) =~= views(list@));
    }
    list
}

/// How many characters of `s` stand before the first `stop`, or in all where there is none.
pub open spec fn len_before(s: Seq<char>, stop: char) -> nat
    decreases s.len(),
{
    if s.len() == 0 || s[0] == stop {
        0
    } else {
        1 + len_before(s.drop_first(), stop)
    }
}

/// How many characters of `chars[from..]` stand before the first `stop`.
pub fn length_before(chars: &Vec<char>, from: usize, stop: char) -> (n: usize)
    requires
        from <= chars@.len(),
    ensures
        n == len_before(chars@.skip(from as int), stop),
        from + n <= chars@.len(),
{
    let mut i: usize = from;
    while i < chars.len() && chars[i] != stop
        invariant
            from <= i <= chars@.len(),
            len_before(chars@.skip(from as int), stop) == (i - from) + len_before(
                chars@.skip(i as int),
                stop,
            ),
        decreases chars@.len() - i,
    {
        proof {
            assert(chars@.skip(i as int).drop_first() =~= chars@.skip(i + 1));
        }
        i = i + 1;
    }
    i - from
}

/// What stands between the first `stop` of `s` and the next one, or the end.
pub open spec fn second_piece(s: Seq<char>, stop: char) -> Option<Seq<char>> {
    let n = len_before(s, stop) as int;
    if n < s.len() {
        let rest = s.skip(n + 1);
        Some(rest.take(len_before(rest, stop) as int))
    } else {
        None
    }
}

/// What stands between the first `stop` of `s` and the next one, or the end.
pub fn piece_after(s: &str, stop: char) -> (piece: Option<String>)
    ensures
        match piece {
            Some(p) => second_piece(s@, stop) == Some(p@),
            None => second_piece(s@, stop) is None,
        },
{
    let chars = chars_of(s);
    proof {
        assert(chars@.skip(0) =~= s@);
    }
    let n: usize = length_before(&chars, 0, stop);
    if n >= chars.len() {
        return None;
    }
    let m: usize = length_before(&chars, n + 1, stop);
    let piece = string_of(&chars, n + 1, n + 1 + m);
    proof {
        assert(chars@.subrange(n + 1, n + 1 + m) =~= s@.skip(n + 1).take(m as int));
    }
    Some(piece)
}

/// `s` without one carriage return at its end.
pub open spec fn without_return(s: Seq<char>) -> Seq<char> {
    if s.len() > 0 && s.last() == '\r' {
        s.drop_last()
    } else {
        s
    }
}

/// The lines of `s`: each ends at a line feed, or at a carriage return and a line feed, which
/// do not belong to it; what follows the last line feed is a line only where it is not empty.
pub open spec fn lines(s: Seq<char>) -> Seq<Seq<char>>
    decreases s.len(),
{
    let n = len_before(s, '\n') as int;
    if s.len() == 0 {
        seq![]
    } else if n < s.len() {
        seq![without_return(s.take(n))] + lines(s.skip(n + 1))
    } else {
        seq![s]
    }
}

/// The lines of `s`, as `str::lines` gives them.
pub fn split_lines(s: &str) -> (list: Vec<String>)
    ensures
        views(list@) == lines(s@),
{
    let chars = chars_of(s);
    let mut list: Vec<String> = Vec::new();
    let mut i: usize = 0;
    proof {
        assert(chars@.skip(0) =~= s@);
        assert(views(list@) + lines(s@) =~= lines(s@));
    }
    while i < chars.len()
        invariant
            i <= chars@.len(),
            views(list@) + lines(chars@.skip(i as int)) == lines(s@),
        decreases chars@.len() - i,
    {
        let ghost rest = chars@.skip(i as int);
        let ghost before = views(list@);
        let n: usize = length_before(&chars, i, '\n');
        let end: usize = i + n;
        if end < chars.len() {
            let stop: usize = if n > 0 && chars[end - 1] == '\r' {
                end - 1
            } else {
                end
            };
            list.push(string_of(&chars, i, stop));
            proof {
                assert(chars@.subrange(i as int, stop as int) =~= without_return(
                    rest.take(n as int),
                ));
                assert(rest.skip(n + 1) =~= chars@.skip(end + 1));
                assert(views(list@) =~= before.push(without_return(rest.take(n as int))));
                assert(views(list@) + lines(chars@.skip(end + 1)) =~= before + lines(rest));
            }
            i = end + 1;
        } else {
            list.push(string_of(&chars, i, end));
            proof {
                assert(chars@.subrange(i as int, end as int) =~= rest);
                assert(views(list@) =~= before.push(rest));
                assert(chars@.skip(end as int) =~= Seq::<char>::empty());
                assert(views(list@) + lines(chars@.skip(end as int)) =~= before + lines(rest));
            }
            i = end;
        }
    }
    proof {
        assert(views(list@) + lines(chars@.skip(i as int)) =~= views(list@));
    }
    list
}

/// `a` stands before `b` in the order of characters, or they are the same text.
pub open spec fn text_le(a: Seq<char>, b: Seq<char>) -> bool
    decreases a.len(),
{
    if a.len() == 0 {
        true
    } else if b.len() == 0 {
        false
    } else if a[0] == b[0] {
        text_le(a.drop_first(), b.drop_first())
    } else {
        a[0] < b[0]
    }
}

/// The order of texts is reflexive.
pub proof fn lemma_text_le_reflexive(a: Seq<char>)
    ensures
        text_le(a, a),
    decreases a.len(),
{
    if a.len() > 0 {
        lemma_text_le_reflexive(a.drop_first());
    }
}

/// The order of texts compares any two texts.
pub proof fn lemma_text_le_total(a: Seq<char>, b: Seq<char>)
    ensures
        text_le(a, b) || text_le(b, a),
    decreases a.len(),
{
    if a.len() > 0 && b.len() > 0 && a[0] == b[0] {
        lemma_text_le_total(a.drop_first(), b.drop_first());
    }
}

/// Two texts that stand before each other are the same.
pub proof fn lemma_text_le_antisymmetric(a: Seq<char>, b: Seq<char>)
    requires
        text_le(a, b),
        text_le(b, a),
    ensures
        a == b,
    decreases a.len(),
{
    if a.len() > 0 && b.len() > 0 {
        assert(a[0] == b[0]);
        lemma_text_le_antisymmetric(a.drop_first(), b.drop_first());
        assert(a.len() == b.len());
        assert forall|i: int| 0 <= i < a.len() implies a[i] == b[i] by {
            if i > 0 {
                assert(a[i] == a.drop_first()[i - 1]);
                assert(b[i] == b.drop_first()[i - 1]);
            }
        }
        assert(a =~= b);
    } else {
        assert(a.len() == 0 && b.len() == 0);
        assert(a =~= b);
    }
}

/// The order of texts is transitive.
pub proof fn lemma_text_le_transitive(a: Seq<char>, b: Seq<char>, c: Seq<char>)
    requires
        text_le(a, b),
        text_le(b, c),
    ensures
        text_le(a, c),
    decreases a.len(),
{
    if a.len() > 0 && b.len() > 0 && c.len() > 0 && a[0] == b[0] && b[0] == c[0] {
        lemma_text_le_transitive(a.drop_first(), b.drop_first(), c.drop_first());
    }
}

/// Whether `a` stands before `b` in the order of characters, or is the same text.
pub fn at_most(a: &str, b: &str) -> (le: bool)
    ensures
        le == text_le(a@, b@),
{
    let left = chars_of(a);
    let right = chars_of(b);
    let mut i: usize = 0;
    proof {
        assert(left@.skip(0) =~= a@);
        assert(right@.skip(0) =~= b@);
    }
    while i < left.len() && i < right.len()
        invariant
            i <= left@.len(),
            i <= right@.len(),
            text_le(a@, b@) == text_le(left@.skip(i as int), right@.skip(i as int)),
        decreases left@.len() - i,
    {
        if left[i] != right[i] {
            return left[i] < right[i];
        }
        proof {
            assert(left@.skip(i as int).drop_first() =~= left@.skip(i + 1));
            assert(right@.skip(i as int).drop_first() =~= right@.skip(i + 1));
        }
        i = i + 1;
    }
    left.len() == i
}

/// Only what follows a common beginning decides on the order of two texts, and a difference in
/// beginnings of the same length decides alone.
pub proof fn lemma_text_le_parts(a: Seq<char>, b: Seq<char>, c: Seq<char>, d: Seq<char>)
    requires
        a.len() == b.len(),
    ensures
        text_le(a + c, b + d) == if a == b {
            text_le(c, d)
        } else {
            text_le(a, b)
        },
    decreases a.len(),
{
    if a.len() == 0 {
        assert(a =~= b);
        assert(a + c =~= c);
        assert(b + d =~= d);
    } else {
        assert((a + c).drop_first() =~= a.drop_first() + c);
        assert((b + d).drop_first() =~= b.drop_first() + d);
        assert(a =~= seq![a[0]] + a.drop_first());
        assert(b =~= seq![b[0]] + b.drop_first());
        if a[0] == b[0] {
            lemma_text_le_parts(a.drop_first(), b.drop_first(), c, d);
        }
    }
}

/// What the first of some decimal digits is worth.
proof fn lemma_numeral_first(digits: Seq<char>)
    requires
        digits.len() > 0,
        numeral(digits, 10) is Some,
    ensures
        digit_value(digits[0], 10) is Some,
        numeral(digits.drop_first(), 10) is Some,
        numeral(digits, 10)->0 == digit_value(digits[0], 10)->0 * pow(
            10,
            (digits.len() - 1) as nat,
        ) + numeral(digits.drop_first(), 10)->0,
        numeral(digits.drop_first(), 10)->0 < pow(10, (digits.len() - 1) as nat),
    decreases digits.len(),
{
    let n = (digits.len() - 1) as nat;
    if digits.len() == 1 {
        lemma_pow0(10);
        assert(digits.drop_last() =~= Seq::<char>::empty());
        assert(digits.drop_first() =~= Seq::<char>::empty());
    } else {
        let front = digits.drop_last();
        lemma_numeral_first(front);
        assert(front.drop_first() =~= digits.drop_first().drop_last());
        assert(digits.drop_first().last() == digits.last());
        let power = pow(10, (n - 1) as nat);
        lemma_pow1(10);
        lemma_pow_adds(10, (n - 1) as nat, 1);
        let first = digit_value(digits[0], 10)->0;
        let rest = numeral(front.drop_first(), 10)->0;
        let low = digit_value(digits.last(), 10)->0;
        assert((first * power + rest) * 10 + low == first * (power * 10) + (rest * 10 + low))
            by (nonlinear_arith);
    }
}

/// For decimal digits of the same length, the order as texts is the order as numbers.
pub proof fn lemma_text_le_numeral(a: Seq<char>, b: Seq<char>)
    requires
        a.len() == b.len(),
        numeral(a, 10) is Some,
        numeral(b, 10) is Some,
    ensures
        text_le(a, b) <==> numeral(a, 10)->0 <= numeral(b, 10)->0,
    decreases a.len(),
{
    if a.len() > 0 {
        lemma_numeral_first(a);
        lemma_numeral_first(b);
        lemma_text_le_numeral(a.drop_first(), b.drop_first());
        let power = pow(10, (a.len() - 1) as nat);
        let x = digit_value(a[0], 10)->0;
        let y = digit_value(b[0], 10)->0;
        assert(x < y ==> x * power + power <= y * power) by (nonlinear_arith)
            requires
                power > 0,
        ;
        assert(y < x ==> y * power + power <= x * power) by (nonlinear_arith)
            requires
                power > 0,
        ;
    }
}

/// Digits are `0` to `9` and, beyond ten, `a` to `f` in either case, as far as the radix goes.
pub proof fn law_digits(c: char, v: nat, radix: nat)
    requires
        radix <= 16,
        v < radix,
    ensures
        digit_value(c, radix) == Some(v) <==> (v < 10 && c as int == 48 + v) || (v >= 10 && (
        c as int == 87 + v || c as int == 55 + v)),
{
}

/// A digit behind others counts once, and those before it are worth the radix more; what is no
/// digit spoils the number.
pub proof fn law_numerals_are_positional(digits: Seq<char>, c: char, radix: nat)
    ensures
        numeral(seq![], radix) == Some(0nat),
        digit_value(c, radix) is None ==> numeral(digits.push(c), radix) is None,
        numeral(digits, radix) is None ==> numeral(digits.push(c), radix) is None,
        numeral(digits, radix) is Some && digit_value(c, radix) is Some ==> numeral(
            digits.push(c),
            radix,
        ) == Some((numeral(digits, radix)->0 * radix + digit_value(c, radix)->0) as nat),
{
    assert(digits.push(c).drop_last() =~= digits);
    assert(digits.push(c).last() == c);
}

/// A number is read from at least one digit, with or without one plus sign before them, and only
/// where it is not too large.
pub proof fn law_numbers_are_read(digits: Seq<char>, radix: nat, max: nat)
    requires
        digits.len() > 0,
        digits[0] != '+',
        radix >= 2,
    ensures
        number(digits, radix, max) == match numeral(digits, radix) {
            Some(v) => if v <= max {
                Some(v)
            } else {
                None
            },
            None => None,
        },
        number(seq!['+'] + digits, radix, max) == number(digits, radix, max),
        number(seq![], radix, max) is None,
        number(seq!['+'], radix, max) is None,
{
    assert((seq!['+'] + digits).drop_first() =~= digits);
    assert(seq!['+'].drop_first() =~= Seq::<char>::empty());
}

/// White space is the set of characters with that Unicode property.
pub proof fn law_white_space(c: char)
    ensures
        is_space(c) <==> (0x9 <= c as int <= 0xd || c as int == 0x20 || c as int == 0x85
            || c as int == 0xa0 || c as int == 0x1680 || 0x2000 <= c as int <= 0x200a || c as int
            == 0x2028 || c as int == 0x2029 || c as int == 0x202f || c as int == 0x205f || c as int
            == 0x3000),
{
}

proof fn lemma_word_len_exact(word: Seq<char>, rest: Seq<char>)
    requires
        forall|i: int| 0 <= i < word.len() ==> !is_space(#[trigger] word[i]),
        rest.len() > 0 ==> is_space(rest[0]),
    ensures
        word_len(word + rest) == word.len(),
    decreases word.len(),
{
    let s = word + rest;
    if word.len() > 0 {
        assert(!is_space(word[0]));
        assert(s.drop_first() =~= word.drop_first() + rest);
        assert forall|i: int| 0 <= i < word.drop_first().len() implies !is_space(
            #[trigger] word.drop_first()[i],
        ) by {
            assert(word.drop_first()[i] == word[i + 1]);
        }
        lemma_word_len_exact(word.drop_first(), rest);
    } else {
        assert(s =~= rest);
    }
}

/// Words are the stretches between white space: white space in front changes nothing, and a word
/// that white space or the end follows comes before the words of the rest.
pub proof fn law_words(space: char, word: Seq<char>, rest: Seq<char>)
    requires
        is_space(space),
        word.len() > 0,
        forall|i: int| 0 <= i < word.len() ==> !is_space(#[trigger] word[i]),
    ensures
        words(seq![]) == Seq::<Seq<char>>::empty(),
        words(word) == seq![word],
        words(seq![space] + rest) == words(rest),
        words(word + (seq![space] + rest)) == seq![word] + words(rest),
{
    let tail = seq![space] + rest;
    assert(tail.drop_first() =~= rest);
    lemma_word_len_exact(word, tail);
    lemma_word_len_exact(word, seq![]);
    let s = word + tail;
    assert(!is_space(word[0]));
    assert(s[0] == word[0]);
    assert(s.take(word.len() as int) =~= word);
    assert(s.skip(word.len() as int) =~= tail);
    assert(word + Seq::<char>::empty() =~= word);
    assert(word.take(word.len() as int) =~= word);
    assert(word.skip(word.len() as int) =~= Seq::<char>::empty());
    assert(seq![word] + Seq::<Seq<char>>::empty() =~= seq![word]);
}

proof fn lemma_len_before_exact(piece: Seq<char>, stop: char, rest: Seq<char>)
    requires
        !piece.contains(stop),
        rest.len() > 0 ==> rest[0] == stop,
    ensures
        len_before(piece + rest, stop) == piece.len(),
    decreases piece.len(),
{
    let s = piece + rest;
    if piece.len() > 0 {
        assert(piece.contains(piece[0]));
        assert(s.drop_first() =~= piece.drop_first() + rest);
        assert(!piece.drop_first().contains(stop)) by {
            if piece.drop_first().contains(stop) {
                let k = choose|k: int|
                    0 <= k < piece.drop_first().len() && piece.drop_first()[k] == stop;
                assert(piece[k + 1] == stop);
            }
        }
        lemma_len_before_exact(piece.drop_first(), stop, rest);
    } else {
        assert(s =~= rest);
    }
}

/// What stands before the first stop is everything up to it, or all where there is none.
pub proof fn law_length_before_a_stop(piece: Seq<char>, stop: char, rest: Seq<char>)
    requires
        !piece.contains(stop),
    ensures
        len_before(piece, stop) == piece.len(),
        len_before(piece + (seq![stop] + rest), stop) == piece.len(),
{
    lemma_len_before_exact(piece, stop, seq![]);
    assert(piece + Seq::<char>::empty() =~= piece);
    lemma_len_before_exact(piece, stop, seq![stop] + rest);
}

/// The second piece stands between the first two stops, or behind the only one.
pub proof fn law_second_piece(first: Seq<char>, second: Seq<char>, stop: char, rest: Seq<char>)
    requires
        !first.contains(stop),
        !second.contains(stop),
    ensures
        second_piece(first, stop) is None,
        second_piece(first + (seq![stop] + second), stop) == Some(second),
        second_piece(first + (seq![stop] + (second + (seq![stop] + rest))), stop) == Some(second),
{
    law_length_before_a_stop(first, stop, second);
    law_length_before_a_stop(second, stop, rest);
    let behind = second + (seq![stop] + rest);
    law_length_before_a_stop(first, stop, behind);
    let one = first + (seq![stop] + second);
    let two = first + (seq![stop] + behind);
    assert(one.skip(first.len() as int + 1) =~= second);
    assert(two.skip(first.len() as int + 1) =~= behind);
    assert(second.take(second.len() as int) =~= second);
    assert(behind.take(second.len() as int) =~= second);
}

/// Lines end at line feeds, which do not belong to them, nor does a carriage return before one;
/// what follows the last line feed is a line where it is not empty.
pub proof fn law_lines(line: Seq<char>, rest: Seq<char>)
    requires
        !line.contains('\n'),
    ensures
        lines(seq![]) == Seq::<Seq<char>>::empty(),
        line.len() > 0 ==> lines(line) == seq![line],
        line.len() == 0 || line.last() != '\r' ==> lines(line + (seq!['\n'] + rest)) == seq![line]
            + lines(rest),
        lines(line.push('\r') + (seq!['\n'] + rest)) == seq![line] + lines(rest),
{
    law_length_before_a_stop(line, '\n', rest);
    let s = line + (seq!['\n'] + rest);
    assert(s.take(line.len() as int) =~= line);
    assert(s.skip(line.len() as int + 1) =~= rest);
    let returned = line.push('\r');
    assert(!returned.contains('\n')) by {
        if returned.contains('\n') {
            let k = choose|k: int| 0 <= k < returned.len() && returned[k] == '\n';
            assert(k < line.len());
            assert(line[k] == '\n');
        }
    }
    law_length_before_a_stop(returned, '\n', rest);
    let t = returned + (seq!['\n'] + rest);
    assert(t.take(returned.len() as int) =~= returned);
    assert(t.skip(returned.len() as int + 1) =~= rest);
    assert(returned.drop_last() =~= line);
}

/// The first character in which two texts differ decides on their order, and a text stands before
/// every longer one that it begins.
pub proof fn law_first_difference_decides(
    common: Seq<char>,
    x: char,
    a: Seq<char>,
    y: char,
    b: Seq<char>,
)
    ensures
        text_le(common, common + b),
        b.len() > 0 ==> !text_le(common + b, common),
        x != y ==> (text_le(common + (seq![x] + a), common + (seq![y] + b)) <==> (x as int)
            < y as int),
{
    lemma_text_le_parts(common, common, seq![x] + a, seq![y] + b);
    lemma_text_le_parts(common, common, seq![], b);
    lemma_text_le_parts(common, common, b, seq![]);
    assert(common + Seq::<char>::empty() =~= common);
}

} // verus!
