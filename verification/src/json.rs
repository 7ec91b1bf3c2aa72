//! Texts as JSON strings.

use vstd::prelude::*;
use vstd::string::*;

use crate::scan::digit_value;
use crate::scan::numeral;
use crate::text::chars_of;

verus! {

/// A control character, which stands in no JSON string as it is.
pub open spec fn is_control(c: char) -> bool {
    c < ' '
}

/// A character that stands in a JSON string as it is.
pub open spec fn is_plain(c: char) -> bool {
    c != '"' && c != '\\' && !is_control(c)
}

/// A hexadecimal digit, in lower case.
pub open spec fn hex_digit(v: nat) -> char {
    if v < 10 {
        ('0' as nat + v) as char
    } else {
        ('a' as nat + v - 10) as char
    }
}

/// How a character is written in a JSON string: a quotation mark and a backslash behind a
/// backslash, a control character by its number, and any other as it is.
pub open spec fn escaped_char(c: char) -> Seq<char> {
    if c == '"' || c == '\\' {
        seq!['\\', c]
    } else if is_control(c) {
        seq!['\\', 'u', '0', '0', hex_digit(c as nat / 16), hex_digit(c as nat % 16)]
    } else {
        seq![c]
    }
}

/// How a text is written in a JSON string, without the quotation marks around it.
pub open spec fn json_escaped(s: Seq<char>) -> Seq<char>
    decreases s.len(),
{
    if s.len() == 0 {
        seq![]
    } else {
        json_escaped(s.drop_last()) + escaped_char(s.last())
    }
}

/// The code unit that the four hexadecimal digits behind `\u` at the front of `s` write.
pub open spec fn code_unit(s: Seq<char>) -> Option<nat> {
    if s.len() >= 6 && s[0] == '\\' && s[1] == 'u' {
        numeral(s.subrange(2, 6), 16)
    } else {
        None
    }
}

/// The character that an escape by number at the front of `s` stands for, and how long that
/// escape is. A character beyond the first plane takes two code units.
pub open spec fn numbered_escape(s: Seq<char>) -> Option<(char, nat)> {
    match code_unit(s) {
        Some(high) => if high < 0xd800 || 0xe000 <= high {
            Some((high as char, 6))
        } else {
            match code_unit(s.skip(6)) {
                Some(low) => if high < 0xdc00 && 0xdc00 <= low < 0xe000 {
                    Some(
                        ((0x10000 + (high - 0xd800) * 0x400 + (low - 0xdc00)) as char, 12),
                    )
                } else {
                    None
                },
                None => None,
            }
        },
        None => None,
    }
}

/// The character that stands at the front of a JSON string, and how many characters write it;
/// nothing where no JSON string begins so.
pub open spec fn first_char(s: Seq<char>) -> Option<(char, nat)> {
    if s.len() == 0 || s[0] == '"' || is_control(s[0]) {
        None
    } else if s[0] != '\\' {
        Some((s[0], 1))
    } else if s.len() == 1 {
        None
    } else if s[1] == '"' || s[1] == '\\' || s[1] == '/' {
        Some((s[1], 2))
    } else if s[1] == 'b' {
        Some((0x8 as char, 2))
    } else if s[1] == 'f' {
        Some((0xc as char, 2))
    } else if s[1] == 'n' {
        Some(('\n', 2))
    } else if s[1] == 'r' {
        Some(('\r', 2))
    } else if s[1] == 't' {
        Some(('\t', 2))
    } else {
        numbered_escape(s)
    }
}

/// The text that a JSON string stands for, given what stands between its quotation marks; nothing
/// where that is no JSON string.
pub open spec fn json_decoded(s: Seq<char>) -> Option<Seq<char>>
    decreases s.len(),
{
    if s.len() == 0 {
        Some(seq![])
    } else {
        match first_char(s) {
            Some((c, n)) => match json_decoded(s.skip(n as int)) {
                Some(rest) => Some(seq![c] + rest),
                None => None,
            },
            None => None,
        }
    }
}

fn hex_char(v: u8) -> (c: char)
    requires
        v < 16,
    ensures
        c == hex_digit(v as nat),
{
    if v < 10 {
        (48u8 + v) as char
    } else {
        (87u8 + v) as char
    }
}

fn append_escaped(s: &mut String, c: char)
    ensures
        final(s)@ == old(s)@ + escaped_char(c),
{
    let code: u32 = c as u32;
    if c == '"' || c == '\\' {
        s.push('\\');
        s.push(c);
    } else if code <= 31 {
        let control: u8 = code as u8;
        s.push('\\');
        s.push('u');
        s.push('0');
        s.push('0');
        s.push(hex_char(control / 16));
        s.push(hex_char(control % 16));
    } else {
        s.push(c);
    }
    proof {
        assert(s@ =~= old(s)@ + escaped_char(c));
    }
}

/// How a text is written in a JSON string, without the quotation marks around it.
pub fn escape_json(s: &str) -> (escaped: String)
    ensures
        escaped@ == json_escaped(s@),
{
    let chars = chars_of(s);
    let mut escaped = String::new();
    let mut i: usize = 0;
    proof {
        assert(escaped@ =~= json_escaped(s@.take(0)));
    }
    while i < chars.len()
        invariant
            i <= chars@.len(),
            chars@ == s@,
            escaped@ == json_escaped(s@.take(i as int)),
        decreases chars@.len() - i,
    {
        append_escaped(&mut escaped, chars[i]);
        proof {
            assert(s@.take(i + 1).drop_last() =~= s@.take(i as int));
        }
        i = i + 1;
    }
    proof {
        assert(s@.take(i as int) =~= s@);
    }
    escaped
}

/// The escape of a character is read as that character, whatever follows.
proof fn lemma_first_char(c: char, rest: Seq<char>)
    ensures
        first_char(escaped_char(c) + rest) == Some((c, escaped_char(c).len())),
{
    let s = escaped_char(c) + rest;
    if is_control(c) {
        let high = hex_digit(c as nat / 16);
        let low = hex_digit(c as nat % 16);
        let digits = s.subrange(2, 6);
        assert(digits =~= seq!['0', '0', high, low]);
        assert(digit_value(high, 16) == Some(c as nat / 16));
        assert(digit_value(low, 16) == Some(c as nat % 16));
        reveal_with_fuel(numeral, 5);
        assert(digits.drop_last() =~= seq!['0', '0', high]);
        assert(digits.drop_last().drop_last() =~= seq!['0', '0']);
        assert(digits.drop_last().drop_last().drop_last() =~= seq!['0']);
        assert(digits.drop_last().drop_last().drop_last().drop_last() =~= Seq::<char>::empty());
        assert(numeral(digits, 16) == Some(c as nat));
    }
}

/// A text that is escaped character by character from its front.
proof fn lemma_escaped_from_front(s: Seq<char>)
    requires
        s.len() > 0,
    ensures
        json_escaped(s) == escaped_char(s[0]) + json_escaped(s.drop_first()),
    decreases s.len(),
{
    let front = s.drop_last();
    if front.len() == 0 {
        assert(front =~= Seq::<char>::empty());
        assert(s.drop_first() =~= Seq::<char>::empty());
        assert(json_escaped(s) =~= escaped_char(s[0]) + json_escaped(s.drop_first()));
    } else {
        lemma_escaped_from_front(front);
        assert(front.drop_first() =~= s.drop_first().drop_last());
        assert(json_escaped(s) =~= escaped_char(s[0]) + json_escaped(s.drop_first()));
    }
}

/// A text that is escaped reads back as itself.
pub proof fn law_escaped_text_reads_back(s: Seq<char>)
    ensures
        json_decoded(json_escaped(s)) == Some(s),
    decreases s.len(),
{
    if s.len() > 0 {
        let rest = s.drop_first();
        law_escaped_text_reads_back(rest);
        lemma_escaped_from_front(s);
        lemma_first_char(s[0], json_escaped(rest));
        let n = escaped_char(s[0]).len() as int;
        assert(json_escaped(s).skip(n) =~= json_escaped(rest));
        assert(seq![s[0]] + rest =~= s);
    }
}

/// A text of plain characters is written as it is.
pub proof fn law_plain_text_is_kept(s: Seq<char>)
    requires
        forall|i: int| 0 <= i < s.len() ==> is_plain(#[trigger] s[i]),
    ensures
        json_escaped(s) == s,
    decreases s.len(),
{
    if s.len() > 0 {
        let front = s.drop_last();
        assert forall|i: int| 0 <= i < front.len() implies is_plain(#[trigger] front[i]) by {
            assert(front[i] == s[i]);
        }
        law_plain_text_is_kept(front);
        assert(is_plain(s[s.len() - 1]));
        assert(front + seq![s.last()] =~= s);
    } else {
        assert(s =~= Seq::<char>::empty());
    }
}

/// A text is escaped character by character: a quotation mark and a backslash stand behind a
/// backslash, a character below the space is written by its number in four hexadecimal digits of
/// lower case, and any other stands as it is.
pub proof fn law_escapes(s: Seq<char>, c: char, high: nat, low: nat)
    ensures
        json_escaped(seq![]) == Seq::<char>::empty(),
        c == '"' ==> json_escaped(s.push(c)) == json_escaped(s) + seq!['\\', '"'],
        c == '\\' ==> json_escaped(s.push(c)) == json_escaped(s) + seq!['\\', '\\'],
        c as nat == 16 * high + low && high < 2 && low < 10 ==> json_escaped(s.push(c))
            == json_escaped(s) + seq![
            '\\',
            'u',
            '0',
            '0',
            (48 + high) as char,
            (48 + low) as char,
        ],
        c as nat == 16 * high + low && high < 2 && 10 <= low < 16 ==> json_escaped(s.push(c))
            == json_escaped(s) + seq![
            '\\',
            'u',
            '0',
            '0',
            (48 + high) as char,
            (87 + low) as char,
        ],
        c as nat >= 32 && c != '"' && c != '\\' ==> json_escaped(s.push(c)) == json_escaped(s).push(
            c,
        ),
{
    assert(s.push(c).drop_last() =~= s);
    assert(s.push(c).last() == c);
    if c as nat >= 32 && c != '"' && c != '\\' {
        assert(json_escaped(s) + seq![c] =~= json_escaped(s).push(c));
    }
}

/// What a JSON string stands for is read from its front: a plain character stands for itself, a
/// backslash with one of its letters for what that letter means, and neither a bare quotation mark
/// nor a control character stands in one.
pub proof fn law_reading_of_strings(c: char, rest: Seq<char>, text: Seq<char>)
    requires
        json_decoded(rest) == Some(text),
    ensures
        json_decoded(seq![]) == Some(Seq::<char>::empty()),
        c as nat >= 32 && c != '"' && c != '\\' ==> json_decoded(seq![c] + rest) == Some(
            seq![c] + text,
        ),
        c == '"' || (c as nat) < 32 ==> json_decoded(seq![c] + rest) is None,
        c == '"' || c == '\\' || c == '/' ==> json_decoded(seq!['\\', c] + rest) == Some(
            seq![c] + text,
        ),
        json_decoded(seq!['\\', 'n'] + rest) == Some(seq!['\n'] + text),
        json_decoded(seq!['\\', 'r'] + rest) == Some(seq!['\r'] + text),
        json_decoded(seq!['\\', 't'] + rest) == Some(seq!['\t'] + text),
{
    assert((seq![c] + rest).skip(1) =~= rest);
    assert((seq!['\\', c] + rest).skip(2) =~= rest);
    assert((seq!['\\', 'n'] + rest).skip(2) =~= rest);
    assert((seq!['\\', 'r'] + rest).skip(2) =~= rest);
    assert((seq!['\\', 't'] + rest).skip(2) =~= rest);
}

} // verus!
