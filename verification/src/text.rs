//! Character sequences: the text operations that the format engine is built on.
//!
//! Every operation has a mathematical model over `Seq<char>` and an executable
//! counterpart over `Vec<char>` that is proved equal to it.

use vstd::prelude::*;

verus! {

/// The two-character token made of `%` and `letter`.
pub open spec fn token(letter: char) -> Seq<char> {
    seq!['%', letter]
}

/// `pattern` stands in `text` at index `at`.
pub open spec fn occurs_at(text: Seq<char>, pattern: Seq<char>, at: int) -> bool {
    &&& 0 <= at
    &&& at + pattern.len() <= text.len()
    &&& text.subrange(at, at + pattern.len()) == pattern
}

/// `pattern` stands somewhere in `text`.
pub open spec fn contains(text: Seq<char>, pattern: Seq<char>) -> bool {
    exists|at: int| occurs_at(text, pattern, at)
}

/// `text` with every occurrence of `pattern` replaced by `with`. Occurrences are
/// found from left to right and do not overlap; what was put in is not searched
/// again. An empty pattern leaves the text as it is.
pub open spec fn replace_all(text: Seq<char>, pattern: Seq<char>, with: Seq<char>) -> Seq<char>
    decreases text.len(),
{
    if pattern.len() == 0 || text.len() < pattern.len() {
        text
    } else if occurs_at(text, pattern, 0) {
        with + replace_all(text.skip(pattern.len() as int), pattern, with)
    } else {
        seq![text[0]] + replace_all(text.skip(1), pattern, with)
    }
}

/// The characters with the Unicode property `White_Space`.
pub open spec fn spec_is_whitespace(c: char) -> bool {
    let code = c as u32;
    ||| 0x09 <= code <= 0x0D
    ||| code == 0x20
    ||| code == 0x85
    ||| code == 0xA0
    ||| code == 0x1680
    ||| 0x2000 <= code <= 0x200A
    ||| code == 0x2028
    ||| code == 0x2029
    ||| code == 0x202F
    ||| code == 0x205F
    ||| code == 0x3000
}

/// `text` without its leading whitespace.
pub open spec fn trim_start(text: Seq<char>) -> Seq<char>
    decreases text.len(),
{
    if text.len() > 0 && spec_is_whitespace(text[0]) {
        trim_start(text.skip(1))
    } else {
        text
    }
}

/// `text` without its trailing whitespace.
pub open spec fn trim_end(text: Seq<char>) -> Seq<char>
    decreases text.len(),
{
    if text.len() > 0 && spec_is_whitespace(text.last()) {
        trim_end(text.drop_last())
    } else {
        text
    }
}

/// `text` without its leading and trailing whitespace.
pub open spec fn trim(text: Seq<char>) -> Seq<char> {
    trim_end(trim_start(text))
}

/// The character of the decimal digit `digit`.
pub open spec fn digit_char(digit: int) -> char {
    (0x30 + digit) as char
}

/// `value` in decimal, without padding: one digit for zero, no leading zero otherwise.
pub open spec fn decimal(value: nat) -> Seq<char>
    decreases value,
{
    if value < 10 {
        seq![digit_char(value as int)]
    } else {
        decimal(value / 10).push(digit_char((value % 10) as int))
    }
}

/// `count` times the character `0`.
pub open spec fn zeros(count: nat) -> Seq<char> {
    Seq::new(count, |i: int| '0')
}

/// `value` in decimal, with zeros put in front until it is `width` characters long.
/// A value with more digits than `width` is not cut.
pub open spec fn zero_padded(value: nat, width: nat) -> Seq<char> {
    let digits = decimal(value);
    if digits.len() < width {
        zeros((width - digits.len()) as nat) + digits
    } else {
        digits
    }
}

/// A character is a decimal digit.
pub open spec fn is_digit(c: char) -> bool {
    0x30 <= c as u32 <= 0x39
}

/// Every character of `text` is a decimal digit.
pub open spec fn all_digits(text: Seq<char>) -> bool {
    forall|i: int| 0 <= i < text.len() ==> is_digit(#[trigger] text[i])
}

/// A text in which the pattern does not occur is left as it is.
pub proof fn lemma_replace_absent(text: Seq<char>, pattern: Seq<char>, with: Seq<char>)
    requires
        !contains(text, pattern),
    ensures
        replace_all(text, pattern, with) == text,
    decreases text.len(),
{
    if pattern.len() == 0 || text.len() < pattern.len() {
    } else {
        assert(!occurs_at(text, pattern, 0));
        let rest = text.skip(1);
        assert(!contains(rest, pattern)) by {
            if contains(rest, pattern) {
                let at = choose|at: int| occurs_at(rest, pattern, at);
                assert(text.subrange(at + 1, at + 1 + pattern.len()) == rest.subrange(
                    at,
                    at + pattern.len(),
                ));
                assert(occurs_at(text, pattern, at + 1));
            }
        }
        lemma_replace_absent(rest, pattern, with);
        assert(seq![text[0]] + rest == text);
    }
}

/// No token occurs in a text made of digits.
pub proof fn lemma_digits_hold_no_token(text: Seq<char>, letter: char)
    requires
        all_digits(text),
    ensures
        !contains(text, token(letter)),
{
    if contains(text, token(letter)) {
        let at = choose|at: int| occurs_at(text, token(letter), at);
        assert(text.subrange(at, at + 2)[0] == '%');
        assert(is_digit(text[at]));
    }
}

/// The decimal form of a number is made of digits and is not empty.
pub proof fn lemma_decimal_digits(value: nat)
    ensures
        all_digits(decimal(value)),
        decimal(value).len() >= 1,
    decreases value,
{
    if value >= 10 {
        lemma_decimal_digits(value / 10);
    }
}

/// What a replacement by digits begins with: a digit, where the text began with
/// the pattern, and else the character that the text began with.
proof fn lemma_replaced_head(text: Seq<char>, letter: char, with: Seq<char>)
    requires
        all_digits(with),
        with.len() > 0,
        text.len() > 0,
    ensures
        replace_all(text, token(letter), with).len() > 0,
        occurs_at(text, token(letter), 0) ==> is_digit(replace_all(text, token(letter), with)[0]),
        !occurs_at(text, token(letter), 0) ==> replace_all(text, token(letter), with)[0]
            == text[0],
{
    if occurs_at(text, token(letter), 0) {
        assert(is_digit(with[0]));
    }
}

/// Every occurrence is replaced. Once a token has been replaced by digits, it
/// stands nowhere in the text: none was passed over, and the digits made no new
/// one.
pub proof fn lemma_replaced_everywhere(text: Seq<char>, letter: char, with: Seq<char>)
    requires
        all_digits(with),
        with.len() > 0,
        !is_digit(letter),
    ensures
        !contains(replace_all(text, token(letter), with), token(letter)),
    decreases text.len(),
{
    let pattern = token(letter);
    let out = replace_all(text, pattern, with);
    if text.len() < 2 {
        assert forall|at: int| !occurs_at(out, pattern, at) by {}
    } else if occurs_at(text, pattern, 0) {
        let tail = replace_all(text.skip(2), pattern, with);
        lemma_replaced_everywhere(text.skip(2), letter, with);
        assert forall|at: int| !occurs_at(out, pattern, at) by {
            if occurs_at(out, pattern, at) {
                let found = out.subrange(at, at + 2);
                assert(found[0] == '%' && found[1] == letter);
                if at < with.len() {
                    assert(is_digit(with[at]));
                } else {
                    assert(tail.subrange(at - with.len(), at - with.len() + 2) == found);
                    assert(occurs_at(tail, pattern, at - with.len()));
                }
            }
        }
    } else {
        let rest = text.skip(1);
        let tail = replace_all(rest, pattern, with);
        lemma_replaced_everywhere(rest, letter, with);
        lemma_replaced_head(rest, letter, with);
        assert forall|at: int| !occurs_at(out, pattern, at) by {
            if occurs_at(out, pattern, at) {
                let found = out.subrange(at, at + 2);
                assert(found[0] == '%' && found[1] == letter);
                if at == 0 {
                    assert(out[1] == tail[0]);
                    if !occurs_at(rest, pattern, 0) {
                        assert(text.subrange(0, 2) == pattern);
                    }
                } else {
                    assert(tail.subrange(at - 1, at + 1) == found);
                    assert(occurs_at(tail, pattern, at - 1));
                }
            }
        }
    }
}

/// The characters of a string slice.
pub fn chars_of(text: &str) -> (chars: Vec<char>)
    ensures
        chars@ == text@,
{
    let mut chars: Vec<char> = Vec::new();
    for c in it: text.chars()
        invariant
            it.seq() == text@,
            chars@ == it.seq().take(it.index()),
    {
        chars.push(c);
    }
    chars
}

/// `String::push` of std: the character is added at the end of the string, and
/// what the string held before stays in front of it.
pub assume_specification[ String::push ](text: &mut String, ch: char)
    ensures
        final(text)@ == old(text)@.push(ch),
;

/// The string made of `chars`.
pub fn string_of(chars: &Vec<char>) -> (text: String)
    ensures
        text@ == chars@,
{
    let mut text = String::new();
    let mut i: usize = 0;
    while i < chars.len()
        invariant
            i <= chars.len(),
            text@ == chars@.take(i as int),
        decreases chars.len() - i,
    {
        text.push(chars[i]);
        i += 1;
    }
    text
}

/// Whether `c` is whitespace: whether it has the Unicode property `White_Space`.
pub fn is_whitespace(c: char) -> (white: bool)
    ensures
        white == spec_is_whitespace(c),
{
    let code: u32 = c as u32;
    (0x09 <= code && code <= 0x0D) || code == 0x20 || code == 0x85 || code == 0xA0 || code
        == 0x1680 || (0x2000 <= code && code <= 0x200A) || code == 0x2028 || code == 0x2029 || code
        == 0x202F || code == 0x205F || code == 0x3000
}

/// Adds the characters of `tail` at the end of `out`.
pub fn append_chars(out: &mut Vec<char>, tail: &Vec<char>)
    ensures
        final(out)@ == old(out)@ + tail@,
{
    let mut i: usize = 0;
    while i < tail.len()
        invariant
            i <= tail.len(),
            out@ == old(out)@ + tail@.take(i as int),
        decreases tail.len() - i,
    {
        out.push(tail[i]);
        i += 1;
    }
}

/// Whether the token of `letter` stands somewhere in `text`.
pub fn contains_token(text: &Vec<char>, letter: char) -> (found: bool)
    ensures
        found == contains(text@, token(letter)),
{
    let mut i: usize = 0;
    while i < text.len()
        invariant
            i <= text.len(),
            forall|at: int| 0 <= at < i ==> !occurs_at(text@, token(letter), at),
        decreases text.len() - i,
    {
        if i + 1 < text.len() && text[i] == '%' && text[i + 1] == letter {
            assert(text@.subrange(i as int, i + 2) == token(letter));
            assert(occurs_at(text@, token(letter), i as int));
            return true;
        }
        assert(!occurs_at(text@, token(letter), i as int)) by {
            if occurs_at(text@, token(letter), i as int) {
                let found = text@.subrange(i as int, i + 2);
                assert(found[0] == '%' && found[1] == letter);
            }
        }
        i += 1;
    }
    false
}

/// `text` with every token of `letter` replaced by `with`.
pub fn replace_token(text: &Vec<char>, letter: char, with: &Vec<char>) -> (out: Vec<char>)
    ensures
        out@ == replace_all(text@, token(letter), with@),
{
    let mut out: Vec<char> = Vec::new();
    let mut i: usize = 0;
    proof {
        assert(text@.skip(0) == text@);
        let whole = replace_all(text@, token(letter), with@);
        assert(Seq::<char>::empty() + whole == whole);
    }
    while i < text.len()
        invariant
            i <= text.len(),
            out@ + replace_all(text@.skip(i as int), token(letter), with@) == replace_all(
                text@,
                token(letter),
                with@,
            ),
        decreases text.len() - i,
    {
        let ghost rest = text@.skip(i as int);
        let ghost before = out@;
        if i + 1 < text.len() && text[i] == '%' && text[i + 1] == letter {
            append_chars(&mut out, with);
            proof {
                assert(rest.subrange(0, 2) == token(letter));
                assert(rest.skip(2) == text@.skip(i + 2));
                let tail = replace_all(rest.skip(2), token(letter), with@);
                assert((before + with@) + tail == before + (with@ + tail));
            }
            i += 2;
        } else {
            out.push(text[i]);
            proof {
                assert(rest.skip(1) == text@.skip(i + 1));
                if rest.len() >= 2 {
                    assert(!occurs_at(rest, token(letter), 0)) by {
                        if occurs_at(rest, token(letter), 0) {
                            let found = rest.subrange(0, 2);
                            assert(found[0] == '%' && found[1] == letter);
                        }
                    }
                    let tail = replace_all(rest.skip(1), token(letter), with@);
                    assert(before.push(text@[i as int]) + tail == before + (seq![rest[0]] + tail));
                } else {
                    assert(rest.skip(1).len() == 0);
                    assert(replace_all(rest.skip(1), token(letter), with@) == rest.skip(1));
                    assert(before.push(text@[i as int]) + rest.skip(1) == before + rest);
                }
            }
            i += 1;
        }
    }
    proof {
        assert(text@.skip(i as int).len() == 0);
        assert(out@ + text@.skip(i as int) == out@);
    }
    out
}

/// `text` without its leading and trailing whitespace.
pub fn trim_chars(text: &Vec<char>) -> (out: Vec<char>)
    ensures
        out@ == trim(text@),
{
    let mut start: usize = 0;
    assert(text@.skip(0) == text@);
    while start < text.len() && is_whitespace(text[start])
        invariant
            start <= text.len(),
            trim_start(text@) == trim_start(text@.skip(start as int)),
        decreases text.len() - start,
    {
        proof {
            assert(text@.skip(start as int).skip(1) == text@.skip(start + 1));
        }
        start += 1;
    }
    proof {
        let rest = text@.skip(start as int);
        assert(trim_start(rest) == rest);
        assert(rest == text@.subrange(start as int, text@.len() as int));
    }
    let mut end: usize = text.len();
    while end > start && is_whitespace(text[end - 1])
        invariant
            start <= end <= text.len(),
            trim(text@) == trim_end(text@.subrange(start as int, end as int)),
        decreases end - start,
    {
        proof {
            assert(text@.subrange(start as int, end as int).drop_last() == text@.subrange(
                start as int,
                end - 1,
            ));
        }
        end -= 1;
    }
    let mut out: Vec<char> = Vec::new();
    let mut i: usize = start;
    while i < end
        invariant
            start <= i <= end <= text.len(),
            out@ == text@.subrange(start as int, i as int),
        decreases end - i,
    {
        out.push(text[i]);
        i += 1;
    }
    proof {
        let kept = text@.subrange(start as int, end as int);
        assert(trim_end(kept) == kept);
    }
    out
}

/// Adds `value` in decimal at the end of `out`.
pub fn push_decimal(out: &mut Vec<char>, value: u128)
    ensures
        final(out)@ == old(out)@ + decimal(value as nat),
    decreases value,
{
    if value >= 10 {
        push_decimal(out, value / 10);
    }
    let digit: u8 = (value % 10) as u8;
    let ghost before = out@;
    out.push((0x30u8 + digit) as char);
    proof {
        if value >= 10 {
            let head = decimal((value / 10) as nat);
            assert(before == old(out)@ + head);
            assert((old(out)@ + head).push(digit_char(digit as int)) == old(out)@ + head.push(
                digit_char(digit as int),
            ));
        } else {
            assert(old(out)@.push(digit_char(digit as int)) == old(out)@ + seq![
                digit_char(digit as int),
            ]);
        }
    }
}

/// `value` in decimal, without padding.
pub fn decimal_chars(value: u128) -> (out: Vec<char>)
    ensures
        out@ == decimal(value as nat),
{
    let mut out: Vec<char> = Vec::new();
    push_decimal(&mut out, value);
    assert(Seq::<char>::empty() + decimal(value as nat) == decimal(value as nat));
    out
}

/// `value` in decimal, with zeros in front up to `width` characters.
pub fn zero_padded_chars(value: u128, width: usize) -> (out: Vec<char>)
    ensures
        out@ == zero_padded(value as nat, width as nat),
{
    let digits = decimal_chars(value);
    let mut out: Vec<char> = Vec::new();
    let mut have: usize = digits.len();
    while have < width
        invariant
            digits@.len() <= have,
            have <= width || have == digits@.len(),
            out@ == zeros((have - digits@.len()) as nat),
        decreases width - have,
    {
        out.push('0');
        have += 1;
        assert(out@ == zeros((have - digits@.len()) as nat));
    }
    let ghost padding = out@;
    append_chars(&mut out, &digits);
    proof {
        if digits@.len() >= width {
            assert(padding + digits@ == digits@);
        }
    }
    out
}

} // verus!
