//! Text as sequences of characters: comparing, trimming, searching, and writing numbers.

use vstd::prelude::*;

verus! {

/// `String::push` of the standard library appends the character.
pub assume_specification[ String::push ](string: &mut String, ch: char)
    ensures
        final(string)@ == old(string)@.push(ch),
;

/// Whether two texts hold the same characters.
pub fn same_text(left: &str, right: &str) -> (same: bool)
    ensures
        same == (left@ == right@),
{
    left.to_owned() == right.to_owned()
}

/// The characters of a text.
pub fn chars_of(text: &str) -> (chars: Vec<char>)
    ensures
        chars@ == text@,
{
    let mut chars: Vec<char> = Vec::new();
    for c in iter: text.chars()
        invariant
            iter.seq() == text@,
            chars@ == text@.take(iter.index()),
    {
        chars.push(c);
    }
    proof {
        assert(text@.take(text@.len() as int) =~= text@);
    }
    chars
}

/// The concatenation of two texts.
pub fn join(left: &str, right: &str) -> (text: String)
    ensures
        text@ == left@ + right@,
{
    let mut text = left.to_owned();
    text.append(right);
    text
}

/// The concatenation of three texts.
pub fn join3(first: &str, second: &str, third: &str) -> (text: String)
    ensures
        text@ == first@ + second@ + third@,
{
    let mut text = first.to_owned();
    text.append(second);
    text.append(third);
    text
}

// ---------------------------------------------------------------------------
// Order
// ---------------------------------------------------------------------------

/// Texts ordered character by character, by code point. It is the order of their UTF-8 bytes.
pub open spec fn text_less(left: Seq<char>, right: Seq<char>) -> bool
    decreases left.len(),
{
    if right.len() == 0 {
        false
    } else if left.len() == 0 {
        true
    } else if left[0] != right[0] {
        left[0] < right[0]
    } else {
        text_less(left.drop_first(), right.drop_first())
    }
}

/// No text is less than itself.
pub proof fn text_less_irreflexive(text: Seq<char>)
    ensures
        !text_less(text, text),
    decreases text.len(),
{
    if text.len() > 0 {
        text_less_irreflexive(text.drop_first());
    }
}

/// The order of texts is transitive.
pub proof fn text_less_transitive(a: Seq<char>, b: Seq<char>, c: Seq<char>)
    requires
        text_less(a, b),
        text_less(b, c),
    ensures
        text_less(a, c),
    decreases a.len(),
{
    if a.len() > 0 && a[0] == b[0] && b[0] == c[0] {
        text_less_transitive(a.drop_first(), b.drop_first(), c.drop_first());
    }
}

/// Two texts are equal or one is less than the other.
pub proof fn text_less_total(a: Seq<char>, b: Seq<char>)
    ensures
        a == b || text_less(a, b) || text_less(b, a),
    decreases a.len(),
{
    if a.len() > 0 && b.len() > 0 {
        if a[0] == b[0] {
            text_less_total(a.drop_first(), b.drop_first());
            if a.drop_first() == b.drop_first() {
                assert(a =~= seq![a[0]] + a.drop_first());
                assert(b =~= seq![b[0]] + b.drop_first());
            }
        }
    } else if a.len() == 0 && b.len() == 0 {
        assert(a =~= b);
    }
}

/// A common prefix does not decide the order of two texts.
proof fn text_less_skip(a: Seq<char>, b: Seq<char>, n: int)
    requires
        0 <= n <= a.len(),
        n <= b.len(),
        a.take(n) == b.take(n),
    ensures
        text_less(a, b) == text_less(a.skip(n), b.skip(n)),
    decreases n,
{
    if n == 0 {
        assert(a.skip(0) =~= a);
        assert(b.skip(0) =~= b);
    } else {
        assert(a.take(n)[0] == a[0] && b.take(n)[0] == b[0]);
        assert(a.drop_first().take(n - 1) =~= a.take(n).drop_first());
        assert(b.drop_first().take(n - 1) =~= b.take(n).drop_first());
        text_less_skip(a.drop_first(), b.drop_first(), n - 1);
        assert(a.drop_first().skip(n - 1) =~= a.skip(n));
        assert(b.drop_first().skip(n - 1) =~= b.skip(n));
    }
}

/// Whether `left` is less than `right`.
pub fn is_less(left: &str, right: &str) -> (less: bool)
    ensures
        less == text_less(left@, right@),
{
    let a = chars_of(left);
    let b = chars_of(right);
    let mut i: usize = 0;
    while i < a.len() && i < b.len() && a[i] == b[i]
        invariant
            i <= a.len(),
            i <= b.len(),
            a@.take(i as int) == b@.take(i as int),
        decreases a.len() - i,
    {
        proof {
            assert(a@.take(i + 1) =~= a@.take(i as int).push(a@[i as int]));
            assert(b@.take(i + 1) =~= b@.take(i as int).push(b@[i as int]));
        }
        i += 1;
    }
    proof {
        text_less_skip(a@, b@, i as int);
        if i < a@.len() && i < b@.len() {
            assert(a@.skip(i as int)[0] == a@[i as int] && b@.skip(i as int)[0] == b@[i as int]);
        }
    }
    if i == b.len() {
        false
    } else if i == a.len() {
        true
    } else {
        a[i] < b[i]
    }
}

// ---------------------------------------------------------------------------
// White space
// ---------------------------------------------------------------------------

/// The characters with Unicode's `White_Space` property.
pub open spec fn is_white(c: char) -> bool {
    ||| '\u{9}' <= c <= '\u{d}'
    ||| c == ' '
    ||| c == '\u{85}'
    ||| c == '\u{a0}'
    ||| c == '\u{1680}'
    ||| '\u{2000}' <= c <= '\u{200a}'
    ||| c == '\u{2028}'
    ||| c == '\u{2029}'
    ||| c == '\u{202f}'
    ||| c == '\u{205f}'
    ||| c == '\u{3000}'
}

/// `text` without the white space that it starts with.
pub open spec fn trimmed_start(text: Seq<char>) -> Seq<char>
    decreases text.len(),
{
    if text.len() > 0 && is_white(text[0]) {
        trimmed_start(text.drop_first())
    } else {
        text
    }
}

/// `text` without the white space that it ends with.
pub open spec fn trimmed_end(text: Seq<char>) -> Seq<char>
    decreases text.len(),
{
    if text.len() > 0 && is_white(text.last()) {
        trimmed_end(text.drop_last())
    } else {
        text
    }
}

/// `text` without the white space at both ends.
pub open spec fn trimmed(text: Seq<char>) -> Seq<char> {
    trimmed_end(trimmed_start(text))
}

fn white(c: char) -> (w: bool)
    ensures
        w == is_white(c),
{
    let n = c as u32;
    (0x9 <= n && n <= 0xd) || n == 0x20 || n == 0x85 || n == 0xa0 || n == 0x1680 || (0x2000 <= n
        && n <= 0x200a) || n == 0x2028 || n == 0x2029 || n == 0x202f || n == 0x205f || n == 0x3000
}

/// The text without the white space at both ends.
pub fn trim(text: &str) -> (short: String)
    ensures
        short@ == trimmed(text@),
{
    let chars = chars_of(text);
    let mut from: usize = 0;
    proof {
        assert(chars@.skip(0) =~= chars@);
    }
    while from < chars.len() && white(chars[from])
        invariant
            from <= chars.len(),
            trimmed_start(chars@) == trimmed_start(chars@.skip(from as int)),
        decreases chars.len() - from,
    {
        proof {
            assert(chars@.skip(from as int).drop_first() =~= chars@.skip(from + 1));
        }
        from += 1;
    }
    let ghost rest = chars@.skip(from as int);
    let mut to: usize = chars.len();
    proof {
        assert(trimmed_start(chars@) == rest);
        assert(chars@.subrange(from as int, to as int) =~= rest);
    }
    while to > from && white(chars[to - 1])
        invariant
            from <= to <= chars.len(),
            rest == chars@.skip(from as int),
            trimmed_end(rest) == trimmed_end(chars@.subrange(from as int, to as int)),
        decreases to,
    {
        proof {
            assert(chars@.subrange(from as int, to as int).drop_last() =~= chars@.subrange(
                from as int,
                to - 1,
            ));
        }
        to -= 1;
    }
    text.substring_char(from, to).to_owned()
}

/// A trimmed text neither starts nor ends with white space.
pub proof fn trimmed_ends_are_solid(text: Seq<char>)
    ensures
        trimmed(text).len() > 0 ==> !is_white(trimmed(text)[0]) && !is_white(trimmed(text).last()),
{
    trimmed_start_solid(text);
    trimmed_end_solid(trimmed_start(text));
}

/// A text that starts with something else than white space is not blank.
pub proof fn solid_start_is_not_blank(text: Seq<char>)
    requires
        text.len() > 0,
        !is_white(text[0]),
    ensures
        trimmed(text).len() > 0,
{
    trimmed_end_keeps_start(text);
}

proof fn trimmed_end_keeps_start(text: Seq<char>)
    requires
        text.len() > 0,
        !is_white(text[0]),
    ensures
        trimmed_end(text).len() > 0,
    decreases text.len(),
{
    if is_white(text.last()) {
        assert(text.drop_last()[0] == text[0]);
        trimmed_end_keeps_start(text.drop_last());
    }
}

proof fn trimmed_start_solid(text: Seq<char>)
    ensures
        trimmed_start(text).len() > 0 ==> !is_white(trimmed_start(text)[0]),
    decreases text.len(),
{
    if text.len() > 0 && is_white(text[0]) {
        trimmed_start_solid(text.drop_first());
    }
}

proof fn trimmed_end_solid(text: Seq<char>)
    ensures
        trimmed_end(text).len() > 0 ==> !is_white(trimmed_end(text).last()) && trimmed_end(text)[0]
            == text[0],
    decreases text.len(),
{
    if text.len() > 0 && is_white(text.last()) {
        trimmed_end_solid(text.drop_last());
    }
}

// ---------------------------------------------------------------------------
// Prefixes, suffixes and parts
// ---------------------------------------------------------------------------

/// Whether `text` begins with `prefix`.
pub open spec fn begins_with(text: Seq<char>, prefix: Seq<char>) -> bool {
    prefix.len() <= text.len() && text.take(prefix.len() as int) == prefix
}

/// Whether `text` ends with `suffix`.
pub open spec fn finishes_with(text: Seq<char>, suffix: Seq<char>) -> bool {
    suffix.len() <= text.len() && text.skip(text.len() - suffix.len()) == suffix
}

/// Whether `part` stands somewhere in `text`.
pub open spec fn holds_part(text: Seq<char>, part: Seq<char>) -> bool {
    exists|i: int| #[trigger] part_at(text, part, i)
}

/// Whether `part` stands in `text` at position `i`.
pub open spec fn part_at(text: Seq<char>, part: Seq<char>, i: int) -> bool {
    0 <= i <= text.len() - part.len() && text.subrange(i, i + part.len()) == part
}

fn chars_at(text: &Vec<char>, part: &Vec<char>, at: usize) -> (here: bool)
    requires
        at + part@.len() <= text@.len(),
    ensures
        here == part_at(text@, part@, at as int),
{
    let end = text.len();
    let mut i: usize = 0;
    while i < part.len()
        invariant
            i <= part.len(),
            at + part@.len() <= end,
            end == text@.len(),
            forall|j: int| 0 <= j < i ==> text@[at + j] == part@[j],
        decreases part.len() - i,
    {
        if text[at + i] != part[i] {
            proof {
                assert(text@.subrange(at as int, at + part@.len())[i as int] != part@[i as int]);
            }
            return false;
        }
        i += 1;
    }
    proof {
        assert(text@.subrange(at as int, at + part@.len()) =~= part@);
    }
    true
}

/// Whether `text` begins with `prefix`.
pub fn starts_with(text: &str, prefix: &str) -> (begins: bool)
    ensures
        begins == begins_with(text@, prefix@),
{
    let t = chars_of(text);
    let p = chars_of(prefix);
    if t.len() < p.len() {
        return false;
    }
    proof {
        assert(text@.subrange(0, 0 + prefix@.len() as int) =~= text@.take(prefix@.len() as int));
    }
    chars_at(&t, &p, 0)
}

/// What follows `prefix` in `text`, where `text` begins with it.
pub fn strip_prefix(text: &str, prefix: &str) -> (rest: Option<String>)
    ensures
        rest is Some == begins_with(text@, prefix@),
        rest matches Some(r) ==> r@ == text@.skip(prefix@.len() as int),
{
    if !starts_with(text, prefix) {
        return None;
    }
    let from = prefix.unicode_len();
    let to = text.unicode_len();
    proof {
        assert(text@.subrange(from as int, to as int) =~= text@.skip(prefix@.len() as int));
    }
    Some(text.substring_char(from, to).to_owned())
}

/// What precedes `suffix` in `text`, where `text` ends with it.
pub fn strip_suffix(text: &str, suffix: &str) -> (rest: Option<String>)
    ensures
        rest is Some == finishes_with(text@, suffix@),
        rest matches Some(r) ==> r@ == text@.take(text@.len() - suffix@.len()),
{
    let t = chars_of(text);
    let s = chars_of(suffix);
    if t.len() < s.len() {
        return None;
    }
    let to = t.len() - s.len();
    proof {
        assert(text@.subrange(to as int, to + suffix@.len()) =~= text@.skip(to as int));
    }
    if chars_at(&t, &s, to) {
        proof {
            assert(text@.subrange(0, to as int) =~= text@.take(to as int));
        }
        Some(text.substring_char(0, to).to_owned())
    } else {
        None
    }
}

/// Whether `part` stands somewhere in `text`.
pub fn contains(text: &str, part: &str) -> (found: bool)
    ensures
        found == holds_part(text@, part@),
{
    let t = chars_of(text);
    let p = chars_of(part);
    let mut i: usize = 0;
    while i <= t.len() && p.len() <= t.len() - i
        invariant
            i <= t@.len() + 1,
            t@ == text@,
            p@ == part@,
            forall|j: int| 0 <= j < i ==> !#[trigger] part_at(text@, part@, j),
        decreases t@.len() + 1 - i,
    {
        if chars_at(&t, &p, i) {
            return true;
        }
        if i == t.len() {
            return false;
        }
        i += 1;
    }
    false
}

// ---------------------------------------------------------------------------
// ASCII
// ---------------------------------------------------------------------------

/// The lower-case form of an ASCII letter; every other character unchanged.
pub open spec fn lower_ascii(c: char) -> char {
    if 'A' <= c <= 'Z' {
        (c as u32 + 32) as char
    } else {
        c
    }
}

/// `text` with its ASCII letters in lower case.
pub open spec fn lowered_ascii(text: Seq<char>) -> Seq<char> {
    Seq::new(text.len(), |i: int| lower_ascii(text[i]))
}

/// Whether `c` is an ASCII letter or digit.
pub open spec fn is_ascii_word(c: char) -> bool {
    'a' <= c <= 'z' || 'A' <= c <= 'Z' || '0' <= c <= '9'
}

/// Whether `c` is a hexadecimal digit, in either case.
pub open spec fn is_hex_digit(c: char) -> bool {
    '0' <= c <= '9' || 'a' <= c <= 'f' || 'A' <= c <= 'F'
}

/// The text with its ASCII letters in lower case.
pub fn to_ascii_lowercase(text: &str) -> (lower: String)
    ensures
        lower@ == lowered_ascii(text@),
{
    let chars = chars_of(text);
    let mut lower = String::new();
    let mut i: usize = 0;
    while i < chars.len()
        invariant
            i <= chars.len(),
            lower@.len() == i,
            forall|j: int| 0 <= j < i ==> #[trigger] lower@[j] == lower_ascii(chars@[j]),
        decreases chars.len() - i,
    {
        let c = chars[i];
        if 'A' <= c && c <= 'Z' {
            lower.push((c as u8 + 32) as char);
        } else {
            lower.push(c);
        }
        i += 1;
    }
    proof {
        assert(lower@ =~= lowered_ascii(text@));
    }
    lower
}

// ---------------------------------------------------------------------------
// Numbers
// ---------------------------------------------------------------------------

/// The character of a digit.
pub open spec fn digit_char(digit: nat) -> char {
    ('0' as u32 + digit) as char
}

/// The digits of `n` in base ten, without leading zeros.
pub open spec fn decimal(n: nat) -> Seq<char>
    decreases n,
{
    if n < 10 {
        seq![digit_char(n)]
    } else {
        decimal(n / 10).push(digit_char(n % 10))
    }
}

/// The number that a sequence of digits writes.
pub open spec fn decimal_value(digits: Seq<char>) -> int
    decreases digits.len(),
{
    if digits.len() == 0 {
        0
    } else {
        10 * decimal_value(digits.drop_last()) + (digits.last() as u32 - '0' as u32)
    }
}

/// The digits of a number determine it.
pub proof fn decimal_reads_back(n: nat)
    ensures
        decimal_value(decimal(n)) == n,
    decreases n,
{
    if n >= 10 {
        decimal_reads_back(n / 10);
        assert(decimal(n).drop_last() =~= decimal(n / 10));
        assert(decimal(n).last() == digit_char(n % 10));
    } else {
        assert(decimal(n).drop_last() =~= Seq::<char>::empty());
        assert(decimal(n).last() == digit_char(n));
        assert(decimal_value(decimal(n).drop_last()) == 0);
    }
}

fn digit(d: u8) -> (c: char)
    requires
        d < 10,
    ensures
        c == digit_char(d as nat),
{
    (48 + d) as char
}

/// The digits of `n` in base ten.
pub fn decimal_text(n: u64) -> (text: String)
    ensures
        text@ == decimal(n as nat),
    decreases n,
{
    let mut text = if n < 10 {
        String::new()
    } else {
        decimal_text(n / 10)
    };
    text.push(digit((n % 10) as u8));
    proof {
        assert(text@ =~= decimal(n as nat));
    }
    text
}

}
