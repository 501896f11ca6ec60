//! Characters and strings: the small operations the other modules are built from.

use vstd::prelude::*;
#[allow(unused_imports)]
use vstd::string::*;

verus! {

/// `String::push` appends one character at the end.
pub assume_specification[ String::push ](s: &mut String, c: char)
    ensures
        final(s)@ == old(s)@.push(c),
;

/// `String::push_str` appends a string at the end.
pub assume_specification[ String::push_str ](s: &mut String, other: &str)
    ensures
        final(s)@ == old(s)@ + other@,
;

/// `str`'s `==` compares the characters.
pub assume_specification[ <str as PartialEq<str>>::eq ](a: &str, b: &str) -> (r: bool)
    ensures
        r == (a@ == b@),
;

/// A copy of a string, where there is one.
pub fn copied_opt(s: &Option<String>) -> (r: Option<String>)
    ensures
        opt(r) == opt(*s),
{
    match s {
        Some(s) => Some(s.clone()),
        None => None,
    }
}

/// The texts of a list.
pub open spec fn strings(list: Seq<String>) -> Seq<Seq<char>> {
    Seq::new(list.len(), |i: int| list[i]@)
}

/// A copy of a list of texts.
pub fn copied(list: &Vec<String>) -> (r: Vec<String>)
    ensures
        strings(r@) == strings(list@),
{
    let mut out: Vec<String> = Vec::new();
    let mut i: usize = 0;
    while i < list.len()
        invariant
            i <= list@.len(),
            out@.len() == i,
            forall|k: int| 0 <= k < i ==> (#[trigger] out@[k])@ == list@[k]@,
        decreases list@.len() - i,
    {
        out.push(list[i].clone());
        i += 1;
    }
    assert(strings(out@) =~= strings(list@));
    out
}

/// The characters of an optional string.
pub open spec fn opt(s: Option<String>) -> Option<Seq<char>> {
    match s {
        Some(t) => Some(t@),
        None => None,
    }
}

/// The characters of a string, one per element.
pub fn chars_of(s: &str) -> (r: Vec<char>)
    ensures
        r@ == s@,
{
    let mut out: Vec<char> = Vec::new();
    for c in it: s.chars()
        invariant
            out@ == s@.take(it.index()),
            it.seq() == s@,
    {
        out.push(c);
    }
    assert(s@.take(s@.len() as int) =~= s@);
    out
}

/// Whether two strings hold the same characters.
pub fn same(a: &str, b: &str) -> (r: bool)
    ensures
        r == (a@ == b@),
{
    *a == *b
}

/// Two strings joined.
pub fn concat(a: &str, b: &str) -> (r: String)
    ensures
        r@ == a@ + b@,
{
    let mut out = a.to_owned();
    out.push_str(b);
    out
}

/// Three strings joined.
pub fn concat3(a: &str, b: &str, c: &str) -> (r: String)
    ensures
        r@ == a@ + b@ + c@,
{
    let mut out = a.to_owned();
    out.push_str(b);
    out.push_str(c);
    out
}

/// Whether a character is white space: the characters with Unicode's property `White_Space`.
pub open spec fn white(c: char) -> bool {
    ||| 0x9 <= c as int <= 0xd
    ||| c as int == 0x20
    ||| c as int == 0x85
    ||| c as int == 0xa0
    ||| c as int == 0x1680
    ||| 0x2000 <= c as int <= 0x200a
    ||| c as int == 0x2028
    ||| c as int == 0x2029
    ||| c as int == 0x202f
    ||| c as int == 0x205f
    ||| c as int == 0x3000
}

/// `char::is_whitespace` tells the characters with Unicode's property `White_Space`.
pub assume_specification[ char::is_whitespace ](c: char) -> (r: bool)
    ensures
        r == white(c),
;

/// A string in lower case, by Unicode's rules.
pub uninterp spec fn lowercase(s: Seq<char>) -> Seq<char>;

/// `str::to_lowercase` follows Unicode's rules, which do not depend on a language.
pub assume_specification[ str::to_lowercase ](s: &str) -> (r: String)
    ensures
        r@ == lowercase(s@),
;

/// Where, from `i` on, the first character that is not white space stands.
pub open spec fn text_start(s: Seq<char>, i: int) -> int
    decreases s.len() - i,
{
    if 0 <= i < s.len() && white(s[i]) {
        text_start(s, i + 1)
    } else {
        i
    }
}

/// Where, from `i` down, the last character that is not white space ends.
pub open spec fn text_end(s: Seq<char>, i: int) -> int
    decreases i,
{
    if 0 < i <= s.len() && white(s[i - 1]) {
        text_end(s, i - 1)
    } else {
        i
    }
}

/// A string without the white space around it.
pub open spec fn trimmed(s: Seq<char>) -> Seq<char> {
    let end = text_end(s, s.len() as int);
    let start = text_start(s.take(end), 0);
    s.subrange(start, end)
}

/// Where trimming cuts.
pub proof fn lemma_trim_bounds(s: Seq<char>)
    ensures
        0 <= text_end(s, s.len() as int) <= s.len(),
        0 <= text_start(s.take(text_end(s, s.len() as int)), 0) <= text_end(s, s.len() as int),
{
    lemma_text_end(s, s.len() as int);
    lemma_text_start(s.take(text_end(s, s.len() as int)), 0);
}

proof fn lemma_text_end(s: Seq<char>, i: int)
    requires
        0 <= i <= s.len(),
    ensures
        0 <= text_end(s, i) <= i,
    decreases i,
{
    if 0 < i && white(s[i - 1]) {
        lemma_text_end(s, i - 1);
    }
}

proof fn lemma_text_start(s: Seq<char>, i: int)
    requires
        0 <= i <= s.len(),
    ensures
        i <= text_start(s, i) <= s.len(),
    decreases s.len() - i,
{
    if i < s.len() && white(s[i]) {
        lemma_text_start(s, i + 1);
    }
}

/// Where trimming cuts a list of characters.
fn trim_bounds(chars: &Vec<char>) -> (r: (usize, usize))
    ensures
        r.1 == text_end(chars@, chars@.len() as int),
        r.0 == text_start(chars@.take(r.1 as int), 0),
        r.0 <= r.1 <= chars@.len(),
{
    let mut end: usize = chars.len();
    while end > 0 && chars[end - 1].is_whitespace()
        invariant
            end <= chars@.len(),
            text_end(chars@, chars@.len() as int) == text_end(chars@, end as int),
        decreases end,
    {
        end -= 1;
    }
    let ghost front = chars@.take(end as int);
    let mut start: usize = 0;
    while start < end && chars[start].is_whitespace()
        invariant
            start <= end <= chars@.len(),
            front == chars@.take(end as int),
            text_start(front, 0) == text_start(front, start as int),
        decreases end - start,
    {
        start += 1;
    }
    (start, end)
}

/// A string without the white space around it.
pub fn trim(s: &str) -> (r: &str)
    ensures
        r@ == trimmed(s@),
{
    let chars = chars_of(s);
    let (start, end) = trim_bounds(&chars);
    s.substring_char(start, end)
}

/// Whether a string is nothing but white space.
pub fn is_blank(s: &str) -> (r: bool)
    ensures
        r == (trimmed(s@).len() == 0),
{
    let chars = chars_of(s);
    let (start, end) = trim_bounds(&chars);
    start == end
}

/// Whether `needle` stands in `hay` at `i`.
pub open spec fn stands_at(hay: Seq<char>, needle: Seq<char>, i: int) -> bool {
    0 <= i && i + needle.len() <= hay.len() && hay.subrange(i, i + needle.len()) == needle
}

/// Whether `needle` stands somewhere in `hay`.
pub open spec fn found_in(hay: Seq<char>, needle: Seq<char>) -> bool {
    exists|i: int| #[trigger] stands_at(hay, needle, i)
}

/// Whether `needle` stands in `hay` at `i`.
fn stands_here(hay: &Vec<char>, needle: &Vec<char>, i: usize) -> (r: bool)
    requires
        i + needle@.len() <= hay@.len(),
    ensures
        r == stands_at(hay@, needle@, i as int),
{
    let total: usize = hay.len();
    let mut j: usize = 0;
    while j < needle.len()
        invariant
            i + needle@.len() <= hay@.len(),
            hay@.len() == total,
            j <= needle@.len(),
            forall|m: int| 0 <= m < j ==> hay@[i + m] == needle@[m],
        decreases needle@.len() - j,
    {
        if hay[i + j] != needle[j] {
            assert(hay@.subrange(i as int, i + needle@.len())[j as int] == hay@[i + j]);
            return false;
        }
        j += 1;
    }
    assert(hay@.subrange(i as int, i + needle@.len()) =~= needle@);
    true
}

/// Whether `needle` stands somewhere in `hay`.
pub fn contains(hay: &str, needle: &str) -> (r: bool)
    ensures
        r == found_in(hay@, needle@),
{
    let h = chars_of(hay);
    let n = chars_of(needle);
    if n.len() > h.len() {
        assert forall|i: int| !#[trigger] stands_at(hay@, needle@, i) by {}
        return false;
    }
    let last: usize = h.len() - n.len();
    let mut i: usize = 0;
    while i < last
        invariant
            h@ == hay@,
            n@ == needle@,
            last == h@.len() - n@.len(),
            i <= last,
            forall|k: int| 0 <= k < i ==> !#[trigger] stands_at(hay@, needle@, k),
        decreases last - i,
    {
        if stands_here(&h, &n, i) {
            return true;
        }
        i += 1;
    }
    let r = stands_here(&h, &n, last);
    if !r {
        assert forall|k: int| !#[trigger] stands_at(hay@, needle@, k) by {}
    }
    r
}

/// An upper-case letter of ASCII made lower case; other characters stay.
pub open spec fn ascii_lower_char(c: char) -> char {
    if 'A' <= c && c <= 'Z' {
        (c as u32 + 32) as char
    } else {
        c
    }
}

/// A string with the letters of ASCII in lower case.
pub open spec fn ascii_lower(s: Seq<char>) -> Seq<char> {
    s.map_values(|c: char| ascii_lower_char(c))
}

/// A string with the letters of ASCII in lower case.
pub fn to_ascii_lower(s: &str) -> (r: String)
    ensures
        r@ == ascii_lower(s@),
{
    let chars = chars_of(s);
    let mut out = String::new();
    let mut i: usize = 0;
    while i < chars.len()
        invariant
            i <= chars@.len(),
            chars@ == s@,
            out@ == ascii_lower(s@).take(i as int),
        decreases chars@.len() - i,
    {
        let c = chars[i];
        let lower = if 'A' <= c && c <= 'Z' {
            (c as u8 + 32) as char
        } else {
            c
        };
        assert(lower == ascii_lower_char(c));
        out.push(lower);
        i += 1;
        assert(ascii_lower(s@).take(i as int) =~= ascii_lower(s@).take(i - 1).push(lower));
    }
    assert(ascii_lower(s@).take(i as int) =~= ascii_lower(s@));
    out
}

/// A digit as a character.
pub open spec fn digit(d: nat) -> char {
    (('0' as nat) + d) as char
}

/// A number in decimal.
pub open spec fn decimal(n: nat) -> Seq<char>
    decreases n,
{
    if n < 10 {
        seq![digit(n)]
    } else {
        decimal(n / 10).push(digit(n % 10))
    }
}

/// A number in decimal.
pub fn to_decimal(n: u128) -> (r: String)
    ensures
        r@ == decimal(n as nat),
    decreases n,
{
    if n < 10 {
        let mut out = String::new();
        out.push((48 + n as u8) as char);
        assert(out@ =~= decimal(n as nat));
        out
    } else {
        let mut out = to_decimal(n / 10);
        out.push((48 + (n % 10) as u8) as char);
        out
    }
}

/// Whether a character is a decimal digit.
pub open spec fn is_digit(c: char) -> bool {
    '0' <= c && c <= '9'
}

/// Whether a string is digits alone.
pub open spec fn all_digits(s: Seq<char>) -> bool {
    forall|i: int| 0 <= i < s.len() ==> is_digit(#[trigger] s[i])
}

/// The value of digits.
pub open spec fn value(s: Seq<char>) -> nat
    decreases s.len(),
{
    if s.len() == 0 {
        0
    } else {
        10 * value(s.drop_last()) + (s.last() as nat - '0' as nat) as nat
    }
}

/// The number that a string spells: digits, after a plus sign or none, of a value of at most
/// `max`.
pub open spec fn number(s: Seq<char>, max: nat) -> Option<nat> {
    let digits = if s.len() > 0 && s[0] == '+' {
        s.skip(1)
    } else {
        s
    };
    if digits.len() > 0 && all_digits(digits) && value(digits) <= max {
        Some(value(digits))
    } else {
        None
    }
}

proof fn lemma_value_grows(s: Seq<char>, i: int)
    requires
        0 <= i <= s.len(),
        all_digits(s),
    ensures
        value(s.take(i)) <= value(s),
    decreases s.len() - i,
{
    if i < s.len() {
        lemma_value_grows(s, i + 1);
        assert(s.take(i + 1).drop_last() =~= s.take(i));
    } else {
        assert(s.take(i) =~= s);
    }
}

/// The number that a string spells, if it is at most `max`.
pub fn parse_number(s: &str, max: u64) -> (r: Option<u64>)
    ensures
        match r {
            Some(n) => number(s@, max as nat) == Some(n as nat),
            None => number(s@, max as nat) is None,
        },
{
    let chars = chars_of(s);
    let skip: usize = if chars.len() > 0 && chars[0] == '+' {
        1
    } else {
        0
    };
    let ghost digits = s@.skip(skip as int);
    assert(s@.skip(0) =~= s@);
    if chars.len() == skip {
        return None;
    }
    let mut n: u64 = 0;
    let mut i: usize = skip;
    assert(digits.take(0) =~= Seq::empty());
    while i < chars.len()
        invariant
            skip <= i <= chars@.len(),
            skip <= 1,
            chars@ == s@,
            digits == s@.skip(skip as int),
            digits == (if s@.len() > 0 && s@[0] == '+' {
                s@.skip(1)
            } else {
                s@
            }),
            n == value(digits.take(i - skip)),
            n <= max,
            forall|k: int| 0 <= k < i - skip ==> is_digit(#[trigger] digits[k]),
        decreases chars@.len() - i,
    {
        let c = chars[i];
        assert(digits[i - skip] == c);
        if !('0' <= c && c <= '9') {
            return None;
        }
        let d: u64 = (c as u32 - 48) as u64;
        proof {
            let more = digits.take(i - skip + 1);
            assert(more.drop_last() =~= digits.take(i - skip));
            assert(more.last() == c);
            assert(value(more) == 10 * n + d);
            if all_digits(digits) {
                lemma_value_grows(digits, i - skip + 1);
            }
        }
        if d > max || n > max / 10 || n * 10 > max - d {
            return None;
        }
        n = n * 10 + d;
        i += 1;
    }
    assert(digits.take(i - skip) =~= digits);
    Some(n)
}

proof fn lemma_decimal(n: nat)
    ensures
        decimal(n).len() > 0,
        all_digits(decimal(n)),
        value(decimal(n)) == n,
    decreases n,
{
    if n < 10 {
        assert(decimal(n).drop_last() =~= Seq::<char>::empty());
        assert(value(decimal(n).drop_last()) == 0);
    } else {
        lemma_decimal(n / 10);
        let s = decimal(n);
        assert(s.drop_last() =~= decimal(n / 10));
        assert(s.last() == digit(n % 10));
        assert forall|i: int| 0 <= i < s.len() implies is_digit(#[trigger] s[i]) by {
            if i < s.len() - 1 {
                assert(s[i] == decimal(n / 10)[i]);
            }
        }
    }
}

/// A number written in decimal reads back as that number.
pub proof fn law_decimal_reads_back(n: nat, max: nat)
    requires
        n <= max,
    ensures
        number(decimal(n), max) == Some(n),
        all_digits(decimal(n)),
        decimal(n).len() > 0,
{
    lemma_decimal(n);
    assert(is_digit(decimal(n)[0]));
}

/// Whether `t` stands in `s` at `i`, with nothing but white space around it.
pub open spec fn core_at(s: Seq<char>, t: Seq<char>, i: int) -> bool {
    &&& 0 <= i && i + t.len() <= s.len()
    &&& t == s.subrange(i, i + t.len())
    &&& forall|k: int| 0 <= k < i ==> white(#[trigger] s[k])
    &&& forall|k: int| i + t.len() <= k < s.len() ==> white(#[trigger] s[k])
}

/// Trimming takes white space at both ends alone: what is left stands in the text, there is only
/// white space around it, and it neither begins nor ends with white space.
pub proof fn law_trimming_takes_white_space_alone(s: Seq<char>)
    ensures
        ({
            let t = trimmed(s);
            &&& t.len() > 0 ==> !white(t[0]) && !white(t[t.len() - 1])
            &&& exists|i: int| #[trigger] core_at(s, t, i)
        }),
{
    lemma_trim_bounds(s);
    let end = text_end(s, s.len() as int);
    let start = text_start(s.take(end), 0);
    lemma_white_behind(s, s.len() as int);
    lemma_white_before(s.take(end), 0);
    let t = trimmed(s);
    assert(t == s.subrange(start, start + t.len()));
    assert forall|k: int| 0 <= k < start implies white(#[trigger] s[k]) by {
        assert(s.take(end)[k] == s[k]);
    }
    assert(core_at(s, t, start));
    if t.len() > 0 {
        assert(t[0] == s.take(end)[start]);
        assert(t[t.len() - 1] == s[end - 1]);
    }
}

proof fn lemma_white_behind(s: Seq<char>, i: int)
    requires
        0 <= i <= s.len(),
    ensures
        0 <= text_end(s, i) <= i,
        forall|k: int| text_end(s, i) <= k < i ==> white(s[k]),
        text_end(s, i) > 0 ==> !white(s[text_end(s, i) - 1]),
    decreases i,
{
    if 0 < i && white(s[i - 1]) {
        lemma_white_behind(s, i - 1);
    }
}

proof fn lemma_white_before(s: Seq<char>, i: int)
    requires
        0 <= i <= s.len(),
    ensures
        i <= text_start(s, i) <= s.len(),
        forall|k: int| i <= k < text_start(s, i) ==> white(s[k]),
        text_start(s, i) < s.len() ==> !white(s[text_start(s, i)]),
    decreases s.len() - i,
{
    if i < s.len() && white(s[i]) {
        lemma_white_before(s, i + 1);
    }
}

/// A text spells a number exactly where it is digits, of which there is one at least, with a plus
/// sign in front or none, and the number is not too large. A digit more makes ten of each before.
pub proof fn law_numbers_are_spelled_in_digits(s: Seq<char>, c: char, max: nat)
    ensures
        number(s, max) matches Some(n) ==> n <= max,
        s.len() == 0 ==> number(s, max) is None,
        (exists|i: int| 0 < i < s.len() && !('0' <= #[trigger] s[i] && s[i] <= '9')) ==> number(s, max)
            is None,
        s.len() > 0 && s[0] != '+' && !('0' <= s[0] && s[0] <= '9') ==> number(s, max) is None,
        '0' <= c && c <= '9' ==> number(seq![c], 9) == Some((c as nat - '0' as nat) as nat),
        number(s, max) is Some && '0' <= c && c <= '9' && 10 * number(s, max)->0 + (c as nat
            - '0' as nat) <= max ==> number(s.push(c), max) == Some(
            (10 * number(s, max)->0 + (c as nat - '0' as nat)) as nat,
        ),
        s.len() > 0 && '0' <= s[0] && s[0] <= '9' ==> number(seq!['+'] + s, max) == number(s, max),
{
    assert(seq![c].drop_last() =~= Seq::<char>::empty());
    assert(value(seq![c].drop_last()) == 0);
    assert(seq![c].last() == c);
    if exists|i: int| 0 < i < s.len() && !('0' <= #[trigger] s[i] && s[i] <= '9') {
        let i = choose|i: int| 0 < i < s.len() && !('0' <= #[trigger] s[i] && s[i] <= '9');
        assert(!is_digit(s[i]));
        if s[0] == '+' {
            assert(s.skip(1)[i - 1] == s[i]);
        }
    }
    if s.len() > 0 && s[0] != '+' && !('0' <= s[0] && s[0] <= '9') {
        assert(!is_digit(s[0]));
    }
    if number(s, max) is Some && '0' <= c && c <= '9' {
        let longer = s.push(c);
        let digits = if s[0] == '+' {
            s.skip(1)
        } else {
            s
        };
        assert(longer[0] == s[0]);
        let more = digits.push(c);
        if s[0] == '+' {
            assert(longer.skip(1) =~= more);
        }
        assert(more.drop_last() =~= digits);
        assert(all_digits(more));
    }
    if s.len() > 0 && '0' <= s[0] && s[0] <= '9' {
        assert((seq!['+'] + s).skip(1) =~= s);
    }
}

/// Capital letters become small ones, each the one of the same name; nothing else changes, and
/// nothing is left to change a second time.
pub proof fn law_capitals_become_small(s: Seq<char>, i: int)
    requires
        0 <= i < s.len(),
    ensures
        ascii_lower(s).len() == s.len(),
        'A' <= s[i] && s[i] <= 'Z' ==> 'a' <= ascii_lower(s)[i] && ascii_lower(s)[i] <= 'z'
            && ascii_lower(s)[i] as int - 'a' as int == s[i] as int - 'A' as int,
        !('A' <= s[i] && s[i] <= 'Z') ==> ascii_lower(s)[i] == s[i],
        ascii_lower(ascii_lower(s)) == ascii_lower(s),
{
    let once = ascii_lower(s);
    assert forall|k: int| 0 <= k < s.len() implies ascii_lower(once)[k] == once[k] by {
        assert(once[k] == ascii_lower_char(s[k]));
    }
    assert(ascii_lower(once) =~= once);
}

} // verus!
