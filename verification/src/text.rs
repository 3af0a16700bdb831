//! Text helpers shared by the validators: character classes, trimming,
//! searching, joining and the decimal rendering and parsing of integers.

use vstd::prelude::*;
use vstd::string::StringExecFns;

verus! {

/// `String::push` appends one character to the end of the string.
pub assume_specification[ std::string::String::push ](s: &mut std::string::String, c: char)
    ensures
        final(s)@ == old(s)@.push(c),
;

/// `==` on string slices compares their characters.
pub assume_specification[ <str as PartialEq>::eq ](a: &str, b: &str) -> (r: bool)
    ensures
        r == (a@ == b@),
;

/// Whether two string slices hold the same characters.
pub fn same_text(a: &str, b: &str) -> (r: bool)
    ensures
        r == (a@ == b@),
{
    a.eq(b)
}

/// The Unicode lowercase form of a text, as `str::to_lowercase` computes it.
pub uninterp spec fn lowercase(text: Seq<char>) -> Seq<char>;

/// The Unicode uppercase form of a text, as `str::to_uppercase` computes it.
pub uninterp spec fn uppercase(text: Seq<char>) -> Seq<char>;

/// Whether a character has the Unicode property `White_Space`: the
/// controls from the tabulator to the carriage return, the space, the next
/// line control, the no-break space, the Ogham space mark, the spaces of
/// fixed width from the en quad to the hair space, the line and the
/// paragraph separator, the narrow no-break space, the medium mathematical
/// space and the ideographic space.
pub open spec fn is_whitespace(c: char) -> bool {
    let n = c as u32;
    ||| 0x09 <= n <= 0x0D
    ||| n == 0x20
    ||| n == 0x85
    ||| n == 0xA0
    ||| n == 0x1680
    ||| 0x2000 <= n <= 0x200A
    ||| n == 0x2028
    ||| n == 0x2029
    ||| n == 0x202F
    ||| n == 0x205F
    ||| n == 0x3000
}

/// Whether a character is in one of the Unicode number categories, as
/// `char::is_numeric` decides it.
pub uninterp spec fn is_numeric(c: char) -> bool;

/// Calls `str::to_lowercase`. The result is known only by its name
/// [`lowercase`]: it depends on the text alone.
#[verifier::external_body]
pub(crate) fn to_lowercase(text: &str) -> (r: String)
    ensures
        r@ == lowercase(text@),
{
    text.to_lowercase()
}

/// Calls `str::to_uppercase`. The result is known only by its name
/// [`uppercase`]: it depends on the text alone.
#[verifier::external_body]
pub(crate) fn to_uppercase(text: &str) -> (r: String)
    ensures
        r@ == uppercase(text@),
{
    text.to_uppercase()
}

/// Whether a character has the Unicode property `White_Space`.
pub fn char_is_whitespace(c: char) -> (r: bool)
    ensures
        r == is_whitespace(c),
{
    let n: u32 = c as u32;
    (0x09 <= n && n <= 0x0D) || n == 0x20 || n == 0x85 || n == 0xA0 || n == 0x1680 || (0x2000 <= n
        && n <= 0x200A) || n == 0x2028 || n == 0x2029 || n == 0x202F || n == 0x205F || n == 0x3000
}

/// Calls `char::is_numeric`. The result is known only by its name
/// [`is_numeric`]: it depends on the character alone.
#[verifier::external_body]
pub(crate) fn char_is_numeric(c: char) -> (r: bool)
    ensures
        r == is_numeric(c),
{
    c.is_numeric()
}

/// The characters of a string slice, in order.
pub fn to_chars(s: &str) -> (v: Vec<char>)
    ensures
        v@ == s@,
{
    broadcast use vstd::string::group_string_axioms;

    let mut v: Vec<char> = Vec::new();
    for c in it: s.chars()
        invariant
            it.seq() == s@,
            v@ == it.seq().take(it.index()),
    {
        v.push(c);
    }
    v
}

/// The string made of the characters `chars[from..to]`.
pub fn string_of(chars: &Vec<char>, from: usize, to: usize) -> (s: String)
    requires
        from <= to <= chars.len(),
    ensures
        s@ == chars@.subrange(from as int, to as int),
{
    let mut s = String::new();
    let mut i: usize = from;
    while i < to
        invariant
            from <= i <= to <= chars.len(),
            s@ == chars@.subrange(from as int, i as int),
        decreases to - i,
    {
        s.push(chars[i]);
        i += 1;
    }
    s
}

/// The number of whitespace characters at the start of a text.
pub open spec fn leading_whitespace(s: Seq<char>) -> nat
    decreases s.len(),
{
    if s.len() > 0 && is_whitespace(s[0]) {
        1 + leading_whitespace(s.drop_first())
    } else {
        0
    }
}

/// The number of whitespace characters at the end of a text.
pub open spec fn trailing_whitespace(s: Seq<char>) -> nat
    decreases s.len(),
{
    if s.len() > 0 && is_whitespace(s.last()) {
        1 + trailing_whitespace(s.drop_last())
    } else {
        0
    }
}

/// The number of numeric characters at the start of a text.
pub open spec fn leading_numeric(s: Seq<char>) -> nat
    decreases s.len(),
{
    if s.len() > 0 && is_numeric(s[0]) {
        1 + leading_numeric(s.drop_first())
    } else {
        0
    }
}

/// The leading numeric characters of a text are a run of `n` numeric
/// characters that ends at the text's end or before a character of another
/// kind.
pub proof fn lemma_leading_numeric(s: Seq<char>, n: int)
    requires
        0 <= n <= s.len(),
        forall|i: int| 0 <= i < n ==> is_numeric(#[trigger] s[i]),
        n == s.len() || !is_numeric(s[n]),
    ensures
        leading_numeric(s) == n,
    decreases n,
{
    if n > 0 {
        let t = s.drop_first();
        assert forall|i: int| 0 <= i < n - 1 implies is_numeric(#[trigger] t[i]) by {
            assert(t[i] == s[i + 1]);
        }
        lemma_leading_numeric(t, n - 1);
    }
}

/// A text without its leading whitespace.
pub open spec fn trim_start(s: Seq<char>) -> Seq<char> {
    s.skip(leading_whitespace(s) as int)
}

/// A text without its trailing whitespace.
pub open spec fn trim_end(s: Seq<char>) -> Seq<char> {
    s.take(s.len() - trailing_whitespace(s))
}

/// A text without its leading and trailing whitespace.
pub open spec fn trimmed(s: Seq<char>) -> Seq<char> {
    trim_end(trim_start(s))
}

/// The leading whitespace of a text is a run of `n` whitespace characters
/// that ends at the text's end or before a character of another kind.
pub proof fn lemma_leading_whitespace(s: Seq<char>, n: int)
    requires
        0 <= n <= s.len(),
        forall|i: int| 0 <= i < n ==> is_whitespace(#[trigger] s[i]),
        n == s.len() || !is_whitespace(s[n]),
    ensures
        leading_whitespace(s) == n,
    decreases n,
{
    if n > 0 {
        let t = s.drop_first();
        assert forall|i: int| 0 <= i < n - 1 implies is_whitespace(#[trigger] t[i]) by {
            assert(t[i] == s[i + 1]);
        }
        lemma_leading_whitespace(t, n - 1);
    }
}

/// The trailing whitespace of a text is a run of `n` whitespace characters
/// that starts at the text's start or after a character of another kind.
pub proof fn lemma_trailing_whitespace(s: Seq<char>, n: int)
    requires
        0 <= n <= s.len(),
        forall|i: int| s.len() - n <= i < s.len() ==> is_whitespace(#[trigger] s[i]),
        n == s.len() || !is_whitespace(s[s.len() - n - 1]),
    ensures
        trailing_whitespace(s) == n,
    decreases n,
{
    if n > 0 {
        let t = s.drop_last();
        assert forall|i: int| t.len() - (n - 1) <= i < t.len() implies is_whitespace(
            #[trigger] t[i],
        ) by {
            assert(t[i] == s[i]);
        }
        lemma_trailing_whitespace(t, n - 1);
    }
}

/// The characters of a text without its leading and trailing whitespace.
pub fn trim_chars(chars: &Vec<char>) -> (r: Vec<char>)
    ensures
        r@ == trimmed(chars@),
{
    let n = chars.len();
    let mut lo: usize = 0;
    while lo < n && char_is_whitespace(chars[lo])
        invariant
            lo <= n == chars.len(),
            forall|i: int| 0 <= i < lo ==> is_whitespace(#[trigger] chars@[i]),
        decreases n - lo,
    {
        lo += 1;
    }
    proof {
        lemma_leading_whitespace(chars@, lo as int);
    }
    let ghost rest = chars@.skip(lo as int);
    let mut hi: usize = n;
    while hi > lo && char_is_whitespace(chars[hi - 1])
        invariant
            lo <= hi <= n == chars.len(),
            forall|i: int| hi <= i < n ==> is_whitespace(#[trigger] chars@[i]),
        decreases hi,
    {
        hi -= 1;
    }
    proof {
        assert forall|i: int| rest.len() - (n - hi) <= i < rest.len() implies is_whitespace(
            #[trigger] rest[i],
        ) by {
            assert(rest[i] == chars@[i + lo]);
        }
        if hi > lo {
            assert(rest[rest.len() - (n - hi) - 1] == chars@[hi - 1]);
        }
        lemma_trailing_whitespace(rest, (n - hi) as int);
    }
    let mut r: Vec<char> = Vec::new();
    let mut i: usize = lo;
    while i < hi
        invariant
            lo <= i <= hi <= chars.len(),
            r@ == chars@.subrange(lo as int, i as int),
        decreases hi - i,
    {
        r.push(chars[i]);
        i += 1;
    }
    r
}

/// A copy of a string slice without its leading and trailing whitespace.
pub fn trim(text: &str) -> (r: String)
    ensures
        r@ == trimmed(text@),
{
    let chars = to_chars(text);
    let kept = trim_chars(&chars);
    string_of(&kept, 0, kept.len())
}

/// The character that writes one decimal digit.
pub open spec fn digit_char(d: int) -> char {
    if d == 0 {
        '0'
    } else if d == 1 {
        '1'
    } else if d == 2 {
        '2'
    } else if d == 3 {
        '3'
    } else if d == 4 {
        '4'
    } else if d == 5 {
        '5'
    } else if d == 6 {
        '6'
    } else if d == 7 {
        '7'
    } else if d == 8 {
        '8'
    } else {
        '9'
    }
}

/// The decimal digits of a natural number, without leading zeros.
pub open spec fn nat_text(n: nat) -> Seq<char>
    decreases n,
{
    if n < 10 {
        seq![digit_char(n as int)]
    } else {
        nat_text(n / 10).push(digit_char((n % 10) as int))
    }
}

/// The decimal text of an integer: a minus sign where it is negative, then
/// the digits of its magnitude.
pub open spec fn int_text(i: int) -> Seq<char> {
    if i < 0 {
        seq!['-'] + nat_text((-i) as nat)
    } else {
        nat_text(i as nat)
    }
}

/// Whether a character is one of the ten ASCII digits.
pub open spec fn is_digit(c: char) -> bool {
    '0' <= c <= '9'
}

/// The value of an ASCII digit.
pub open spec fn digit_value(c: char) -> int {
    c as int - 48
}

/// Whether every character of a text is an ASCII digit.
pub open spec fn all_digits(s: Seq<char>) -> bool {
    forall|i: int| 0 <= i < s.len() ==> is_digit(#[trigger] s[i])
}

/// The number that a run of ASCII digits writes in base ten.
pub open spec fn digits_value(s: Seq<char>) -> int
    decreases s.len(),
{
    if s.len() == 0 {
        0
    } else {
        digits_value(s.drop_last()) * 10 + digit_value(s.last())
    }
}

/// The integer that a text writes: an optional sign, then one or more ASCII
/// digits and nothing else.
pub open spec fn parse_int(s: Seq<char>) -> Option<int> {
    if s.len() > 0 && (s[0] == '-' || s[0] == '+') {
        let d = s.drop_first();
        if d.len() > 0 && all_digits(d) {
            Some(
                if s[0] == '-' {
                    -digits_value(d)
                } else {
                    digits_value(d)
                },
            )
        } else {
            None
        }
    } else if s.len() > 0 && all_digits(s) {
        Some(digits_value(s))
    } else {
        None
    }
}

/// The 64-bit integer that a text writes, where it writes one that fits.
pub open spec fn parse_i64_text(s: Seq<char>) -> Option<i64> {
    match parse_int(s) {
        Some(v) => if i64::MIN <= v <= i64::MAX {
            Some(v as i64)
        } else {
            None
        },
        None => None,
    }
}

/// A run of digits is worth at least as much as each of its prefixes.
pub proof fn lemma_digits_value_grows(s: Seq<char>, k: int)
    requires
        all_digits(s),
        0 <= k <= s.len(),
    ensures
        0 <= digits_value(s.take(k)) <= digits_value(s),
    decreases s.len(),
{
    if s.len() == 0 {
        assert(s.take(k) =~= s);
    } else if k == s.len() {
        assert(s.take(k) =~= s);
        lemma_digits_value_grows(s.drop_last(), k - 1);
        assert(is_digit(s.last()));
    } else {
        let t = s.drop_last();
        assert(all_digits(t)) by {
            assert forall|i: int| 0 <= i < t.len() implies is_digit(#[trigger] t[i]) by {
                assert(t[i] == s[i]);
            }
        }
        lemma_digits_value_grows(t, k);
        assert(t.take(k) =~= s.take(k));
        assert(is_digit(s.last()));
    }
}

/// The ASCII digit that writes `d`.
pub fn digit_of(d: u8) -> (c: char)
    requires
        d < 10,
    ensures
        c == digit_char(d as int),
        is_digit(c),
        digit_value(c) == d,
{
    if d == 0 {
        '0'
    } else if d == 1 {
        '1'
    } else if d == 2 {
        '2'
    } else if d == 3 {
        '3'
    } else if d == 4 {
        '4'
    } else if d == 5 {
        '5'
    } else if d == 6 {
        '6'
    } else if d == 7 {
        '7'
    } else if d == 8 {
        '8'
    } else {
        '9'
    }
}

/// Appends the decimal digits of `n` to a string.
pub fn push_nat(s: &mut String, n: u128)
    ensures
        final(s)@ == old(s)@ + nat_text(n as nat),
    decreases n,
{
    if n >= 10 {
        push_nat(s, n / 10);
    }
    let d: u8 = (n % 10) as u8;
    s.push(digit_of(d));
}

/// Appends the decimal text of `i` to a string.
pub fn push_int(s: &mut String, i: i128)
    requires
        i > i128::MIN,
    ensures
        final(s)@ == old(s)@ + int_text(i as int),
{
    if i < 0 {
        s.push('-');
        push_nat(s, (-i) as u128);
    } else {
        push_nat(s, i as u128);
    }
}

/// The decimal text of an unsigned number.
pub fn usize_to_string(n: usize) -> (r: String)
    ensures
        r@ == nat_text(n as nat),
{
    let mut s = String::new();
    push_nat(&mut s, n as u128);
    s
}

/// The decimal text of a signed number.
pub fn i64_to_string(i: i64) -> (r: String)
    ensures
        r@ == int_text(i as int),
{
    let mut s = String::new();
    push_int(&mut s, i as i128);
    s
}

/// What [`parse_digits`] returns: the value of a non-empty run of ASCII
/// digits where it is at most `max`.
pub open spec fn bounded_digits(d: Seq<char>, max: int) -> Option<u64> {
    if d.len() > 0 && all_digits(d) && digits_value(d) <= max {
        Some(digits_value(d) as u64)
    } else {
        None
    }
}

/// Reads `chars[from..]` as a run of ASCII digits worth at most `max`.
pub fn parse_digits(chars: &Vec<char>, from: usize, max: u64) -> (r: Option<u64>)
    requires
        from <= chars.len(),
    ensures
        r == bounded_digits(chars@.skip(from as int), max as int),
        r matches Some(m) ==> m == digits_value(chars@.skip(from as int)),
{
    let ghost d = chars@.skip(from as int);
    let n = chars.len();
    if from == n {
        return None;
    }
    let mut acc: u128 = 0;
    let mut i: usize = from;
    while i < n
        invariant
            from <= i <= n == chars.len(),
            d == chars@.skip(from as int),
            all_digits(d.take(i - from)),
            acc == digits_value(d.take(i - from)),
            acc <= max,
        decreases n - i,
    {
        let c = chars[i];
        assert(c == d[i - from]);
        if !(c >= '0' && c <= '9') {
            return None;
        }
        let v: u128 = (c as u32 - 48) as u128;
        let next: u128 = acc * 10 + v;
        proof {
            let t = d.take(i - from + 1);
            assert(t.drop_last() =~= d.take(i - from));
            assert(t.last() == c);
            assert(all_digits(t)) by {
                assert forall|j: int| 0 <= j < t.len() implies is_digit(#[trigger] t[j]) by {
                    if j < t.len() - 1 {
                        assert(t[j] == d.take(i - from)[j]);
                    }
                }
            }
            assert(digits_value(t) == next);
        }
        if next > max as u128 {
            proof {
                if all_digits(d) {
                    lemma_digits_value_grows(d, i - from + 1);
                }
            }
            return None;
        }
        acc = next;
        i += 1;
    }
    assert(d.take(i - from) =~= d);
    Some(acc as u64)
}

/// Reads a text as a signed 64-bit integer: an optional sign, then ASCII
/// digits. `None` where the text is anything else or the number does not fit.
pub fn parse_i64(text: &str) -> (r: Option<i64>)
    ensures
        r == parse_i64_text(text@),
{
    let chars = to_chars(text);
    if chars.len() == 0 {
        return None;
    }
    let first = chars[0];
    if first == '-' {
        match parse_digits(&chars, 1, 9223372036854775808u64) {
            Some(m) => Some((-(m as i128)) as i64),
            None => None,
        }
    } else if first == '+' {
        match parse_digits(&chars, 1, 9223372036854775807u64) {
            Some(m) => Some(m as i64),
            None => None,
        }
    } else {
        assert(chars@.skip(0) =~= chars@);
        proof {
            if all_digits(chars@) {
                lemma_digits_value_grows(chars@, 0);
            }
        }
        match parse_digits(&chars, 0, 9223372036854775807u64) {
            Some(m) => Some(m as i64),
            None => None,
        }
    }
}

/// The parts of a list written one after another with a separator between
/// each two.
pub open spec fn joined(parts: Seq<Seq<char>>, sep: Seq<char>) -> Seq<char>
    decreases parts.len(),
{
    if parts.len() == 0 {
        Seq::empty()
    } else if parts.len() == 1 {
        parts[0]
    } else {
        joined(parts.drop_last(), sep) + sep + parts.last()
    }
}

/// Joins the strings of a list with a separator.
pub fn join(parts: &Vec<String>, sep: &str) -> (r: String)
    ensures
        r@ == joined(parts.deep_view(), sep@),
{
    let ghost all = parts.deep_view();
    let mut r = String::new();
    let mut i: usize = 0;
    while i < parts.len()
        invariant
            i <= parts.len(),
            all == parts.deep_view(),
            r@ == joined(all.take(i as int), sep@),
        decreases parts.len() - i,
    {
        let ghost before = r@;
        if i > 0 {
            r.append(sep);
        }
        r.append(parts[i].as_str());
        proof {
            let t = all.take(i + 1);
            assert(t.drop_last() =~= all.take(i as int));
            assert(t.last() == parts@[i as int]@);
            if i == 0 {
                assert(r@ =~= t[0]);
            } else {
                assert(r@ =~= before + sep@ + t.last());
            }
        }
        i += 1;
    }
    assert(all.take(i as int) =~= all);
    r
}

/// Whether `pat` stands in `text` at position `i`.
pub open spec fn occurs_at(text: Seq<char>, pat: Seq<char>, i: int) -> bool {
    0 <= i && i + pat.len() <= text.len() && text.subrange(i, i + pat.len()) == pat
}

/// Whether `pat` stands somewhere in `text`.
pub open spec fn contains(text: Seq<char>, pat: Seq<char>) -> bool {
    exists|i: int| occurs_at(text, pat, i)
}

/// Whether `pat` stands in `text` at position `at`.
fn matches_at(text: &Vec<char>, pat: &Vec<char>, at: usize) -> (r: bool)
    requires
        at + pat.len() <= text.len(),
    ensures
        r == occurs_at(text@, pat@, at as int),
{
    let mut j: usize = 0;
    while j < pat.len()
        invariant
            j <= pat.len(),
            at + pat.len() <= text.len(),
            forall|k: int| 0 <= k < j ==> text@[at + k] == pat@[k],
        decreases pat.len() - j,
    {
        if text[at + j] != pat[j] {
            return false;
        }
        j += 1;
    }
    assert(text@.subrange(at as int, at + pat.len()) =~= pat@);
    true
}

/// Whether `pat` stands somewhere in `text`.
pub fn str_contains(text: &str, pat: &str) -> (r: bool)
    ensures
        r == contains(text@, pat@),
{
    let t = to_chars(text);
    let p = to_chars(pat);
    if p.len() > t.len() {
        return false;
    }
    let last = t.len() - p.len();
    let mut i: usize = 0;
    while i < last
        invariant
            i <= last,
            last == t.len() - p.len(),
            t@ == text@,
            p@ == pat@,
            forall|k: int| 0 <= k < i ==> !occurs_at(t@, p@, k),
        decreases last - i,
    {
        if matches_at(&t, &p, i) {
            return true;
        }
        i += 1;
    }
    matches_at(&t, &p, last)
}

/// Whether `text` begins with `prefix`.
pub fn starts_with(text: &str, prefix: &str) -> (r: bool)
    ensures
        r == prefix@.is_prefix_of(text@),
{
    let t = to_chars(text);
    let p = to_chars(prefix);
    if p.len() > t.len() {
        return false;
    }
    let r = matches_at(&t, &p, 0);
    r
}

/// How often a character occurs in a text.
pub open spec fn count_of(s: Seq<char>, c: char) -> nat
    decreases s.len(),
{
    if s.len() == 0 {
        0
    } else {
        count_of(s.drop_last(), c) + if s.last() == c {
            1nat
        } else {
            0nat
        }
    }
}

/// How often a character occurs in a text.
pub fn count_char(text: &Vec<char>, c: char) -> (r: usize)
    ensures
        r == count_of(text@, c),
{
    let mut r: usize = 0;
    let mut i: usize = 0;
    while i < text.len()
        invariant
            i <= text.len(),
            r <= i,
            r == count_of(text@.take(i as int), c),
        decreases text.len() - i,
    {
        assert(text@.take(i + 1).drop_last() =~= text@.take(i as int));
        if text[i] == c {
            r += 1;
        }
        i += 1;
    }
    assert(text@.take(i as int) =~= text@);
    r
}

/// The length of a text's UTF-8 encoding, in bytes.
pub open spec fn byte_len(text: Seq<char>) -> nat {
    vstd::utf8::encode_utf8(text).len()
}

/// The position of the first `c` in a text, or the text's length where
/// there is none.
pub open spec fn first_index_of(s: Seq<char>, c: char) -> int
    decreases s.len(),
{
    if s.len() == 0 || s[0] == c {
        0
    } else {
        1 + first_index_of(s.drop_first(), c)
    }
}

/// The first `c` of a text stands behind `n` characters that are not `c`.
pub proof fn lemma_first_index_of(s: Seq<char>, c: char, n: int)
    requires
        0 <= n <= s.len(),
        forall|i: int| 0 <= i < n ==> #[trigger] s[i] != c,
        n == s.len() || s[n] == c,
    ensures
        first_index_of(s, c) == n,
    decreases n,
{
    if n > 0 {
        let t = s.drop_first();
        assert forall|i: int| 0 <= i < n - 1 implies #[trigger] t[i] != c by {
            assert(t[i] == s[i + 1]);
        }
        lemma_first_index_of(t, c, n - 1);
    }
}

/// The pieces of a text between the occurrences of a separator, empty
/// pieces included: a text without the separator is one piece.
pub open spec fn split(s: Seq<char>, sep: char) -> Seq<Seq<char>>
    decreases s.len(),
{
    let i = first_index_of(s, sep);
    if 0 <= i < s.len() {
        seq![s.take(i)] + split(s.skip(i + 1), sep)
    } else {
        seq![s]
    }
}

/// The texts of a list that are not empty, in order.
pub open spec fn nonempty_only(parts: Seq<Seq<char>>) -> Seq<Seq<char>>
    decreases parts.len(),
{
    if parts.len() == 0 {
        Seq::empty()
    } else if parts.last().len() > 0 {
        nonempty_only(parts.drop_last()).push(parts.last())
    } else {
        nonempty_only(parts.drop_last())
    }
}

/// The pieces of a text that are not empty.
pub open spec fn nonempty_pieces(s: Seq<char>, sep: char) -> Seq<Seq<char>> {
    nonempty_only(split(s, sep))
}

/// Splitting gives at least one piece.
pub proof fn lemma_split_has_pieces(s: Seq<char>, sep: char)
    ensures
        split(s, sep).len() >= 1,
{
}

/// Splits a text at each occurrence of `sep`.
pub fn split_chars(chars: &Vec<char>, sep: char) -> (r: Vec<String>)
    ensures
        r.deep_view() == split(chars@, sep),
{
    let n = chars.len();
    let mut pieces: Vec<String> = Vec::new();
    let mut start: usize = 0;
    assert(chars@.skip(0) =~= chars@);
    loop
        invariant_except_break
            split(chars@, sep) == pieces.deep_view() + split(chars@.skip(start as int), sep),
        invariant
            start <= n == chars.len(),
        ensures
            pieces.deep_view() == split(chars@, sep),
        decreases n - start,
    {
        let ghost rest = chars@.skip(start as int);
        let ghost done = pieces.deep_view();
        let mut j: usize = start;
        while j < n && chars[j] != sep
            invariant
                start <= j <= n == chars.len(),
                rest == chars@.skip(start as int),
                forall|i: int| 0 <= i < j - start ==> #[trigger] rest[i] != sep,
            decreases n - j,
        {
            j += 1;
        }
        proof {
            lemma_first_index_of(rest, sep, j - start);
        }
        let piece = string_of(chars, start, j);
        assert(piece@ =~= rest.take(j - start));
        pieces.push(piece);
        if j == n {
            proof {
                assert(rest.take(j - start) =~= rest);
                assert(pieces.deep_view() =~= done + seq![rest]);
            }
            break;
        }
        proof {
            assert(rest.skip(j - start + 1) =~= chars@.skip(j + 1));
            assert(pieces.deep_view() =~= done + seq![rest.take(j - start)]);
            assert(split(chars@, sep) =~= pieces.deep_view() + split(chars@.skip(j + 1), sep));
        }
        start = j + 1;
    }
    pieces
}

/// The strings of a list that are not empty, in order.
pub fn keep_nonempty(pieces: Vec<String>) -> (r: Vec<String>)
    ensures
        r.deep_view() == nonempty_only(pieces.deep_view()),
{
    let ghost all = pieces.deep_view();
    let mut r: Vec<String> = Vec::new();
    let mut i: usize = 0;
    while i < pieces.len()
        invariant
            i <= pieces.len(),
            all == pieces.deep_view(),
            r.deep_view() == nonempty_only(all.take(i as int)),
        decreases pieces.len() - i,
    {
        proof {
            assert(all.take(i + 1).drop_last() =~= all.take(i as int));
            assert(all.take(i + 1).last() == pieces@[i as int]@);
        }
        if !pieces[i].as_str().is_empty() {
            r.push(pieces[i].clone());
        }
        i += 1;
    }
    assert(all.take(i as int) =~= all);
    r
}

} // verus!
