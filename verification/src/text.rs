//! Text as sequences of characters: trimming, prefixes, letter case and decimal
//! numerals.
//!
//! Everything here is stated over the characters of a string (`text@`), so a
//! multi-byte codepoint is always one unit.

use vstd::prelude::*;
use vstd::string::StrSliceExecFns;
use vstd::string::StringExecFns;

verus! {

// ---------------------------------------------------------------------------
// Characters
// ---------------------------------------------------------------------------

/// The Unicode `White_Space` property.
pub open spec fn is_white_space(c: char) -> bool {
    let u = c as u32;
    ||| 0x09 <= u <= 0x0d
    ||| u == 0x20
    ||| u == 0x85
    ||| u == 0xa0
    ||| u == 0x1680
    ||| 0x2000 <= u <= 0x200a
    ||| u == 0x2028
    ||| u == 0x2029
    ||| u == 0x202f
    ||| u == 0x205f
    ||| u == 0x3000
}

/// Whether `c` is white space.
pub fn white_space(c: char) -> (answer: bool)
    ensures
        answer == is_white_space(c),
{
    let u: u32 = c as u32;
    (0x09 <= u && u <= 0x0d) || u == 0x20 || u == 0x85 || u == 0xa0 || u == 0x1680 || (0x2000 <= u
        && u <= 0x200a) || u == 0x2028 || u == 0x2029 || u == 0x202f || u == 0x205f || u == 0x3000
}

/// The ASCII lower-case form of a character; every other character is its own.
pub open spec fn ascii_lower(c: char) -> char {
    if 'A' <= c <= 'Z' {
        (c as u32 + 32) as char
    } else {
        c
    }
}

/// A text with every ASCII letter in lower case.
pub open spec fn ascii_lowered(s: Seq<char>) -> Seq<char> {
    s.map_values(|c: char| ascii_lower(c))
}

fn lower(c: char) -> (l: char)
    ensures
        l == ascii_lower(c),
{
    if 'A' <= c && c <= 'Z' {
        (c as u8 + 32) as char
    } else {
        c
    }
}

/// The characters of `text`, in order.
pub fn chars_of(text: &str) -> (chars: Vec<char>)
    ensures
        chars@ == text@,
{
    let mut chars: Vec<char> = Vec::new();
    for c in it: text.chars()
        invariant
            it.seq() == text@,
            chars@ == text@.take(it.index()),
    {
        chars.push(c);
    }
    assert(text@.take(text@.len() as int) == text@);
    chars
}

// ---------------------------------------------------------------------------
// Trimming
// ---------------------------------------------------------------------------

/// `s` without its leading white space.
pub open spec fn trimmed_start(s: Seq<char>) -> Seq<char>
    decreases s.len(),
{
    if s.len() > 0 && is_white_space(s.first()) {
        trimmed_start(s.drop_first())
    } else {
        s
    }
}

/// `s` without its trailing white space.
pub open spec fn trimmed_end(s: Seq<char>) -> Seq<char>
    decreases s.len(),
{
    if s.len() > 0 && is_white_space(s.last()) {
        trimmed_end(s.drop_last())
    } else {
        s
    }
}

/// `s` without white space at either end.
pub open spec fn trimmed(s: Seq<char>) -> Seq<char> {
    trimmed_end(trimmed_start(s))
}

/// `text` without white space at either end.
pub fn trim(text: &str) -> (core: &str)
    ensures
        core@ == trimmed(text@),
{
    let chars: Vec<char> = chars_of(text);
    let mut start: usize = 0;
    assert(text@.skip(0) == text@);
    while start < chars.len() && white_space(chars[start])
        invariant
            chars@ == text@,
            start <= chars.len(),
            trimmed_start(text@) == trimmed_start(text@.skip(start as int)),
        decreases chars.len() - start,
    {
        assert(text@.skip(start as int).drop_first() == text@.skip(start + 1));
        start = start + 1;
    }
    let ghost rest = text@.skip(start as int);
    assert(trimmed_start(text@) == rest);
    let mut end: usize = chars.len();
    assert(text@.subrange(start as int, end as int) == rest);
    while start < end && white_space(chars[end - 1])
        invariant
            chars@ == text@,
            start <= end <= chars.len(),
            trimmed_end(rest) == trimmed_end(text@.subrange(start as int, end as int)),
        decreases end - start,
    {
        assert(text@.subrange(start as int, end as int).drop_last() == text@.subrange(
            start as int,
            end - 1,
        ));
        end = end - 1;
    }
    text.substring_char(start, end)
}

/// Whether `text` holds nothing but white space.
pub fn is_blank(text: &str) -> (answer: bool)
    ensures
        answer == (trimmed(text@).len() == 0),
{
    trim(text).is_empty()
}

/// Trimming a text that is trimmed already changes nothing.
pub proof fn lemma_trimmed_is_fixed(s: Seq<char>)
    ensures
        trimmed(trimmed(s)) == trimmed(s),
{
    lemma_trimmed_start_edge(s);
    lemma_trimmed_end_edge(trimmed_start(s));
}

/// What `trimmed_start` leaves begins with no white space.
proof fn lemma_trimmed_start_edge(s: Seq<char>)
    ensures
        trimmed_start(s).len() > 0 ==> !is_white_space(trimmed_start(s).first()),
    decreases s.len(),
{
    if s.len() > 0 && is_white_space(s.first()) {
        lemma_trimmed_start_edge(s.drop_first());
    }
}

/// What `trimmed_end` leaves is a prefix, and ends with no white space.
proof fn lemma_trimmed_end_edge(s: Seq<char>)
    ensures
        trimmed_end(s).is_prefix_of(s),
        trimmed_end(s).len() > 0 ==> !is_white_space(trimmed_end(s).last()),
        trimmed_end(s).len() > 0 ==> trimmed_end(s).first() == s.first(),
    decreases s.len(),
{
    if s.len() > 0 && is_white_space(s.last()) {
        lemma_trimmed_end_edge(s.drop_last());
    }
}

/// A text with no white space at its edges is its own trimmed form.
pub proof fn lemma_trimmed_of_tight(s: Seq<char>)
    requires
        s.len() > 0 ==> !is_white_space(s.first()) && !is_white_space(s.last()),
    ensures
        trimmed(s) == s,
{
}

/// A trimmed text begins and ends with no white space.
pub proof fn lemma_trimmed_is_tight(s: Seq<char>)
    ensures
        trimmed(s).len() > 0 ==> !is_white_space(trimmed(s).first()) && !is_white_space(
            trimmed(s).last(),
        ),
{
    lemma_trimmed_start_edge(s);
    lemma_trimmed_end_edge(trimmed_start(s));
}

// ---------------------------------------------------------------------------
// Equality and prefixes
// ---------------------------------------------------------------------------

/// Whether two texts are the same.
pub fn same_text(a: &str, b: &str) -> (answer: bool)
    ensures
        answer == (a@ == b@),
{
    let left: &[u8] = a.as_bytes();
    let right: &[u8] = b.as_bytes();
    proof {
        vstd::utf8::encode_utf8_decode_utf8(a@);
        vstd::utf8::encode_utf8_decode_utf8(b@);
    }
    if left.len() != right.len() {
        return false;
    }
    let mut i: usize = 0;
    while i < left.len()
        invariant
            left@ == vstd::utf8::encode_utf8(a@),
            right@ == vstd::utf8::encode_utf8(b@),
            i <= left.len() == right.len(),
            forall|j: int| 0 <= j < i ==> left[j] == right[j],
        decreases left.len() - i,
    {
        if left[i] != right[i] {
            assert(vstd::utf8::encode_utf8(a@)[i as int] != vstd::utf8::encode_utf8(b@)[i as int]);
            return false;
        }
        i = i + 1;
    }
    assert(left@ == right@);
    true
}

/// Whether `text` begins with `prefix`.
pub fn has_prefix(text: &str, prefix: &str) -> (answer: bool)
    ensures
        answer == prefix@.is_prefix_of(text@),
{
    let whole: Vec<char> = chars_of(text);
    let head: Vec<char> = chars_of(prefix);
    if whole.len() < head.len() {
        return false;
    }
    let mut i: usize = 0;
    while i < head.len()
        invariant
            whole@ == text@,
            head@ == prefix@,
            i <= head.len() <= whole.len(),
            forall|j: int| 0 <= j < i ==> head[j] == whole[j],
        decreases head.len() - i,
    {
        if head[i] != whole[i] {
            return false;
        }
        i = i + 1;
    }
    assert(prefix@ == text@.take(prefix@.len() as int));
    true
}

/// What follows `prefix` in `text`, where `text` begins with it.
pub fn without_prefix<'a>(text: &'a str, prefix: &str) -> (rest: Option<&'a str>)
    ensures
        match rest {
            Some(r) => text@ == prefix@ + r@,
            None => !prefix@.is_prefix_of(text@),
        },
{
    if has_prefix(text, prefix) {
        let from: usize = prefix.unicode_len();
        let to: usize = text.unicode_len();
        let r = text.substring_char(from, to);
        assert(text@ == prefix@ + r@);
        Some(r)
    } else {
        None
    }
}

/// Whether `text` is `word`, up to the case of ASCII letters and white space at its
/// edges. `word` is in lower case.
pub fn is_word(text: &str, word: &str) -> (answer: bool)
    ensures
        answer == (ascii_lowered(trimmed(text@)) == word@),
{
    let given: Vec<char> = chars_of(trim(text));
    let wanted: Vec<char> = chars_of(word);
    if given.len() != wanted.len() {
        return false;
    }
    let ghost lowered = ascii_lowered(trimmed(text@));
    let mut i: usize = 0;
    while i < given.len()
        invariant
            given@ == trimmed(text@),
            wanted@ == word@,
            lowered == ascii_lowered(trimmed(text@)),
            i <= given.len() == wanted.len(),
            forall|j: int| 0 <= j < i ==> lowered[j] == word@[j],
        decreases given.len() - i,
    {
        assert(lowered[i as int] == ascii_lower(given[i as int]));
        if lower(given[i]) != wanted[i] {
            return false;
        }
        i = i + 1;
    }
    assert(lowered == word@);
    true
}

// ---------------------------------------------------------------------------
// Decimal numerals
// ---------------------------------------------------------------------------

/// The numeral of a single digit.
pub open spec fn digit(d: int) -> char {
    (d + 0x30) as char
}

/// The decimal numeral of `n`.
pub open spec fn decimal(n: nat) -> Seq<char>
    decreases n,
{
    if n < 10 {
        seq![digit(n as int)]
    } else {
        decimal(n / 10).push(digit((n % 10) as int))
    }
}

/// The decimal numeral of an integer, with a minus sign where it is negative.
pub open spec fn signed_decimal(n: int) -> Seq<char> {
    if n < 0 {
        seq!['-'] + decimal((-n) as nat)
    } else {
        decimal(n as nat)
    }
}

/// Whether `s` is one or more decimal digits.
pub open spec fn is_numeral(s: Seq<char>) -> bool {
    &&& s.len() > 0
    &&& forall|i: int| 0 <= i < s.len() ==> '0' <= #[trigger] s[i] <= '9'
}

/// The number that a sequence of decimal digits stands for.
pub open spec fn numeral_value(s: Seq<char>) -> nat
    decreases s.len(),
{
    if s.len() == 0 {
        0
    } else {
        10 * numeral_value(s.drop_last()) + (s.last() as nat - 0x30) as nat
    }
}

/// The number that `s` stands for when it is a numeral with at most a plus sign in
/// front.
pub open spec fn unsigned_value(s: Seq<char>) -> Option<nat> {
    let digits = if s.len() > 0 && s.first() == '+' {
        s.drop_first()
    } else {
        s
    };
    if is_numeral(digits) {
        Some(numeral_value(digits))
    } else {
        None
    }
}

/// The number that `s` stands for when it is a numeral with at most one sign in
/// front.
pub open spec fn signed_value(s: Seq<char>) -> Option<int> {
    if s.len() > 0 && s.first() == '-' {
        if is_numeral(s.drop_first()) {
            Some(-(numeral_value(s.drop_first()) as int))
        } else {
            None
        }
    } else {
        match unsigned_value(s) {
            Some(n) => Some(n as int),
            None => None,
        }
    }
}

/// The number behind a numeral, where it is at most `max`.
pub open spec fn unsigned_up_to(s: Seq<char>, max: nat) -> Option<nat> {
    match unsigned_value(s) {
        Some(n) => if n <= max {
            Some(n)
        } else {
            None
        },
        None => None,
    }
}

/// The digits of `chars` from `from` on as a number, where they are a numeral of a
/// number that is at most `max`.
fn parse_digits(chars: &Vec<char>, from: usize, max: u64) -> (value: Option<u64>)
    requires
        from <= chars.len(),
    ensures
        ({
            let digits = chars@.skip(from as int);
            match value {
                Some(n) => is_numeral(digits) && n == numeral_value(digits) && n <= max,
                None => !is_numeral(digits) || numeral_value(digits) > max,
            }
        }),
{
    let ghost digits = chars@.skip(from as int);
    if from == chars.len() {
        return None;
    }
    let mut value: u128 = 0;
    let mut i: usize = from;
    assert(digits.take(0).len() == 0);
    while i < chars.len()
        invariant
            from <= i <= chars.len(),
            digits == chars@.skip(from as int),
            value <= max,
            value == numeral_value(digits.take(i - from)),
            forall|j: int| 0 <= j < i - from ==> '0' <= #[trigger] digits[j] <= '9',
        decreases chars.len() - i,
    {
        let c: char = chars[i];
        assert(digits[i - from] == c);
        if c < '0' || c > '9' {
            return None;
        }
        proof {
            assert(digits.take(i - from + 1).drop_last() == digits.take(i - from));
            assert(digits.take(i - from + 1).last() == c);
        }
        let step: u128 = (c as u32 - 0x30) as u128;
        value = value * 10 + step;
        if value > max as u128 {
            proof {
                lemma_numeral_value_grows(digits, i - from + 1);
            }
            return None;
        }
        i = i + 1;
    }
    assert(digits.take(i - from) == digits);
    Some(value as u64)
}

/// A longer run of digits never stands for a smaller number.
proof fn lemma_numeral_value_grows(s: Seq<char>, k: int)
    requires
        0 <= k <= s.len(),
    ensures
        numeral_value(s.take(k)) <= numeral_value(s),
    decreases s.len() - k,
{
    if k == s.len() {
        assert(s.take(k) == s);
    } else {
        assert(s.take(k + 1).drop_last() == s.take(k));
        lemma_numeral_value_grows(s, k + 1);
    }
}

/// Reads an unsigned numeral of a number that is at most `max`.
pub fn parse_unsigned(text: &str, max: u64) -> (value: Option<u64>)
    ensures
        match value {
            Some(n) => unsigned_up_to(text@, max as nat) == Some(n as nat),
            None => unsigned_up_to(text@, max as nat) is None,
        },
{
    let chars: Vec<char> = chars_of(text);
    if chars.len() > 0 && chars[0] == '+' {
        assert(chars@.skip(1) == text@.drop_first());
        parse_digits(&chars, 1, max)
    } else {
        assert(chars@.skip(0) == text@);
        parse_digits(&chars, 0, max)
    }
}

/// Reads a signed numeral of a number that fits an `i64`.
pub fn parse_signed(text: &str) -> (value: Option<i64>)
    ensures
        match value {
            Some(n) => signed_value(text@) == Some(n as int),
            None => match signed_value(text@) {
                Some(n) => n < i64::MIN || n > i64::MAX,
                None => true,
            },
        },
{
    let chars: Vec<char> = chars_of(text);
    if chars.len() > 0 && chars[0] == '-' {
        assert(chars@.skip(1) == text@.drop_first());
        match parse_digits(&chars, 1, 0x8000_0000_0000_0000) {
            Some(n) => if n == 0x8000_0000_0000_0000 {
                Some(i64::MIN)
            } else {
                Some(-(n as i64))
            },
            None => None,
        }
    } else {
        match parse_unsigned(text, 0x7fff_ffff_ffff_ffff) {
            Some(n) => Some(n as i64),
            None => None,
        }
    }
}

fn digit_text(d: u64) -> (numeral: &'static str)
    requires
        d < 10,
    ensures
        numeral@ == seq![digit(d as int)],
{
    proof {
        reveal_strlit("0");
        reveal_strlit("1");
        reveal_strlit("2");
        reveal_strlit("3");
        reveal_strlit("4");
        reveal_strlit("5");
        reveal_strlit("6");
        reveal_strlit("7");
        reveal_strlit("8");
        reveal_strlit("9");
    }
    match d {
        0 => "0",
        1 => "1",
        2 => "2",
        3 => "3",
        4 => "4",
        5 => "5",
        6 => "6",
        7 => "7",
        8 => "8",
        _ => "9",
    }
}

/// The decimal numeral of an unsigned number.
pub fn render_unsigned(n: u64) -> (numeral: String)
    ensures
        numeral@ == decimal(n as nat),
    decreases n,
{
    if n < 10 {
        digit_text(n).to_owned()
    } else {
        let head: String = render_unsigned(n / 10);
        let numeral: String = head.concat(digit_text(n % 10));
        assert(numeral@ == decimal(n as nat));
        numeral
    }
}

/// The decimal numeral of a signed number.
pub fn render_signed(n: i64) -> (numeral: String)
    ensures
        numeral@ == signed_decimal(n as int),
{
    if n >= 0 {
        render_unsigned(n as u64)
    } else {
        proof {
            reveal_strlit("-");
        }
        let size: u64 = if n == i64::MIN {
            0x8000_0000_0000_0000
        } else {
            (-n) as u64
        };
        let digits: String = render_unsigned(size);
        let numeral: String = "-".to_owned().concat(digits.as_str());
        assert(numeral@ == signed_decimal(n as int));
        numeral
    }
}

/// A decimal numeral is made of digits and stands for the number it was made from.
pub proof fn lemma_decimal_value(n: nat)
    ensures
        is_numeral(decimal(n)),
        numeral_value(decimal(n)) == n,
    decreases n,
{
    if n < 10 {
        assert(decimal(n).drop_last() == Seq::<char>::empty());
        assert(numeral_value(Seq::<char>::empty()) == 0);
        assert(decimal(n).last() as nat == n + 0x30);
    } else {
        lemma_decimal_value(n / 10);
        assert(decimal(n).drop_last() == decimal(n / 10));
        assert(decimal(n).last() as nat == n % 10 + 0x30);
    }
}

/// Reading back a decimal numeral gives the number it was made from.
pub proof fn law_decimal_reads_back(n: nat)
    ensures
        unsigned_value(decimal(n)) == Some(n),
{
    lemma_decimal_value(n);
}

/// Reading back a signed decimal numeral gives the number it was made from.
pub proof fn law_signed_decimal_reads_back(n: int)
    ensures
        signed_value(signed_decimal(n)) == Some(n),
{
    if n < 0 {
        lemma_decimal_value((-n) as nat);
        assert(signed_decimal(n).drop_first() == decimal((-n) as nat));
    } else {
        lemma_decimal_value(n as nat);
        assert('0' <= decimal(n as nat)[0] <= '9');
    }
}

/// Trimming cuts white space from the two ends and nothing else: what is left is one
/// stretch of the text, all that was cut is white space, and neither end of what is left is.
pub proof fn law_trimming_cuts_white_space_alone(s: Seq<char>)
    ensures
        exists|a: int, b: int|
            {
                &&& 0 <= a <= b <= s.len()
                &&& trimmed(s) == #[trigger] s.subrange(a, b)
                &&& forall|k: int|
                    0 <= k < s.len() && (k < a || b <= k) ==> is_white_space(#[trigger] s[k])
                &&& a < b ==> !is_white_space(s[a]) && !is_white_space(s[b - 1])
            },
{
    let a = lemma_start_cut(s);
    let t = trimmed_start(s);
    let n = lemma_end_cut(t);
    let b = a + n;
    assert(t.take(n) =~= s.subrange(a, b));
    assert forall|k: int| 0 <= k < s.len() && (k < a || b <= k) implies is_white_space(
        #[trigger] s[k],
    ) by {
        if b <= k {
            assert(t[k - a] == s[k]);
        }
    }
    if a < b {
        assert(t[0] == s[a]);
        assert(t[n - 1] == s[b - 1]);
        assert(!is_white_space(t[0]));
    }
}

/// How much is cut from the start.
proof fn lemma_start_cut(s: Seq<char>) -> (a: int)
    ensures
        0 <= a <= s.len(),
        trimmed_start(s) == s.skip(a),
        forall|k: int| 0 <= k < a ==> is_white_space(#[trigger] s[k]),
        a < s.len() ==> !is_white_space(s[a]),
    decreases s.len(),
{
    if s.len() > 0 && is_white_space(s.first()) {
        let rest = s.drop_first();
        let c = lemma_start_cut(rest);
        assert(rest.skip(c) =~= s.skip(c + 1));
        assert forall|k: int| 0 <= k < c + 1 implies is_white_space(#[trigger] s[k]) by {
            if k > 0 {
                assert(rest[k - 1] == s[k]);
            }
        }
        if c + 1 < s.len() {
            assert(rest[c] == s[c + 1]);
        }
        c + 1
    } else {
        assert(s.skip(0) =~= s);
        0
    }
}

/// How much is left before what is cut from the end.
proof fn lemma_end_cut(s: Seq<char>) -> (n: int)
    ensures
        0 <= n <= s.len(),
        trimmed_end(s) == s.take(n),
        forall|k: int| n <= k < s.len() ==> is_white_space(#[trigger] s[k]),
        n > 0 ==> !is_white_space(s[n - 1]),
    decreases s.len(),
{
    if s.len() > 0 && is_white_space(s.last()) {
        let rest = s.drop_last();
        let n = lemma_end_cut(rest);
        assert(rest.take(n) =~= s.take(n));
        assert forall|k: int| n <= k < s.len() implies is_white_space(#[trigger] s[k]) by {
            if k < s.len() - 1 {
                assert(rest[k] == s[k]);
            }
        }
        n
    } else {
        assert(s.take(s.len() as int) =~= s);
        s.len() as int
    }
}

/// A text is blank, and trimmed to nothing, just when all of it is white space.
pub proof fn law_blank_is_all_white_space(s: Seq<char>)
    ensures
        trimmed(s).len() == 0 <==> forall|k: int|
            0 <= k < s.len() ==> is_white_space(#[trigger] s[k]),
{
    let a = lemma_start_cut(s);
    let t = trimmed_start(s);
    let n = lemma_end_cut(t);
    if trimmed(s).len() == 0 {
        assert forall|k: int| 0 <= k < s.len() implies is_white_space(#[trigger] s[k]) by {
            if k >= a {
                assert(t[k - a] == s[k]);
            }
        }
    } else {
        assert(t[n - 1] == s[a + n - 1]);
    }
}

/// Ten to the power of `n`.
pub open spec fn ten_to_the(n: nat) -> nat
    decreases n,
{
    if n == 0 {
        1
    } else {
        10 * ten_to_the((n - 1) as nat)
    }
}

/// A digit counts by its place: a digit in front of `n` others stands for its value times
/// the `n`-th power of ten.
pub proof fn law_digits_count_by_place(c: char, rest: Seq<char>)
    requires
        '0' <= c <= '9',
        is_numeral(seq![c] + rest),
    ensures
        numeral_value(seq![c] + rest) == (c as nat - '0' as nat) * ten_to_the(rest.len())
            + numeral_value(rest),
    decreases rest.len(),
{
    let s = seq![c] + rest;
    if rest.len() == 0 {
        assert(s.drop_last() =~= Seq::<char>::empty());
        assert(numeral_value(Seq::<char>::empty()) == 0);
        assert(rest =~= Seq::<char>::empty());
        assert(s.last() == c);
        assert(ten_to_the(0) == 1);
    } else {
        let shorter = rest.drop_last();
        assert(s.drop_last() =~= seq![c] + shorter);
        assert forall|i: int| 0 <= i < (seq![c] + shorter).len() implies '0' <= #[trigger] (seq![c]
            + shorter)[i] <= '9' by {
            assert((seq![c] + shorter)[i] == s[i]);
        }
        law_digits_count_by_place(c, shorter);
        let d = (c as nat - '0' as nat) as int;
        let p = ten_to_the(shorter.len()) as int;
        assert(s.last() == rest.last());
        assert(10 * (d * p + numeral_value(shorter)) == d * (10 * p) + 10 * numeral_value(shorter))
            by (nonlinear_arith);
    }
}

/// A numeral is read as its number with a plus sign and without, and as the opposite with a
/// minus sign; and what has anything but digits behind its sign, or nothing, is no number.
pub proof fn law_signs_are_read(digits: Seq<char>)
    ensures
        is_numeral(digits) ==> {
            &&& unsigned_value(digits) == Some(numeral_value(digits))
            &&& unsigned_value(seq!['+'] + digits) == Some(numeral_value(digits))
            &&& unsigned_value(seq!['-'] + digits) is None
            &&& signed_value(digits) == Some(numeral_value(digits) as int)
            &&& signed_value(seq!['+'] + digits) == Some(numeral_value(digits) as int)
            &&& signed_value(seq!['-'] + digits) == Some(-(numeral_value(digits) as int))
        },
        !is_numeral(digits) ==> {
            &&& unsigned_value(seq!['+'] + digits) is None
            &&& signed_value(seq!['+'] + digits) is None
            &&& signed_value(seq!['-'] + digits) is None
            &&& unsigned_value(digits) is Some ==> digits[0] == '+'
            &&& signed_value(digits) is Some ==> digits[0] == '+' || digits[0] == '-'
        },
{
    assert((seq!['+'] + digits).drop_first() =~= digits);
    assert((seq!['-'] + digits).drop_first() =~= digits);
    if is_numeral(digits) {
        assert('0' <= digits[0] <= '9');
    }
    assert((seq!['-'] + digits)[0] == '-');
    assert(!is_numeral(seq!['-'] + digits));
}

/// A bound on a number leaves out what is over it and changes nothing else.
pub proof fn law_bound_leaves_out_the_rest(s: Seq<char>, max: nat)
    ensures
        unsigned_up_to(s, max) == unsigned_value(s) || (unsigned_up_to(s, max) is None && (
        unsigned_value(s) matches Some(n) && n > max)),
        unsigned_up_to(s, max) matches Some(n) ==> n <= max,
        unsigned_value(s) matches Some(n) ==> (n <= max ==> unsigned_up_to(s, max) == Some(n)),
{
}

/// Whether `c` is the letter `w` in either case. `w` is in lower case.
pub open spec fn same_letter(c: char, w: char) -> bool {
    c == w || ('a' <= w <= 'z' && c as u32 + 32 == w as u32)
}

/// Two texts are the same but for the case of letters just when their characters are.
/// `word` is in lower case.
pub proof fn law_case_is_all_that_is_lost(s: Seq<char>, word: Seq<char>)
    requires
        forall|i: int| 0 <= i < word.len() ==> !('A' <= #[trigger] word[i] <= 'Z'),
    ensures
        ascii_lowered(s) == word <==> s.len() == word.len() && forall|i: int|
            0 <= i < s.len() ==> same_letter(#[trigger] s[i], word[i]),
{
    let low = ascii_lowered(s);
    if low == word {
        assert forall|i: int| 0 <= i < s.len() implies same_letter(#[trigger] s[i], word[i]) by {
            assert(low[i] == ascii_lower(s[i]));
        }
    }
    if s.len() == word.len() && forall|i: int|
        0 <= i < s.len() ==> same_letter(#[trigger] s[i], word[i]) {
        assert forall|i: int| 0 <= i < s.len() implies low[i] == word[i] by {
            assert(same_letter(s[i], word[i]));
            assert(low[i] == ascii_lower(s[i]));
        }
        assert(low =~= word);
    }
}

/// A numeral that is made has digits alone and no zero in front.
pub proof fn law_decimal_has_no_zero_in_front(n: nat)
    ensures
        is_numeral(decimal(n)),
        decimal(n)[0] == '0' ==> n == 0,
        decimal(n).len() == 1 <==> n < 10,
    decreases n,
{
    lemma_decimal_value(n);
    if n >= 10 {
        law_decimal_has_no_zero_in_front(n / 10);
        assert(decimal(n)[0] == decimal(n / 10)[0]);
    } else {
        assert(decimal(n)[0] as nat == n + 0x30);
    }
}

} // verus!
