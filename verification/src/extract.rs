//! Finding the JSON object in a model's reply.
//!
//! A reply may wrap the object in prose or in a code fence. A candidate goes from an
//! opening brace to the brace that closes it, where braces in double-quoted strings do
//! not count, and the first candidate that is JSON is the answer. What is left to tell is
//! the prose from the candidates, and prose does not keep to rules. There are three tries:
//!
//! 1. quotes in the prose come in pairs, and braces between them do not count;
//! 2. quotes in the prose mean nothing, as where one stands for inches;
//! 3. braces and quotes are counted through the whole text, so that a closing brace too
//!    many makes up for an opening one.
//!
//! In the first two a closing brace outside of the candidates means nothing.

use vstd::prelude::*;
use vstd::string::StrSliceExecFns;

use crate::json::{json_value, parse_json, Json, JsonView};
use crate::text::chars_of;

verus! {

/// Where a scan stands with respect to double-quoted strings.
#[derive(Debug, Clone, Copy, PartialEq, Eq, Structural)]
pub enum Quoting {
    /// Outside of any string.
    Outside,
    /// Inside of a string.
    Inside,
    /// Inside of a string, right after a backslash.
    Escaped,
}

/// The quoting after one more character.
pub open spec fn quoting_step(quoting: Quoting, c: char) -> Quoting {
    match quoting {
        Quoting::Outside => if c == '"' {
            Quoting::Inside
        } else {
            Quoting::Outside
        },
        Quoting::Inside => if c == '\\' {
            Quoting::Escaped
        } else if c == '"' {
            Quoting::Outside
        } else {
            Quoting::Inside
        },
        Quoting::Escaped => Quoting::Inside,
    }
}

/// The quoting after the first `n` characters of a stretch.
pub open spec fn quoting_after(s: Seq<char>, n: int) -> Quoting
    decreases n,
{
    if n <= 0 {
        Quoting::Outside
    } else {
        quoting_step(quoting_after(s, n - 1), s[n - 1])
    }
}

/// How many more braces are open than closed after the first `n` characters of a
/// stretch. Braces in strings do not count.
pub open spec fn depth_after(s: Seq<char>, n: int) -> int
    decreases n,
{
    if n <= 0 {
        0
    } else if quoting_after(s, n - 1) != Quoting::Outside {
        depth_after(s, n - 1)
    } else if s[n - 1] == '{' {
        depth_after(s, n - 1) + 1
    } else if s[n - 1] == '}' {
        depth_after(s, n - 1) - 1
    } else {
        depth_after(s, n - 1)
    }
}

/// Whether a stretch goes from an opening brace to the brace that closes it.
pub open spec fn is_balanced(s: Seq<char>) -> bool {
    &&& s.len() > 0
    &&& s[0] == '{'
    &&& depth_after(s, s.len() as int) == 0
    &&& forall|m: int| 0 < m < s.len() ==> #[trigger] depth_after(s, m) > 0
}

/// Whether the brace at `a` is closed just before `b`.
pub open spec fn closes(s: Seq<char>, a: int, b: int) -> bool {
    &&& 0 <= a < b <= s.len()
    &&& is_balanced(s.subrange(a, b))
}

/// The quoting of the prose after one more character, for prose whose quotes come in
/// pairs (`paired`) and for prose whose quotes mean nothing.
pub open spec fn prose_step(quoting: Quoting, c: char, paired: bool) -> Quoting {
    if paired {
        quoting_step(quoting, c)
    } else {
        Quoting::Outside
    }
}

/// Where the first opening brace of the prose from `from` on stands, given the quoting
/// there; the end where there is none.
pub open spec fn first_brace(s: Seq<char>, from: int, quoting: Quoting, paired: bool) -> int
    decreases s.len() - from,
{
    if from >= s.len() {
        s.len() as int
    } else if quoting == Quoting::Outside && s[from] == '{' {
        from
    } else {
        first_brace(s, from + 1, prose_step(quoting, s[from], paired), paired)
    }
}

/// The candidates from `from` on, from left to right, given the quoting there. The first
/// starts at the first opening brace of the prose, and the next is looked for behind its
/// end. A brace that is never closed takes the rest of the text with it.
pub open spec fn candidates(s: Seq<char>, from: int, quoting: Quoting, paired: bool) -> Seq<
    (int, int),
>
    decreases s.len() - from,
{
    let a = first_brace(s, from, quoting, paired);
    if from <= a < s.len() && exists|b: int| closes(s, a, b) {
        let b = choose|b: int| closes(s, a, b);
        seq![(a, b)] + candidates(s, b, Quoting::Outside, paired)
    } else {
        Seq::empty()
    }
}

/// Where the last brace before `n` stands that opens where as many are closed as opened,
/// counted from the start of the text.
pub open spec fn last_opened(s: Seq<char>, n: int) -> int
    decreases n,
{
    if n <= 0 {
        0
    } else if quoting_after(s, n - 1) == Quoting::Outside && s[n - 1] == '{' && depth_after(
        s,
        n - 1,
    ) == 0 {
        n - 1
    } else {
        last_opened(s, n - 1)
    }
}

/// Whether the `n`-th character is a brace that closes as many as were opened, counted
/// from the start of the text.
pub open spec fn evens_out(s: Seq<char>, n: int) -> bool {
    &&& quoting_after(s, n - 1) == Quoting::Outside
    &&& s[n - 1] == '}'
    &&& depth_after(s, n) == 0
}

/// The stretches among the first `n` characters that counting from the start of the text
/// gives, from left to right.
pub open spec fn counted(s: Seq<char>, n: int) -> Seq<(int, int)>
    decreases n,
{
    if n <= 0 {
        Seq::empty()
    } else if evens_out(s, n) {
        counted(s, n - 1).push((last_opened(s, n), n))
    } else {
        counted(s, n - 1)
    }
}

/// The value of the first of some stretches that is JSON.
pub open spec fn first_value(s: Seq<char>, spans: Seq<(int, int)>) -> Option<JsonView>
    decreases spans.len(),
{
    if spans.len() == 0 {
        None
    } else {
        match json_value(s.subrange(spans[0].0, spans[0].1)) {
            Some(value) => Some(value),
            None => first_value(s, spans.drop_first()),
        }
    }
}

/// The first of two values.
pub open spec fn either(first: Option<JsonView>, second: Option<JsonView>) -> Option<JsonView> {
    match first {
        Some(value) => Some(value),
        None => second,
    }
}

/// What a try with `paired` quotes, or with quotes that mean nothing, finds.
pub open spec fn tried(s: Seq<char>, paired: bool) -> Option<JsonView> {
    first_value(s, candidates(s, 0, Quoting::Outside, paired))
}

/// The value of the first candidate that is JSON, in the first try that has one.
pub open spec fn extracted(s: Seq<char>) -> Option<JsonView> {
    either(tried(s, true), either(tried(s, false), first_value(s, counted(s, s.len() as int))))
}

/// Quoting and depth depend on the characters up to there alone.
proof fn lemma_scan_is_local(s: Seq<char>, t: Seq<char>, n: int)
    requires
        n <= s.len(),
        n <= t.len(),
        forall|k: int| 0 <= k < n ==> s[k] == t[k],
    ensures
        quoting_after(s, n) == quoting_after(t, n),
        depth_after(s, n) == depth_after(t, n),
    decreases n,
{
    if n > 0 {
        lemma_scan_is_local(s, t, n - 1);
    }
}

/// A brace is closed in one place only.
proof fn lemma_closes_once(s: Seq<char>, a: int, b: int, c: int)
    requires
        closes(s, a, b),
        closes(s, a, c),
    ensures
        b == c,
{
    let t = s.subrange(a, b);
    let u = s.subrange(a, c);
    if b < c {
        lemma_scan_is_local(t, u, b - a);
        assert(depth_after(u, b - a) > 0);
    } else if c < b {
        lemma_scan_is_local(u, t, c - a);
        assert(depth_after(t, c - a) > 0);
    }
}

/// The first candidate is the one at the first brace.
proof fn lemma_first_candidate(s: Seq<char>, from: int, quoting: Quoting, paired: bool, b: int)
    requires
        0 <= from <= first_brace(s, from, quoting, paired) < s.len(),
        closes(s, first_brace(s, from, quoting, paired), b),
    ensures
        candidates(s, from, quoting, paired) == seq![
            (first_brace(s, from, quoting, paired), b),
        ] + candidates(s, b, Quoting::Outside, paired),
{
    let a = first_brace(s, from, quoting, paired);
    let c = choose|c: int| closes(s, a, c);
    lemma_closes_once(s, a, b, c);
}

/// In paired prose without an opening brace outside of its quotes the first brace is the
/// one behind it.
proof fn lemma_brace_behind_paired(s: Seq<char>, from: int, a: int)
    requires
        0 <= from <= a < s.len(),
        forall|k: int|
            from <= k < a && #[trigger] quoting_after(s, k) == Quoting::Outside ==> s[k] != '{',
        quoting_after(s, a) == Quoting::Outside,
        s[a] == '{',
    ensures
        first_brace(s, from, quoting_after(s, from), true) == a,
    decreases a - from,
{
    if from < a {
        assert(quoting_after(s, from + 1) == quoting_step(quoting_after(s, from), s[from]));
        lemma_brace_behind_paired(s, from + 1, a);
    }
}

/// In prose whose quotes mean nothing the first brace is the first brace.
proof fn lemma_brace_behind_unpaired(s: Seq<char>, from: int, a: int)
    requires
        0 <= from <= a <= s.len(),
        forall|k: int| from <= k < a ==> s[k] != '{',
        a < s.len() ==> s[a] == '{',
    ensures
        first_brace(s, from, Quoting::Outside, false) == a,
    decreases a - from,
{
    if from < a {
        lemma_brace_behind_unpaired(s, from + 1, a);
    }
}

/// Extraction fails exactly where no stretch of any try is JSON.
pub proof fn law_extraction_fails_only_without_object(s: Seq<char>)
    ensures
        extracted(s) is None <==> none_is_json(s, candidates(s, 0, Quoting::Outside, true))
            && none_is_json(s, candidates(s, 0, Quoting::Outside, false)) && none_is_json(
            s,
            counted(s, s.len() as int),
        ),
{
    lemma_first_value(s, candidates(s, 0, Quoting::Outside, true));
    lemma_first_value(s, candidates(s, 0, Quoting::Outside, false));
    lemma_first_value(s, counted(s, s.len() as int));
}

/// Whether none of some stretches is JSON.
pub open spec fn none_is_json(s: Seq<char>, spans: Seq<(int, int)>) -> bool {
    forall|k: int|
        0 <= k < spans.len() ==> json_value(s.subrange((#[trigger] spans[k]).0, spans[k].1)) is None
}

proof fn lemma_first_value(s: Seq<char>, spans: Seq<(int, int)>)
    ensures
        first_value(s, spans) is None <==> none_is_json(s, spans),
    decreases spans.len(),
{
    if spans.len() > 0 {
        let rest = spans.drop_first();
        lemma_first_value(s, rest);
        if first_value(s, spans) is None {
            assert forall|k: int| 0 <= k < spans.len() implies json_value(
                s.subrange((#[trigger] spans[k]).0, spans[k].1),
            ) is None by {
                if k > 0 {
                    assert(spans[k] == rest[k - 1]);
                }
            }
        } else if forall|k: int|
            0 <= k < spans.len() ==> json_value(
                s.subrange((#[trigger] spans[k]).0, spans[k].1),
            ) is None {
            assert(json_value(s.subrange(spans[0].0, spans[0].1)) is None);
            assert forall|k: int| 0 <= k < rest.len() implies json_value(
                s.subrange((#[trigger] rest[k]).0, rest[k].1),
            ) is None by {
                assert(rest[k] == spans[k + 1]);
            }
        }
    }
}

/// An object that is wrapped in prose is recovered whole, and the first of several wins:
/// whatever follows the object, and behind any prose whose quotes are closed and whose
/// opening braces all stand between quotes.
pub proof fn law_wrapped_object_is_recovered(before: Seq<char>, object: Seq<char>, after: Seq<char>)
    requires
        quoting_after(before, before.len() as int) == Quoting::Outside,
        forall|k: int|
            0 <= k < before.len() && #[trigger] quoting_after(before, k) == Quoting::Outside
                ==> before[k] != '{',
        is_balanced(object),
        json_value(object) is Some,
    ensures
        extracted(before + object + after) == json_value(object),
{
    let s = before + object + after;
    let a = before.len() as int;
    let b = a + object.len();
    assert(s.subrange(a, b) =~= object);
    assert forall|k: int|
        0 <= k < a && #[trigger] quoting_after(s, k) == Quoting::Outside implies s[k] != '{' by {
        lemma_scan_is_local(s, before, k);
        assert(s[k] == before[k]);
        assert(quoting_after(before, k) == Quoting::Outside);
    }
    lemma_scan_is_local(s, before, a);
    assert(s[a] == object[0]);
    lemma_brace_behind_paired(s, 0, a);
    assert(closes(s, a, b));
    lemma_first_candidate(s, 0, Quoting::Outside, true, b);
    assert(candidates(s, 0, Quoting::Outside, true)[0] == (a, b));
}

/// An object behind prose without a quote and without an opening brace is recovered whole,
/// whatever follows it.
pub proof fn law_object_behind_plain_prose_is_recovered(
    before: Seq<char>,
    object: Seq<char>,
    after: Seq<char>,
)
    requires
        !before.contains('"'),
        !before.contains('{'),
        is_balanced(object),
        json_value(object) is Some,
    ensures
        extracted(before + object + after) == json_value(object),
{
    lemma_no_quote(before, before.len() as int);
    assert forall|k: int|
        0 <= k < before.len() && #[trigger] quoting_after(before, k)
            == Quoting::Outside implies before[k] != '{' by {
        assert(before.contains(before[k]));
    }
    law_wrapped_object_is_recovered(before, object, after);
}

proof fn lemma_no_quote(s: Seq<char>, n: int)
    requires
        !s.contains('"'),
        n <= s.len(),
    ensures
        quoting_after(s, n) == Quoting::Outside,
    decreases n,
{
    if n > 0 {
        lemma_no_quote(s, n - 1);
        assert(s.contains(s[n - 1]));
    }
}

/// Quotes and closing braces in the prose, whatever they are, do not hide an object from a
/// reply in which pairing the quotes finds none.
pub proof fn law_stray_quotes_hide_nothing(before: Seq<char>, object: Seq<char>, after: Seq<char>)
    requires
        !before.contains('{'),
        is_balanced(object),
        json_value(object) is Some,
        tried(before + object + after, true) is None,
    ensures
        extracted(before + object + after) == json_value(object),
{
    let s = before + object + after;
    let a = before.len() as int;
    let b = a + object.len();
    assert(s.subrange(a, b) =~= object);
    assert forall|k: int| 0 <= k < a implies s[k] != '{' by {
        assert(s[k] == before[k]);
        assert(before.contains(before[k]));
    }
    assert(s[a] == object[0]);
    lemma_brace_behind_unpaired(s, 0, a);
    assert(closes(s, a, b));
    lemma_first_candidate(s, 0, Quoting::Outside, false, b);
    assert(candidates(s, 0, Quoting::Outside, false)[0] == (a, b));
}

/// A text without an opening brace holds no object.
pub proof fn law_nothing_extracted_without_brace(s: Seq<char>)
    requires
        !s.contains('{'),
    ensures
        extracted(s) is None,
{
    assert forall|k: int| 0 <= k < s.len() implies s[k] != '{' by {
        assert(s.contains(s[k]));
    }
    lemma_no_brace(s, 0, Quoting::Outside, true);
    lemma_no_brace(s, 0, Quoting::Outside, false);
    lemma_nothing_counted(s, s.len() as int);
}

proof fn lemma_no_brace(s: Seq<char>, from: int, quoting: Quoting, paired: bool)
    requires
        0 <= from <= s.len(),
        forall|k: int| 0 <= k < s.len() ==> s[k] != '{',
    ensures
        first_brace(s, from, quoting, paired) == s.len(),
    decreases s.len() - from,
{
    if from < s.len() {
        lemma_no_brace(s, from + 1, prose_step(quoting, s[from], paired), paired);
    }
}

proof fn lemma_nothing_counted(s: Seq<char>, n: int)
    requires
        n <= s.len(),
        forall|k: int| 0 <= k < s.len() ==> s[k] != '{',
    ensures
        depth_after(s, n) <= 0,
        counted(s, n) == Seq::<(int, int)>::empty(),
    decreases n,
{
    if n > 0 {
        lemma_nothing_counted(s, n - 1);
    }
}

fn next_quoting(quoting: Quoting, c: char) -> (next: Quoting)
    ensures
        next == quoting_step(quoting, c),
{
    match quoting {
        Quoting::Outside => if c == '"' {
            Quoting::Inside
        } else {
            Quoting::Outside
        },
        Quoting::Inside => if c == '\\' {
            Quoting::Escaped
        } else if c == '"' {
            Quoting::Outside
        } else {
            Quoting::Inside
        },
        Quoting::Escaped => Quoting::Inside,
    }
}

/// Stretches of a text as pairs of numbers.
pub open spec fn spans_view(spans: Seq<(usize, usize)>) -> Seq<(int, int)> {
    spans.map_values(|span: (usize, usize)| (span.0 as int, span.1 as int))
}

/// The candidates of `text` from left to right, each as the positions of its first
/// character and of the one behind its last; for prose whose quotes come in pairs, or for
/// prose whose quotes mean nothing.
pub fn object_spans(text: &str, paired: bool) -> (spans: Vec<(usize, usize)>)
    ensures
        spans_view(spans@) == candidates(text@, 0, Quoting::Outside, paired),
        begin_with_brace(spans@, text@),
{
    let chars: Vec<char> = chars_of(text);
    let ghost s = text@;
    let ghost all = candidates(s, 0, Quoting::Outside, paired);
    let mut spans: Vec<(usize, usize)> = Vec::new();
    let mut start: usize = 0;
    let mut depth: usize = 0;
    let mut quoting: Quoting = Quoting::Outside;
    let mut i: usize = 0;
    assert(spans_view(spans@) + all =~= all);
    while i < chars.len()
        invariant
            chars@ == s,
            s == text@,
            all == candidates(s, 0, Quoting::Outside, paired),
            start <= i <= chars.len(),
            depth <= i - start,
            begin_with_brace(spans@, s),
            depth == 0 ==> {
                &&& spans_view(spans@) + candidates(s, i as int, quoting, paired) == all
                &&& !paired ==> quoting == Quoting::Outside
            },
            depth > 0 ==> {
                let rest = s.skip(start as int);
                &&& start < i
                &&& s[start as int] == '{'
                &&& spans_view(spans@) + candidates(s, start as int, Quoting::Outside, paired) == all
                &&& quoting == quoting_after(rest, i - start)
                &&& depth == depth_after(rest, i - start)
                &&& forall|m: int| 0 < m <= i - start ==> #[trigger] depth_after(rest, m) > 0
            },
        decreases chars.len() - i,
    {
        let c: char = chars[i];
        if depth == 0 {
            if quoting == Quoting::Outside && c == '{' {
                start = i;
                depth = 1;
                proof {
                    let rest = s.skip(start as int);
                    assert(rest[0] == '{');
                    assert(quoting_after(rest, 0) == Quoting::Outside);
                    assert(depth_after(rest, 0) == 0);
                    assert(quoting_after(rest, 1) == Quoting::Outside);
                    assert(depth_after(rest, 1) == 1);
                }
            } else {
                start = i + 1;
                proof {
                    lemma_candidates_behind(s, i as int, quoting, paired);
                }
                if paired {
                    quoting = next_quoting(quoting, c);
                }
            }
        } else {
            let ghost rest = s.skip(start as int);
            assert(rest[i - start] == c);
            if quoting == Quoting::Outside {
                if c == '{' {
                    depth = depth + 1;
                } else if c == '}' {
                    depth = depth - 1;
                }
            }
            quoting = next_quoting(quoting, c);
            if depth == 0 {
                let ghost before = spans_view(spans@);
                spans.push((start, i + 1));
                proof {
                    let t = s.subrange(start as int, i + 1);
                    assert forall|m: int| 0 < m < t.len() implies #[trigger] depth_after(t, m) > 0 by {
                        lemma_scan_is_local(t, rest, m);
                    }
                    lemma_scan_is_local(t, rest, t.len() as int);
                    assert(closes(s, start as int, i + 1));
                    lemma_first_candidate(s, start as int, Quoting::Outside, paired, i + 1);
                    let behind = candidates(s, i + 1, Quoting::Outside, paired);
                    assert(spans_view(spans@) + behind =~= before + (seq![(start as int, i + 1)]
                        + behind));
                }
                start = i + 1;
            }
        }
        i = i + 1;
    }
    proof {
        if depth > 0 {
            let rest = s.skip(start as int);
            assert forall|b: int| !closes(s, start as int, b) by {
                if closes(s, start as int, b) {
                    let t = s.subrange(start as int, b);
                    lemma_scan_is_local(t, rest, t.len() as int);
                }
            }
            assert(candidates(s, start as int, Quoting::Outside, paired) =~= Seq::empty());
        } else {
            assert(candidates(s, i as int, quoting, paired) =~= Seq::empty());
        }
        assert(spans_view(spans@) + Seq::<(int, int)>::empty() =~= spans_view(spans@));
    }
    spans
}

/// Whether some stretches lie in a text and each begins with an opening brace.
pub open spec fn begin_with_brace(spans: Seq<(usize, usize)>, s: Seq<char>) -> bool {
    forall|k: int|
        0 <= k < spans.len() ==> (#[trigger] spans[k]).0 < spans[k].1 <= s.len()
            && s[spans[k].0 as int] == '{'
}

/// A character that opens no candidate is stepped over.
proof fn lemma_candidates_behind(s: Seq<char>, i: int, quoting: Quoting, paired: bool)
    requires
        0 <= i < s.len(),
        !(quoting == Quoting::Outside && s[i] == '{'),
    ensures
        candidates(s, i, quoting, paired) == candidates(
            s,
            i + 1,
            prose_step(quoting, s[i], paired),
            paired,
        ),
{
    lemma_first_brace_is_ahead(s, i + 1, prose_step(quoting, s[i], paired), paired);
}

proof fn lemma_first_brace_is_ahead(s: Seq<char>, from: int, quoting: Quoting, paired: bool)
    requires
        0 <= from <= s.len(),
    ensures
        from <= first_brace(s, from, quoting, paired) <= s.len(),
    decreases s.len() - from,
{
    if from < s.len() {
        lemma_first_brace_is_ahead(s, from + 1, prose_step(quoting, s[from], paired), paired);
    }
}

/// The stretches of `text` that counting its braces from the start gives, from left to
/// right.
pub fn counted_spans(text: &str) -> (spans: Vec<(usize, usize)>)
    ensures
        spans_view(spans@) == counted(text@, text@.len() as int),
        begin_with_brace(spans@, text@),
{
    let chars: Vec<char> = chars_of(text);
    let ghost s = text@;
    let mut spans: Vec<(usize, usize)> = Vec::new();
    let mut start: usize = 0;
    let mut depth: i128 = 0;
    let mut quoting: Quoting = Quoting::Outside;
    let mut i: usize = 0;
    assert(spans_view(spans@) =~= counted(s, 0));
    while i < chars.len()
        invariant
            chars@ == s,
            s == text@,
            start <= i <= chars.len(),
            quoting == quoting_after(s, i as int),
            depth == depth_after(s, i as int),
            -(i as int) <= depth <= i,
            start == last_opened(s, i as int),
            depth > 0 ==> start < i && s[start as int] == '{',
            begin_with_brace(spans@, s),
            spans_view(spans@) == counted(s, i as int),
        decreases chars.len() - i,
    {
        let c: char = chars[i];
        let ghost before = spans_view(spans@);
        if quoting == Quoting::Outside {
            if c == '{' {
                if depth == 0 {
                    start = i;
                }
                depth = depth + 1;
            } else if c == '}' {
                depth = depth - 1;
                if depth == 0 {
                    spans.push((start, i + 1));
                    assert(spans_view(spans@) =~= before.push((start as int, i + 1)));
                }
            }
        }
        quoting = next_quoting(quoting, c);
        i = i + 1;
    }
    spans
}

/// The value of the first of some stretches of `text` that is JSON.
fn first_json(text: &str, spans: &Vec<(usize, usize)>) -> (object: Option<Json>)
    requires
        begin_with_brace(spans@, text@),
    ensures
        match object {
            Some(value) => first_value(text@, spans_view(spans@)) == Some(value@),
            None => first_value(text@, spans_view(spans@)) is None,
        },
        object matches Some(value) ==> value@ is Object,
{
    let ghost all = spans_view(spans@);
    assert(all.skip(0) =~= all);
    let mut k: usize = 0;
    while k < spans.len()
        invariant
            k <= spans.len(),
            all == spans_view(spans@),
            begin_with_brace(spans@, text@),
            first_value(text@, all) == first_value(text@, all.skip(k as int)),
        decreases spans.len() - k,
    {
        let (a, b) = spans[k];
        assert(spans@[k as int].0 < spans@[k as int].1);
        assert(all.skip(k as int)[0] == (a as int, b as int));
        assert(all.skip(k as int).drop_first() =~= all.skip(k + 1));
        let found: Option<Json> = parse_json(text.substring_char(a, b));
        if found.is_some() {
            return found;
        }
        k = k + 1;
    }
    None
}

/// Extracts the first JSON object from a model reply, which may wrap it in prose or code
/// fences.
pub fn extract_json_object(text: &str) -> (object: Option<Json>)
    ensures
        match object {
            Some(value) => extracted(text@) == Some(value@),
            None => extracted(text@) is None,
        },
        object matches Some(value) ==> value@ is Object,
{
    let found: Option<Json> = first_json(text, &object_spans(text, true));
    if found.is_some() {
        return found;
    }
    let found: Option<Json> = first_json(text, &object_spans(text, false));
    if found.is_some() {
        return found;
    }
    first_json(text, &counted_spans(text))
}

// ---------------------------------------------------------------------------
// What strings and braces are
// ---------------------------------------------------------------------------

/// How many double quotes among the first `n` characters open or close a string: all but
/// those that are escaped.
pub open spec fn delimiters(s: Seq<char>, n: int) -> nat
    decreases n, 0int,
{
    if n <= 0 {
        0
    } else if s[n - 1] == '"' && !is_escaped(s, n - 1) {
        delimiters(s, n - 1) + 1
    } else {
        delimiters(s, n - 1)
    }
}

/// Whether the character at `k` is escaped: it stands in a string, behind a backslash that is
/// not escaped itself.
pub open spec fn is_escaped(s: Seq<char>, k: int) -> bool
    decreases k, 1int,
{
    &&& k > 0
    &&& s[k - 1] == '\\'
    &&& delimiters(s, k - 1) % 2 == 1
    &&& !is_escaped(s, k - 1)
}

/// A scan is outside of strings just where an even number of double quotes that are not
/// escaped lies behind it, and right behind a backslash that escapes just where the next
/// character is escaped. No other character opens or closes a string.
pub proof fn law_strings_lie_between_double_quotes(s: Seq<char>, n: int)
    requires
        0 <= n <= s.len(),
    ensures
        quoting_after(s, n) == Quoting::Outside <==> delimiters(s, n) % 2 == 0,
        quoting_after(s, n) == Quoting::Escaped <==> delimiters(s, n) % 2 == 1 && is_escaped(s, n),
    decreases n,
{
    if n > 0 {
        law_strings_lie_between_double_quotes(s, n - 1);
        if is_escaped(s, n - 1) && delimiters(s, n - 1) % 2 == 0 {
            // A backslash that escapes is no double quote.
            assert(delimiters(s, n - 1) == delimiters(s, n - 2));
        }
    }
}

/// How many braces `c` outside of strings are among the first `n` characters.
pub open spec fn braces(s: Seq<char>, n: int, c: char) -> nat
    decreases n,
{
    if n <= 0 {
        0
    } else if s[n - 1] == c && delimiters(s, n - 1) % 2 == 0 {
        braces(s, n - 1, c) + 1
    } else {
        braces(s, n - 1, c)
    }
}

/// The depth is the number of opening braces outside of strings less that of closing ones.
pub proof fn law_depth_counts_braces_outside_of_strings(s: Seq<char>, n: int)
    requires
        0 <= n <= s.len(),
    ensures
        depth_after(s, n) == braces(s, n, '{') - braces(s, n, '}'),
    decreases n,
{
    if n > 0 {
        law_depth_counts_braces_outside_of_strings(s, n - 1);
        law_strings_lie_between_double_quotes(s, n - 1);
    }
}

/// What stands in a string does not matter: another character in place of one inside a
/// string, neither of them a double quote or a backslash, changes neither quoting nor depth
/// anywhere.
pub proof fn law_content_of_strings_does_not_matter(s: Seq<char>, k: int, c: char, n: int)
    requires
        0 <= k < s.len(),
        0 <= n <= s.len(),
        delimiters(s, k) % 2 == 1,
        s[k] != '"' && s[k] != '\\',
        c != '"' && c != '\\',
    ensures
        quoting_after(s.update(k, c), n) == quoting_after(s, n),
        depth_after(s.update(k, c), n) == depth_after(s, n),
    decreases n,
{
    let t = s.update(k, c);
    if n > 0 {
        law_content_of_strings_does_not_matter(s, k, c, n - 1);
        if n - 1 == k {
            law_strings_lie_between_double_quotes(s, k);
            lemma_scan_is_local(s, t, k);
        } else {
            assert(t[n - 1] == s[n - 1]);
        }
    }
}

/// The text of an object with one member, a string.
pub open spec fn one_member(name: Seq<char>, value: Seq<char>) -> Seq<char> {
    seq!['{', '"'] + name + seq!['"', ':', '"'] + value + seq!['"', '}']
}

/// Whether a text has neither double quotes nor backslashes.
pub open spec fn is_unquoted(s: Seq<char>) -> bool {
    forall|k: int| 0 <= k < s.len() ==> #[trigger] s[k] != '"' && s[k] != '\\'
}

/// Behind an opening quote a text without quotes and backslashes is inside of the string
/// throughout, and the depth stays.
proof fn lemma_inside(s: Seq<char>, from: int, n: int)
    requires
        0 <= from <= n <= s.len(),
        quoting_after(s, from) == Quoting::Inside,
        forall|k: int| from <= k < n ==> #[trigger] s[k] != '"' && s[k] != '\\',
    ensures
        quoting_after(s, n) == Quoting::Inside,
        depth_after(s, n) == depth_after(s, from),
    decreases n - from,
{
    if from < n {
        lemma_inside(s, from, n - 1);
        assert(s[n - 1] != '"');
    }
}

/// An object with one string, whatever that holds but double quotes and backslashes, goes
/// from its first brace to its last, and is recovered whole from prose.
pub proof fn law_any_plain_string_is_recovered(
    before: Seq<char>,
    name: Seq<char>,
    value: Seq<char>,
    after: Seq<char>,
)
    requires
        is_unquoted(name),
        is_unquoted(value),
        !before.contains('"'),
        !before.contains('{'),
    ensures
        is_balanced(one_member(name, value)),
        json_value(one_member(name, value)) is Some ==> extracted(
            before + one_member(name, value) + after,
        ) == json_value(one_member(name, value)),
{
    let s = one_member(name, value);
    let n = name.len() as int;
    let v = value.len() as int;
    assert(s.len() == n + v + 7);
    assert(s[0] == '{' && s[1] == '"');
    assert(s[2 + n] == '"' && s[3 + n] == ':' && s[4 + n] == '"');
    assert(s[5 + n + v] == '"' && s[6 + n + v] == '}');
    assert forall|k: int| 2 <= k < 2 + n implies #[trigger] s[k] != '"' && s[k] != '\\' by {
        assert(s[k] == name[k - 2]);
    }
    assert forall|k: int| 5 + n <= k < 5 + n + v implies #[trigger] s[k] != '"' && s[k] != '\\' by {
        assert(s[k] == value[k - 5 - n]);
    }
    assert(quoting_after(s, 0) == Quoting::Outside && depth_after(s, 0) == 0);
    assert(quoting_after(s, 1) == Quoting::Outside && depth_after(s, 1) == 1);
    assert(quoting_after(s, 2) == Quoting::Inside && depth_after(s, 2) == 1);
    assert forall|m: int| 2 <= m <= 2 + n implies quoting_after(s, m) == Quoting::Inside
        && #[trigger] depth_after(s, m) == 1 by {
        lemma_inside(s, 2, m);
    }
    lemma_inside(s, 2, 2 + n);
    assert(quoting_after(s, 3 + n) == Quoting::Outside && depth_after(s, 3 + n) == 1);
    assert(quoting_after(s, 4 + n) == Quoting::Outside && depth_after(s, 4 + n) == 1);
    assert(quoting_after(s, 5 + n) == Quoting::Inside && depth_after(s, 5 + n) == 1);
    assert forall|m: int| 5 + n <= m <= 5 + n + v implies quoting_after(s, m) == Quoting::Inside
        && #[trigger] depth_after(s, m) == 1 by {
        lemma_inside(s, 5 + n, m);
    }
    lemma_inside(s, 5 + n, 5 + n + v);
    assert(quoting_after(s, 6 + n + v) == Quoting::Outside && depth_after(s, 6 + n + v) == 1);
    assert(depth_after(s, 7 + n + v) == 0);
    assert forall|m: int| 0 < m < s.len() implies #[trigger] depth_after(s, m) > 0 by {
        if m >= 2 && m <= 2 + n {
        } else if m >= 5 + n && m <= 5 + n + v {
        } else {
            assert(m == 1 || m == 3 + n || m == 4 + n || m == 6 + n + v);
        }
    }
    if json_value(s) is Some {
        law_object_behind_plain_prose_is_recovered(before, s, after);
    }
}

/// A stretch from a brace to the one that closes it that is not JSON is passed over: the
/// object behind it is recovered whole.
pub proof fn law_what_is_not_json_is_passed_over(
    before: Seq<char>,
    other: Seq<char>,
    between: Seq<char>,
    object: Seq<char>,
    after: Seq<char>,
)
    requires
        !before.contains('"'),
        !before.contains('{'),
        is_balanced(other),
        json_value(other) is None,
        !between.contains('"'),
        !between.contains('{'),
        is_balanced(object),
        json_value(object) is Some,
    ensures
        extracted(before + other + between + object + after) == json_value(object),
{
    let s = before + other + between + object + after;
    let a = before.len() as int;
    let b = a + other.len();
    let c = b + between.len();
    let d = c + object.len();
    assert(s.subrange(a, b) =~= other);
    assert(s.subrange(c, d) =~= object);
    assert forall|k: int| 0 <= k < a implies #[trigger] s[k] != '{' && s[k] != '"' by {
        assert(s[k] == before[k]);
        assert(before.contains(before[k]));
    }
    assert forall|k: int| b <= k < c implies #[trigger] s[k] != '{' && s[k] != '"' by {
        assert(s[k] == between[k - b]);
        assert(between.contains(between[k - b]));
    }
    assert(s[a] == other[0]);
    assert(s[c] == object[0]);
    lemma_brace_behind_plain(s, 0, a);
    lemma_brace_behind_plain(s, b, c);
    assert(closes(s, a, b));
    assert(closes(s, c, d));
    lemma_first_candidate(s, 0, Quoting::Outside, true, b);
    lemma_first_candidate(s, b, Quoting::Outside, true, d);
    let all = candidates(s, 0, Quoting::Outside, true);
    let rest = candidates(s, b, Quoting::Outside, true);
    assert(all[0] == (a, b));
    assert(all.drop_first() =~= rest);
    assert(rest[0] == (c, d));
    assert(first_value(s, all) == first_value(s, rest));
    assert(first_value(s, rest) == json_value(object));
}

/// In prose without quotes and opening braces the first brace is the one behind it.
proof fn lemma_brace_behind_plain(s: Seq<char>, from: int, a: int)
    requires
        0 <= from <= a < s.len(),
        forall|k: int| from <= k < a ==> #[trigger] s[k] != '{' && s[k] != '"',
        s[a] == '{',
    ensures
        first_brace(s, from, Quoting::Outside, true) == a,
    decreases a - from,
{
    if from < a {
        assert(s[from] != '{');
        lemma_brace_behind_plain(s, from + 1, a);
    }
}

/// A stretch that opens outside of strings where as many braces are closed as opened, and
/// closes where they even out, is found or something else is.
pub proof fn law_counted_stretch_is_not_missed(s: Seq<char>, a: int, b: int)
    requires
        0 <= a < b <= s.len(),
        delimiters(s, a) % 2 == 0,
        braces(s, a, '{') == braces(s, a, '}'),
        s[a] == '{',
        delimiters(s, b - 1) % 2 == 0,
        s[b - 1] == '}',
        braces(s, b, '{') == braces(s, b, '}'),
        forall|m: int| a < m < b ==> #[trigger] braces(s, m, '{') > braces(s, m, '}'),
        json_value(s.subrange(a, b)) is Some,
    ensures
        extracted(s) is Some,
{
    law_strings_lie_between_double_quotes(s, a);
    law_strings_lie_between_double_quotes(s, b - 1);
    law_depth_counts_braces_outside_of_strings(s, a);
    law_depth_counts_braces_outside_of_strings(s, b);
    assert forall|m: int| a < m < b implies #[trigger] depth_after(s, m) > 0 by {
        law_depth_counts_braces_outside_of_strings(s, m);
        assert(braces(s, m, '{') > braces(s, m, '}'));
    }
    lemma_last_opened(s, a, b);
    assert(evens_out(s, b));
    let at = counted(s, b).len() - 1;
    assert(counted(s, b)[at] == (a, b));
    lemma_counted_grows(s, b, s.len() as int);
    lemma_first_value(s, counted(s, s.len() as int));
    assert(counted(s, s.len() as int)[at] == (a, b));
}

proof fn lemma_last_opened(s: Seq<char>, a: int, n: int)
    requires
        0 <= a < n <= s.len(),
        quoting_after(s, a) == Quoting::Outside,
        s[a] == '{',
        depth_after(s, a) == 0,
        forall|m: int| a < m < n ==> #[trigger] depth_after(s, m) > 0,
    ensures
        last_opened(s, n) == a,
    decreases n - a,
{
    if n - 1 > a {
        assert(depth_after(s, n - 1) > 0);
        lemma_last_opened(s, a, n - 1);
    }
}

proof fn lemma_counted_grows(s: Seq<char>, n: int, m: int)
    requires
        0 <= n <= m <= s.len(),
    ensures
        counted(s, n).is_prefix_of(counted(s, m)),
    decreases m - n,
{
    if n < m {
        lemma_counted_grows(s, n, m - 1);
    }
}

/// Whether counting braces is the same in a stretch by itself as in the text, from a place
/// outside of strings on.
proof fn lemma_scan_of_stretch(s: Seq<char>, a: int, b: int, m: int)
    requires
        0 <= a <= a + m <= b <= s.len(),
        quoting_after(s, a) == Quoting::Outside,
    ensures
        quoting_after(s.subrange(a, b), m) == quoting_after(s, a + m),
        depth_after(s.subrange(a, b), m) == depth_after(s, a + m) - depth_after(s, a),
    decreases m,
{
    if m > 0 {
        lemma_scan_of_stretch(s, a, b, m - 1);
        assert(s.subrange(a, b)[m - 1] == s[a + m - 1]);
    }
}

/// What is extracted is the value of a stretch of the text that goes from an opening brace
/// to the brace that closes it.
pub proof fn law_extracted_is_a_stretch_of_the_text(s: Seq<char>)
    ensures
        extracted(s) is Some ==> exists|a: int, b: int|
            closes(s, a, b) && json_value(#[trigger] s.subrange(a, b)) == extracted(s),
{
    let paired = candidates(s, 0, Quoting::Outside, true);
    let unpaired = candidates(s, 0, Quoting::Outside, false);
    let by_count = counted(s, s.len() as int);
    lemma_candidates_close(s, 0, Quoting::Outside, true);
    lemma_candidates_close(s, 0, Quoting::Outside, false);
    lemma_counted_close(s, s.len() as int);
    if tried(s, true) is Some {
        lemma_value_of_one(s, paired);
    } else if tried(s, false) is Some {
        lemma_value_of_one(s, unpaired);
    } else if extracted(s) is Some {
        lemma_value_of_one(s, by_count);
    }
}

proof fn lemma_value_of_one(s: Seq<char>, spans: Seq<(int, int)>)
    requires
        first_value(s, spans) is Some,
        forall|k: int| 0 <= k < spans.len() ==> closes(s, (#[trigger] spans[k]).0, spans[k].1),
    ensures
        exists|a: int, b: int|
            closes(s, a, b) && json_value(#[trigger] s.subrange(a, b)) == first_value(s, spans),
    decreases spans.len(),
{
    let (a, b) = spans[0];
    assert(closes(s, spans[0].0, spans[0].1));
    if json_value(s.subrange(a, b)) is None {
        let rest = spans.drop_first();
        assert forall|k: int| 0 <= k < rest.len() implies closes(
            s,
            (#[trigger] rest[k]).0,
            rest[k].1,
        ) by {
            assert(rest[k] == spans[k + 1]);
        }
        lemma_value_of_one(s, rest);
    }
}

proof fn lemma_candidates_close(s: Seq<char>, from: int, quoting: Quoting, paired: bool)
    requires
        0 <= from <= s.len(),
    ensures
        forall|k: int|
            0 <= k < candidates(s, from, quoting, paired).len() ==> closes(
                s,
                (#[trigger] candidates(s, from, quoting, paired)[k]).0,
                candidates(s, from, quoting, paired)[k].1,
            ),
    decreases s.len() - from,
{
    let a = first_brace(s, from, quoting, paired);
    let all = candidates(s, from, quoting, paired);
    if from <= a < s.len() && exists|b: int| closes(s, a, b) {
        let b = choose|b: int| closes(s, a, b);
        lemma_candidates_close(s, b, Quoting::Outside, paired);
        let rest = candidates(s, b, Quoting::Outside, paired);
        assert forall|k: int| 0 <= k < all.len() implies closes(
            s,
            (#[trigger] all[k]).0,
            all[k].1,
        ) by {
            if k > 0 {
                assert(all[k] == rest[k - 1]);
            }
        }
    }
}

/// Where the braces counted so far are open, the last that opened at the top did so outside
/// of strings, and they have been open since.
proof fn lemma_open_since(s: Seq<char>, n: int)
    requires
        0 <= n <= s.len(),
        depth_after(s, n) > 0,
    ensures
        ({
            let a = last_opened(s, n);
            &&& 0 <= a < n
            &&& quoting_after(s, a) == Quoting::Outside
            &&& s[a] == '{'
            &&& depth_after(s, a) == 0
            &&& forall|m: int| a < m <= n ==> #[trigger] depth_after(s, m) > 0
        }),
    decreases n,
{
    if depth_after(s, n - 1) > 0 {
        lemma_open_since(s, n - 1);
    }
}

proof fn lemma_counted_close(s: Seq<char>, n: int)
    requires
        0 <= n <= s.len(),
    ensures
        forall|k: int|
            0 <= k < counted(s, n).len() ==> closes(
                s,
                (#[trigger] counted(s, n)[k]).0,
                counted(s, n)[k].1,
            ),
    decreases n,
{
    if n > 0 {
        lemma_counted_close(s, n - 1);
        if evens_out(s, n) {
            lemma_open_since(s, n - 1);
            let a = last_opened(s, n - 1);
            assert(last_opened(s, n) == a);
            let t = s.subrange(a, n);
            lemma_scan_of_stretch(s, a, n, n - a);
            assert forall|m: int| 0 < m < t.len() implies #[trigger] depth_after(t, m) > 0 by {
                lemma_scan_of_stretch(s, a, n, m);
            }
            assert(closes(s, a, n));
            assert forall|k: int| 0 <= k < counted(s, n).len() implies closes(
                s,
                (#[trigger] counted(s, n)[k]).0,
                counted(s, n)[k].1,
            ) by {
                if k < counted(s, n).len() - 1 {
                    assert(counted(s, n)[k] == counted(s, n - 1)[k]);
                }
            }
        } else {
            assert(counted(s, n) == counted(s, n - 1));
        }
    }
}

} // verus!
