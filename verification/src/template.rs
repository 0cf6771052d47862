//! Routine synthesis: a template with positional `{}` markers becomes the text of a host
//! routine whose parameters `p0, p1, ...` stand where the markers stood.

use vstd::prelude::*;
use vstd::string::group_string_axioms;
use vstd::string::StrSliceExecFns;
use vstd::string::StringExecFns;

verus! {

/// The character of the decimal digit `d`.
pub open spec fn digit(d: nat) -> char {
    if d == 0 {
        '0'
    } else if d == 1 {
        '1'
    } else if d == 2 {
        '2'
    } else if d == 3 {
        '3'
    } else if d == 4 {
        '4'
    } else if d == 5 {
        '5'
    } else if d == 6 {
        '6'
    } else if d == 7 {
        '7'
    } else if d == 8 {
        '8'
    } else {
        '9'
    }
}

/// `n` written in decimal, without leading zeros.
pub open spec fn decimal(n: nat) -> Seq<char>
    decreases n,
{
    if n < 10 {
        seq![digit(n)]
    } else {
        decimal(n / 10).push(digit(n % 10))
    }
}

/// The name of the parameter at position `index`: `p0`, `p1`, ...
pub open spec fn param_name(index: nat) -> Seq<char> {
    seq!['p'] + decimal(index)
}

/// The names of the first `count` parameters, separated by commas.
pub open spec fn param_list(count: nat) -> Seq<char>
    decreases count,
{
    if count == 0 {
        Seq::empty()
    } else if count == 1 {
        param_name(0)
    } else {
        param_list((count - 1) as nat) + seq![','] + param_name((count - 1) as nat)
    }
}

/// A marker `{}` starts at position `at` of `code`.
pub open spec fn marker_at(code: Seq<char>, at: int) -> bool {
    0 <= at && at + 1 < code.len() && code[at] == '{' && code[at + 1] == '}'
}

/// The number of markers in `code` from position `from` on, read left to right.
pub open spec fn markers_from(code: Seq<char>, from: int) -> nat
    decreases code.len() - from,
{
    if from < 0 || from >= code.len() {
        0
    } else if marker_at(code, from) {
        1 + markers_from(code, from + 2)
    } else {
        markers_from(code, from + 1)
    }
}

/// The number of markers in `code`.
pub open spec fn markers(code: Seq<char>) -> nat {
    markers_from(code, 0)
}

/// `code` from position `from` on, where the markers are replaced from left to right by
/// the parameter names `next`, `next + 1`, ... as long as a name below `count` is left.
pub open spec fn substituted_from(code: Seq<char>, from: int, next: nat, count: nat) -> Seq<char>
    decreases code.len() - from,
{
    if from < 0 || from >= code.len() {
        Seq::empty()
    } else if next >= count {
        code.subrange(from, code.len() as int)
    } else if marker_at(code, from) {
        param_name(next) + substituted_from(code, from + 2, next + 1, count)
    } else {
        seq![code[from]] + substituted_from(code, from + 1, next, count)
    }
}

/// `code` with its first `count` markers replaced by `p0`, `p1`, ...
pub open spec fn substituted(code: Seq<char>, count: nat) -> Seq<char> {
    substituted_from(code, 0, 0, count)
}

/// `text` holds no opening brace.
pub open spec fn no_opening(text: Seq<char>) -> bool {
    forall|i: int| 0 <= i < text.len() ==> text[i] != '{'
}

/// Counting from a position on is counting in what stands from that position on.
pub proof fn lemma_markers_from_suffix(code: Seq<char>, from: int)
    requires
        0 <= from <= code.len(),
    ensures
        markers_from(code, from) == markers(code.subrange(from, code.len() as int)),
    decreases code.len() - from,
{
    let rest = code.subrange(from, code.len() as int);
    if from < code.len() {
        assert(marker_at(code, from) == marker_at(rest, 0));
        if marker_at(code, from) {
            lemma_markers_from_suffix(code, from + 2);
            lemma_markers_from_suffix(rest, 2);
            assert(rest.subrange(2, rest.len() as int) =~= code.subrange(
                from + 2,
                code.len() as int,
            ));
        } else {
            lemma_markers_from_suffix(code, from + 1);
            lemma_markers_from_suffix(rest, 1);
            assert(rest.subrange(1, rest.len() as int) =~= code.subrange(
                from + 1,
                code.len() as int,
            ));
        }
    }
}

/// A character in front of a text adds a marker only if it opens one that the text
/// closes at once.
pub proof fn lemma_markers_behind_char(first: char, text: Seq<char>)
    requires
        !(first == '{' && text.len() > 0 && text[0] == '}'),
    ensures
        markers(seq![first] + text) == markers(text),
{
    let whole = seq![first] + text;
    assert(!marker_at(whole, 0));
    lemma_markers_from_suffix(whole, 1);
    assert(whole.subrange(1, whole.len() as int) =~= text);
}

/// Text without an opening brace adds no marker in front of another text.
pub proof fn lemma_markers_behind_text(front: Seq<char>, text: Seq<char>)
    requires
        no_opening(front),
    ensures
        markers(front + text) == markers(text),
    decreases front.len(),
{
    if front.len() == 0 {
        assert(front + text =~= text);
    } else {
        let rest = front.subrange(1, front.len() as int);
        assert(front + text =~= seq![front[0]] + (rest + text));
        lemma_markers_behind_char(front[0], rest + text);
        lemma_markers_behind_text(rest, text);
    }
}

/// The name of a parameter holds no brace, and starts with a letter.
pub proof fn lemma_param_name_has_no_brace(index: nat)
    ensures
        no_opening(param_name(index)),
        param_name(index).len() > 0,
        param_name(index)[0] == 'p',
{
    lemma_decimal_has_no_brace(index);
}

proof fn lemma_decimal_has_no_brace(n: nat)
    ensures
        no_opening(decimal(n)),
    decreases n,
{
    if n >= 10 {
        lemma_decimal_has_no_brace(n / 10);
    }
}

/// What a substituted text starts with: the name of a parameter where the template has a
/// marker that is replaced, else what the template has there.
proof fn lemma_substituted_starts(code: Seq<char>, from: int, next: nat, count: nat)
    requires
        0 <= from < code.len(),
    ensures
        substituted_from(code, from, next, count).len() > 0,
        substituted_from(code, from, next, count)[0] == if next < count && marker_at(code, from) {
            'p'
        } else {
            code[from]
        },
{
    if next < count && marker_at(code, from) {
        lemma_param_name_has_no_brace(next);
    }
}

proof fn lemma_no_marker_left_from(code: Seq<char>, from: int, next: nat, count: nat)
    requires
        0 <= from <= code.len(),
        markers_from(code, from) + next <= count,
    ensures
        markers(substituted_from(code, from, next, count)) == 0,
    decreases code.len() - from,
{
    let text = substituted_from(code, from, next, count);
    if from >= code.len() {
    } else if next >= count {
        lemma_markers_from_suffix(code, from);
    } else if marker_at(code, from) {
        let rest = substituted_from(code, from + 2, next + 1, count);
        lemma_no_marker_left_from(code, from + 2, next + 1, count);
        lemma_param_name_has_no_brace(next);
        lemma_markers_behind_text(param_name(next), rest);
    } else {
        let rest = substituted_from(code, from + 1, next, count);
        lemma_no_marker_left_from(code, from + 1, next, count);
        if from + 1 < code.len() {
            lemma_substituted_starts(code, from + 1, next, count);
        }
        lemma_markers_behind_char(code[from], rest);
    }
}

/// With parameters for all its markers, a template has every marker replaced: none is
/// left in the text of the routine.
pub proof fn lemma_no_marker_left(code: Seq<char>, count: nat)
    requires
        markers(code) <= count,
    ensures
        markers(substituted(code, count)) == 0,
{
    lemma_no_marker_left_from(code, 0, 0, count);
}

/// The characters of `text`, one by one.
pub fn chars_of(text: &str) -> (chars: Vec<char>)
    ensures
        chars@ == text@,
{
    broadcast use group_string_axioms;

    let mut chars: Vec<char> = Vec::new();
    for c in it: text.chars()
        invariant
            it.seq() == text@,
            chars@ == text@.take(it.index() as int),
    {
        assert(text@.take(it.index() + 1) =~= text@.take(it.index() as int).push(c));
        chars.push(c);
    }
    assert(text@.take(text@.len() as int) =~= text@);
    chars
}

/// The number of markers in `code`.
pub fn count_markers(code: &str) -> (count: usize)
    ensures
        count == markers(code@),
{
    let chars: Vec<char> = chars_of(code);
    let n: usize = chars.len();
    let mut count: usize = 0;
    let mut i: usize = 0;
    while i < n
        invariant
            i <= n,
            n == chars@.len(),
            chars@ == code@,
            count <= i,
            markers(code@) == count + markers_from(code@, i as int),
        decreases n - i,
    {
        if i + 1 < n && chars[i] == '{' && chars[i + 1] == '}' {
            count = count + 1;
            i = i + 2;
        } else {
            i = i + 1;
        }
    }
    count
}

fn digit_text(d: usize) -> (text: &'static str)
    requires
        d < 10,
    ensures
        text@ == seq![digit(d as nat)],
{
    proof {
        reveal_strlit("0");
        reveal_strlit("1");
        reveal_strlit("2");
        reveal_strlit("3");
        reveal_strlit("4");
        reveal_strlit("5");
        reveal_strlit("6");
        reveal_strlit("7");
        reveal_strlit("8");
        reveal_strlit("9");
    }
    let text: &'static str = if d == 0 {
        "0"
    } else if d == 1 {
        "1"
    } else if d == 2 {
        "2"
    } else if d == 3 {
        "3"
    } else if d == 4 {
        "4"
    } else if d == 5 {
        "5"
    } else if d == 6 {
        "6"
    } else if d == 7 {
        "7"
    } else if d == 8 {
        "8"
    } else {
        "9"
    };
    assert(text@ =~= seq![digit(d as nat)]);
    text
}

/// Appends `n` in decimal to `out`.
pub fn push_decimal(out: &mut String, n: usize)
    ensures
        final(out)@ == old(out)@ + decimal(n as nat),
    decreases n,
{
    if n >= 10 {
        push_decimal(out, n / 10);
    }
    out.append(digit_text(n % 10));
    assert(out@ =~= old(out)@ + decimal(n as nat));
}

/// Appends the name of the parameter at position `index` to `out`.
pub fn push_param_name(out: &mut String, index: usize)
    ensures
        final(out)@ == old(out)@ + param_name(index as nat),
{
    proof {
        reveal_strlit("p");
    }
    out.append("p");
    push_decimal(out, index);
    assert(out@ =~= old(out)@ + param_name(index as nat));
}

/// Appends the names of the first `count` parameters, separated by commas, to `out`.
pub fn push_param_list(out: &mut String, count: usize)
    ensures
        final(out)@ == old(out)@ + param_list(count as nat),
{
    let mut i: usize = 0;
    assert(out@ =~= old(out)@ + param_list(0));
    while i < count
        invariant
            i <= count,
            out@ == old(out)@ + param_list(i as nat),
        decreases count - i,
    {
        let ghost before = out@;
        if i > 0 {
            proof {
                reveal_strlit(",");
            }
            out.append(",");
        }
        push_param_name(out, i);
        proof {
            if i == 0 {
                assert(out@ =~= old(out)@ + param_list(1));
            } else {
                assert(out@ =~= old(out)@ + param_list((i + 1) as nat));
            }
        }
        i = i + 1;
    }
}

/// Appends `code` to `out`, with its first `count` markers replaced by `p0`, `p1`, ...
pub fn push_substituted(out: &mut String, code: &str, count: usize)
    ensures
        final(out)@ == old(out)@ + substituted(code@, count as nat),
{
    let chars: Vec<char> = chars_of(code);
    let n: usize = chars.len();
    let mut start: usize = 0;
    let mut i: usize = 0;
    let mut next: usize = 0;
    assert(out@ + code@.subrange(0, 0) =~= out@);
    while i < n && next < count
        invariant
            start <= i <= n,
            next <= count,
            n == chars@.len(),
            chars@ == code@,
            old(out)@ + substituted(code@, count as nat) == out@ + code@.subrange(
                start as int,
                i as int,
            ) + substituted_from(code@, i as int, next as nat, count as nat),
        decreases n - i,
    {
        if i + 1 < n && chars[i] == '{' && chars[i + 1] == '}' {
            let ghost before = out@;
            out.append(code.substring_char(start, i));
            push_param_name(out, next);
            proof {
                let tail = substituted_from(code@, i + 2, (next + 1) as nat, count as nat);
                assert(out@ + code@.subrange(i + 2, i + 2) + tail =~= before + code@.subrange(
                    start as int,
                    i as int,
                ) + (param_name(next as nat) + tail));
            }
            i = i + 2;
            start = i;
            next = next + 1;
        } else {
            proof {
                let tail = substituted_from(code@, i + 1, next as nat, count as nat);
                assert(out@ + code@.subrange(start as int, i + 1) + tail =~= out@
                    + code@.subrange(start as int, i as int) + (seq![code@[i as int]] + tail));
            }
            i = i + 1;
        }
    }
    let ghost before = out@;
    out.append(code.substring_char(start, n));
    proof {
        let rest = substituted_from(code@, i as int, next as nat, count as nat);
        assert(code@.subrange(start as int, i as int) + rest =~= code@.subrange(
            start as int,
            n as int,
        ));
        assert(out@ =~= before + code@.subrange(start as int, i as int) + rest);
    }
}

} // verus!
