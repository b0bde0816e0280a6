use vstd::prelude::*;

use crate::decimal::{decimal, is_digit, push_decimal, to_decimal, value_of};
use crate::decimal::{lemma_decimal_digits, lemma_decimal_injective, lemma_value_of_decimal};

verus! {

/// The four values that each call builds afresh.
pub open spec fn fixed_values() -> Seq<u32> {
    seq![0, 2, 4, 6]
}

/// The position of the value that each call reports.
pub open spec fn reported_index() -> int {
    1
}

/// The text that comes before the input on the first line.
pub open spec fn call_prefix() -> Seq<char> {
    "test xx from rust ["@
}

/// The text that closes the first line.
pub open spec fn call_suffix() -> Seq<char> {
    "]"@
}

/// The first line: it names the call and holds the input in brackets.
pub open spec fn call_line(a: nat) -> Seq<char> {
    call_prefix() + decimal(a) + call_suffix()
}

/// The second line: the value at the reported position of the fixed values.
pub open spec fn value_line() -> Seq<char> {
    decimal(fixed_values()[reported_index()] as nat)
}

/// The lines that a call with input `a` writes, in order, without their
/// line terminators.
pub open spec fn report(a: nat) -> Seq<Seq<char>> {
    seq![call_line(a), value_line()]
}

/// The views of a list of strings.
pub open spec fn lines_view(lines: Seq<String>) -> Seq<Seq<char>> {
    lines.map_values(|s: String| s@)
}

/// Builds the four fixed values.
pub fn fixed_sequence() -> (v: Vec<u32>)
    ensures
        v@ == fixed_values(),
{
    let v: Vec<u32> = vec![0, 2, 4, 6];
    assert(v@ =~= fixed_values());
    v
}

/// The first line for input `a`.
pub fn call_text(a: libc::uint32_t) -> (s: String)
    ensures
        s@ == call_line(a as nat),
{
    let mut s = String::new();
    s.append("test xx from rust [");
    push_decimal(&mut s, a);
    s.append("]");
    proof {
        reveal_strlit("test xx from rust [");
        reveal_strlit("]");
    }
    assert(s@ =~= call_line(a as nat));
    s
}

/// The second line: the value read at the reported position of a freshly
/// built fixed sequence.
pub fn value_text() -> (s: String)
    ensures
        s@ == value_line(),
{
    let v = fixed_sequence();
    to_decimal(v[1])
}

/// The lines that a call with input `a` writes, in order.
pub fn report_lines(a: libc::uint32_t) -> (lines: Vec<String>)
    ensures
        lines_view(lines@) == report(a as nat),
{
    let mut lines: Vec<String> = Vec::new();
    lines.push(call_text(a));
    lines.push(value_text());
    assert(lines_view(lines@) =~= report(a as nat));
    lines
}

/// The first line holds the input in decimal exactly once: its digits
/// stand right after the opening bracket and right before the closing one,
/// they read back as the input, and no other character of the line is a
/// digit.
pub proof fn lemma_call_line_embeds_input(a: u32)
    ensures
        ({
            let line = call_line(a as nat);
            let start = call_prefix().len() as int;
            let end = start + decimal(a as nat).len();
            &&& line[start - 1] == '['
            &&& line[end] == ']'
            &&& end + 1 == line.len()
            &&& line.subrange(start, end) == decimal(a as nat)
            &&& value_of(line.subrange(start, end)) == a
            &&& forall|i: int| 0 <= i < line.len() ==> (is_digit(#[trigger] line[i]) <==> start <= i < end)
        }),
{
    reveal_strlit("test xx from rust [");
    reveal_strlit("]");
    let line = call_line(a as nat);
    let d = decimal(a as nat);
    let start = call_prefix().len() as int;
    let end = start + d.len();
    lemma_decimal_digits(a as nat);
    lemma_value_of_decimal(a as nat);
    assert(line.subrange(start, end) =~= d);
    assert forall|i: int| 0 <= i < line.len() implies (is_digit(#[trigger] line[i]) <==> start <= i < end) by {
        if start <= i < end {
            assert(line[i] == d[i - start]);
        } else if i < start {
            assert(line[i] == call_prefix()[i]);
        } else {
            assert(line[i] == ']');
        }
    }
}

/// The value that every call reports on its second line is `2`, read at
/// position 1 of the fixed values `0, 2, 4, 6`, whatever the input.
pub proof fn lemma_reported_value(a: nat)
    ensures
        fixed_values().len() == 4,
        fixed_values()[reported_index()] == 2,
        report(a)[1] == "2"@,
{
    reveal_strlit("2");
    assert(report(a)[1] =~= "2"@);
}

/// Two calls with the same input write the same lines: the output depends
/// on the input alone, with no state carried from one call to the next.
pub proof fn lemma_report_repeatable(a: nat, b: nat)
    requires
        a == b,
    ensures
        report(a) == report(b),
{
}

/// Calls with different inputs write different first lines, and each first
/// line reads back as its own input alone.
pub proof fn lemma_reports_kept_apart(a: u32, b: u32)
    requires
        a != b,
    ensures
        report(a as nat)[0] != report(b as nat)[0],
        value_of(report(a as nat)[0].subrange(call_prefix().len() as int, report(a as nat)[0].len() - 1)) == a,
        value_of(report(b as nat)[0].subrange(call_prefix().len() as int, report(b as nat)[0].len() - 1)) == b,
{
    lemma_call_line_embeds_input(a);
    lemma_call_line_embeds_input(b);
    if report(a as nat)[0] == report(b as nat)[0] {
        let start = call_prefix().len() as int;
        let line = call_line(a as nat);
        assert(decimal(a as nat) == line.subrange(start, line.len() - 1));
        assert(decimal(b as nat) == line.subrange(start, line.len() - 1));
        lemma_decimal_injective(a as nat, b as nat);
    }
}

} // verus!
