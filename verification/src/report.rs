//! The report aggregator: the sole observable output of a run.
//!
//! A report over a batch of copy outcomes is a summary line with the success
//! and failure counts, followed by one line per outcome in submission
//! order. Everything here is rendered to an exactly specified character
//! sequence, decimal digits included.

use vstd::prelude::*;

use crate::file_copy::CopyResult;

verus! {

/// The decimal digit characters of a number, most significant first.
pub open spec fn spec_digits(n: nat) -> Seq<char>
    decreases n,
{
    if n < 10 {
        seq![spec_digit(n)]
    } else {
        spec_digits(n / 10).push(spec_digit(n % 10))
    }
}

/// The character of one decimal digit.
pub open spec fn spec_digit(d: nat) -> char {
    if d == 0 {
        '0'
    } else if d == 1 {
        '1'
    } else if d == 2 {
        '2'
    } else if d == 3 {
        '3'
    } else if d == 4 {
        '4'
    } else if d == 5 {
        '5'
    } else if d == 6 {
        '6'
    } else if d == 7 {
        '7'
    } else if d == 8 {
        '8'
    } else {
        '9'
    }
}

/// The one-character string of one decimal digit.
fn digit_str(d: u64) -> (r: &'static str)
    requires
        d < 10,
    ensures
        r@ == seq![spec_digit(d as nat)],
{
    proof {
        reveal_strlit("0");
        reveal_strlit("1");
        reveal_strlit("2");
        reveal_strlit("3");
        reveal_strlit("4");
        reveal_strlit("5");
        reveal_strlit("6");
        reveal_strlit("7");
        reveal_strlit("8");
        reveal_strlit("9");
    }
    if d == 0 {
        "0"
    } else if d == 1 {
        "1"
    } else if d == 2 {
        "2"
    } else if d == 3 {
        "3"
    } else if d == 4 {
        "4"
    } else if d == 5 {
        "5"
    } else if d == 6 {
        "6"
    } else if d == 7 {
        "7"
    } else if d == 8 {
        "8"
    } else {
        "9"
    }
}

/// Append a number's decimal digits to a string.
fn append_u64(s: &mut String, n: u64)
    ensures
        final (s)@ == old(s)@ + spec_digits(n as nat),
    decreases n,
{
    if n >= 10 {
        append_u64(s, n / 10);
    }
    s.append(digit_str(n % 10));
    proof {
        if n < 10 {
            assert(old(s)@ + seq![spec_digit(n as nat)] =~= s@);
        } else {
            assert(old(s)@ + spec_digits((n / 10) as nat).push(spec_digit((n % 10) as nat)) =~= s@);
        }
    }
}

/// How many outcomes of the batch succeeded.
pub open spec fn success_count(outcomes: Seq<CopyResult>) -> nat
    decreases outcomes.len(),
{
    if outcomes.len() == 0 {
        0
    } else {
        success_count(outcomes.drop_last()) + if outcomes.last().spec_outcome() is Ok {
            1nat
        } else {
            0nat
        }
    }
}

/// How many outcomes of the batch failed.
pub open spec fn failure_count(outcomes: Seq<CopyResult>) -> nat
    decreases outcomes.len(),
{
    if outcomes.len() == 0 {
        0
    } else {
        failure_count(outcomes.drop_last()) + if outcomes.last().spec_outcome() is Err {
            1nat
        } else {
            0nat
        }
    }
}

/// Report arithmetic: every outcome is counted exactly once, so the success
/// and failure counts always sum to the number of outcomes.
pub proof fn lemma_report_arithmetic(outcomes: Seq<CopyResult>)
    ensures
        success_count(outcomes) + failure_count(outcomes) == outcomes.len(),
    decreases outcomes.len(),
{
    if outcomes.len() > 0 {
        lemma_report_arithmetic(outcomes.drop_last());
    }
}

impl CopyResult {
    /// The report line of one outcome.
    pub open spec fn line_view(&self) -> Seq<char> {
        match self.spec_outcome() {
            Ok(bytes) => "Copied "@ + spec_digits(bytes as nat) + " bytes from "@
                + self.spec_src() + " to "@ + self.spec_dst(),
            Err(cause) => "Failed to copy from "@ + self.spec_src() + " to "@ + self.spec_dst()
                + ": "@ + cause,
        }
    }

    /// Render this outcome's report line.
    pub fn render_line(&self) -> (r: String)
        ensures
            r@ == self.line_view(),
    {
        let mut s = String::new();
        match self.outcome_ref() {
            Ok(bytes) => {
                s.append("Copied ");
                append_u64(&mut s, *bytes);
                s.append(" bytes from ");
                s.append(self.src_str());
                s.append(" to ");
                s.append(self.dst_str());
            },
            Err(cause) => {
                s.append("Failed to copy from ");
                s.append(self.src_str());
                s.append(" to ");
                s.append(self.dst_str());
                s.append(": ");
                s.append(cause.as_str());
            },
        }
        proof {
            assert(s@ =~= self.line_view());
        }
        s
    }
}

/// The summary line of a batch: its two counts in one sentence.
pub open spec fn summary_view(outcomes: Seq<CopyResult>) -> Seq<char> {
    spec_digits(success_count(outcomes)) + " files copied successfully; "@ + spec_digits(
        failure_count(outcomes),
    ) + " files failed to copy"@
}

/// Every outcome's line in submission order, each ended by a line break.
pub open spec fn lines_view(outcomes: Seq<CopyResult>) -> Seq<char>
    decreases outcomes.len(),
{
    if outcomes.len() == 0 {
        Seq::empty()
    } else {
        lines_view(outcomes.drop_last()) + outcomes.last().line_view() + "\n"@
    }
}

/// The whole report: the summary line, then one line per outcome, in
/// submission order.
pub open spec fn report_view(outcomes: Seq<CopyResult>) -> Seq<char> {
    summary_view(outcomes) + "\n"@ + lines_view(outcomes)
}

/// Count the successful outcomes of a batch.
pub fn count_successes(outcomes: &Vec<CopyResult>) -> (c: usize)
    ensures
        c == success_count(outcomes@),
{
    let n = outcomes.len();
    let mut c: usize = 0;
    let mut i: usize = 0;
    while i < n
        invariant
            n == outcomes@.len(),
            i <= n,
            c <= i,
            c == success_count(outcomes@.take(i as int)),
        decreases n - i,
    {
        proof {
            assert(outcomes@.take(i + 1 as int).drop_last() =~= outcomes@.take(i as int));
        }
        if outcomes[i].is_ok() {
            c = c + 1;
        }
        i = i + 1;
    }
    proof {
        assert(outcomes@.take(n as int) =~= outcomes@);
    }
    c
}

/// Count the failed outcomes of a batch.
pub fn count_failures(outcomes: &Vec<CopyResult>) -> (c: usize)
    ensures
        c == failure_count(outcomes@),
{
    let n = outcomes.len();
    let mut c: usize = 0;
    let mut i: usize = 0;
    while i < n
        invariant
            n == outcomes@.len(),
            i <= n,
            c <= i,
            c == failure_count(outcomes@.take(i as int)),
        decreases n - i,
    {
        proof {
            assert(outcomes@.take(i + 1 as int).drop_last() =~= outcomes@.take(i as int));
        }
        if outcomes[i].is_err() {
            c = c + 1;
        }
        i = i + 1;
    }
    proof {
        assert(outcomes@.take(n as int) =~= outcomes@);
    }
    c
}

/// Render a whole batch's report.
pub fn render_outcomes(outcomes: &Vec<CopyResult>) -> (r: String)
    ensures
        r@ == report_view(outcomes@),
{
    let successes = count_successes(outcomes);
    let failures = count_failures(outcomes);
    let mut s = String::new();
    append_u64(&mut s, successes as u64);
    s.append(" files copied successfully; ");
    append_u64(&mut s, failures as u64);
    s.append(" files failed to copy");
    s.append("\n");
    proof {
        assert(s@ =~= summary_view(outcomes@) + "\n"@);
    }
    let ghost header = s@;
    let n = outcomes.len();
    let mut i: usize = 0;
    while i < n
        invariant
            n == outcomes@.len(),
            i <= n,
            header == summary_view(outcomes@) + "\n"@,
            s@ == header + lines_view(outcomes@.take(i as int)),
        decreases n - i,
    {
        let line = outcomes[i].render_line();
        s.append(line.as_str());
        s.append("\n");
        proof {
            assert(outcomes@.take(i + 1 as int).drop_last() =~= outcomes@.take(i as int));
            assert(s@ =~= header + lines_view(outcomes@.take(i + 1 as int)));
        }
        i = i + 1;
    }
    proof {
        assert(outcomes@.take(n as int) =~= outcomes@);
        assert(s@ =~= report_view(outcomes@));
    }
    s
}

/// Where outcome `i`'s line starts inside the rendered line block: the
/// total length of its predecessors' lines, line breaks included.
pub open spec fn line_offset(outcomes: Seq<CopyResult>, i: int) -> nat
    decreases i,
{
    if i <= 0 {
        0
    } else {
        line_offset(outcomes, i - 1) + outcomes[i - 1].line_view().len() + 1
    }
}

/// A line's offset depends only on the outcomes before it.
proof fn lemma_line_offset_drop_last(outcomes: Seq<CopyResult>, i: int)
    requires
        outcomes.len() > 0,
        0 <= i < outcomes.len(),
    ensures
        line_offset(outcomes.drop_last(), i) == line_offset(outcomes, i),
    decreases i,
{
    if i > 0 {
        lemma_line_offset_drop_last(outcomes, i - 1);
    }
}

/// Every outcome's line stands in the rendered line block at its own
/// offset: the block ends where the last line ends, and the slice between
/// an outcome's offset and the next outcome's offset is exactly that
/// outcome's line with its line break.
pub proof fn lemma_lines_cover(outcomes: Seq<CopyResult>)
    ensures
        lines_view(outcomes).len() == line_offset(outcomes, outcomes.len() as int),
        forall|i: int|
            0 <= i < outcomes.len() ==> lines_view(outcomes).subrange(
                line_offset(outcomes, i) as int,
                line_offset(outcomes, i + 1) as int,
            ) == (#[trigger] outcomes[i]).line_view() + "\n"@,
    decreases outcomes.len(),
{
    reveal_strlit("\n");
    if outcomes.len() > 0 {
        let n = outcomes.len() as int;
        let t = outcomes.drop_last();
        let tail = outcomes.last().line_view() + "\n"@;
        lemma_lines_cover(t);
        lemma_line_offset_drop_last(outcomes, n - 1);
        assert(lines_view(t).len() == line_offset(outcomes, n - 1));
        assert(lines_view(outcomes).len() == line_offset(outcomes, n));
        assert forall|i: int| 0 <= i < n implies lines_view(outcomes).subrange(
            line_offset(outcomes, i) as int,
            line_offset(outcomes, i + 1) as int,
        ) == (#[trigger] outcomes[i]).line_view() + "\n"@ by {
            lemma_line_offset_drop_last(outcomes, i);
            let a = line_offset(outcomes, i) as int;
            let b = line_offset(outcomes, i + 1) as int;
            if i < n - 1 {
                lemma_line_offset_drop_last(outcomes, i + 1);
                lemma_line_offset_monotone(t, i + 1, n - 1);
                assert(b <= lines_view(t).len());
                assert(lines_view(outcomes).subrange(a, b) =~= lines_view(t).subrange(a, b));
            } else {
                assert(a == lines_view(t).len());
                assert(lines_view(outcomes).subrange(a, b) =~= tail);
            }
        }
    }
}

/// Offsets never decrease along the batch.
proof fn lemma_line_offset_monotone(outcomes: Seq<CopyResult>, a: int, b: int)
    requires
        0 <= a <= b,
    ensures
        line_offset(outcomes, a) <= line_offset(outcomes, b),
    decreases b - a,
{
    if a < b {
        lemma_line_offset_monotone(outcomes, a, b - 1);
    }
}

/// Partial-failure isolation: however one outcome failed, the report still
/// counts every outcome and renders every other outcome's line unchanged at
/// its own position — a failure never evicts or disturbs its siblings.
pub proof fn lemma_failure_isolation(outcomes: Seq<CopyResult>, k: int)
    requires
        0 <= k < outcomes.len(),
        outcomes[k].spec_outcome() is Err,
    ensures
        success_count(outcomes) + failure_count(outcomes) == outcomes.len(),
        forall|i: int|
            0 <= i < outcomes.len() ==> lines_view(outcomes).subrange(
                line_offset(outcomes, i) as int,
                line_offset(outcomes, i + 1) as int,
            ) == (#[trigger] outcomes[i]).line_view() + "\n"@,
{
    lemma_report_arithmetic(outcomes);
    lemma_lines_cover(outcomes);
}

/// What a run's reporting goes through: anything with a rendered report of
/// exactly specified text. Wrapping a value in [`Report`] then renders it.
pub trait OperationReport {
    /// The text this value's report consists of.
    spec fn report_text(&self) -> Seq<char>;

    /// Render the report.
    fn render_report(&self) -> (r: String)
        ensures
            r@ == self.report_text(),
    ;
}

impl<T: OperationReport> OperationReport for &T {
    /// A reference reports as what it points to.
    open spec fn report_text(&self) -> Seq<char> {
        (**self).report_text()
    }

    fn render_report(&self) -> (r: String) {
        (**self).render_report()
    }
}

impl OperationReport for CopyResult {
    /// One outcome reports as its single line.
    open spec fn report_text(&self) -> Seq<char> {
        self.line_view()
    }

    fn render_report(&self) -> (r: String) {
        self.render_line()
    }
}

impl OperationReport for Vec<CopyResult> {
    /// A whole batch reports as the summary line followed by every
    /// outcome's line in submission order.
    open spec fn report_text(&self) -> Seq<char> {
        report_view(self@)
    }

    fn render_report(&self) -> (r: String) {
        render_outcomes(self)
    }
}

/// A renderable wrapper around anything that carries a report.
pub struct Report<T>(pub T);

impl<T: OperationReport> Report<T> {
    /// Render the wrapped value's report.
    pub fn render(&self) -> (r: String)
        ensures
            r@ == self.0.report_text(),
    {
        self.0.render_report()
    }
}

} // verus!
