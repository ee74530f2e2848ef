//! The text that a worker prints: one line for each sample, with the worker's
//! identifier, the milliseconds since the start of the run and the progress in
//! percent, separated by tabs.

use vstd::prelude::*;
use crate::worker::Sample;

verus! {

/// The character that separates the fields of a line.
pub const FIELD_SEPARATOR: u8 = 9;

/// The character that ends a line.
pub const LINE_END: u8 = 10;

/// The minus sign.
pub const MINUS: u8 = 45;

/// The digit 0.
pub const DIGIT_ZERO: u8 = 48;

/// The decimal digits of `n`, most significant first, without leading zeros.
pub open spec fn decimal(n: nat) -> Seq<u8>
    decreases n,
{
    if n < 10 {
        seq![(DIGIT_ZERO + n) as u8]
    } else {
        decimal(n / 10).push((DIGIT_ZERO + n % 10) as u8)
    }
}

/// The decimal digits of `v`, after a minus sign where it is negative.
pub open spec fn signed_decimal(v: int) -> Seq<u8> {
    if v < 0 {
        seq![MINUS] + decimal((-v) as nat)
    } else {
        decimal(v as nat)
    }
}

/// The line that the worker `worker_id` prints for `sample`, with its end.
pub open spec fn line_of(worker_id: u32, sample: Sample) -> Seq<u8> {
    decimal(worker_id as nat) + seq![FIELD_SEPARATOR] + signed_decimal(
        sample.elapsed_ms_since_start as int,
    ) + seq![FIELD_SEPARATOR] + decimal(sample.percent_complete as nat) + seq![LINE_END]
}

/// The lines that the worker `worker_id` prints for `samples`, in their order.
pub open spec fn report_of(worker_id: u32, samples: Seq<Sample>) -> Seq<u8>
    decreases samples.len(),
{
    if samples.len() == 0 {
        Seq::empty()
    } else {
        report_of(worker_id, samples.drop_last()) + line_of(worker_id, samples.last())
    }
}

/// Appends the decimal digits of `n` to `out`.
pub fn push_decimal(out: &mut Vec<u8>, n: u64)
    ensures
        final(out)@ == old(out)@ + decimal(n as nat),
{
    let ghost start = out@;
    let mut digits: Vec<u8> = Vec::new();
    let mut rest: u64 = n;
    while rest >= 10
        invariant
            decimal(n as nat) == decimal(rest as nat) + digits@.reverse(),
        decreases rest,
    {
        let digit: u8 = (rest % 10) as u8 + DIGIT_ZERO;
        proof {
            let ghost before = digits@;
            assert(decimal(rest as nat) == decimal((rest / 10) as nat).push(digit));
            assert(decimal((rest / 10) as nat).push(digit) + before.reverse() =~= decimal(
                (rest / 10) as nat,
            ) + before.push(digit).reverse());
        }
        digits.push(digit);
        rest = rest / 10;
    }
    out.push(rest as u8 + DIGIT_ZERO);
    assert(out@ =~= start + decimal(rest as nat) + digits@.reverse().take(0));
    let mut i: usize = digits.len();
    while i > 0
        invariant
            i <= digits@.len(),
            out@ == start + decimal(rest as nat) + digits@.reverse().take(digits@.len() - i),
        decreases i,
    {
        i = i - 1;
        out.push(digits[i]);
        assert(digits@.reverse().take(digits@.len() - i) =~= digits@.reverse().take(
            digits@.len() - i - 1,
        ).push(digits@[i as int]));
        assert(out@ =~= start + decimal(rest as nat) + digits@.reverse().take(
            digits@.len() - i,
        ));
    }
    assert(digits@.reverse().take(digits@.len() as int) =~= digits@.reverse());
    assert(out@ =~= start + decimal(n as nat));
}

/// Appends the decimal digits of `v` to `out`, after a minus sign where `v` is
/// negative.
pub fn push_signed_decimal(out: &mut Vec<u8>, v: i64)
    ensures
        final(out)@ == old(out)@ + signed_decimal(v as int),
{
    let ghost start = out@;
    if v < 0 {
        out.push(MINUS);
        let magnitude: u64 = if v == i64::MIN {
            9_223_372_036_854_775_808
        } else {
            (-v) as u64
        };
        push_decimal(out, magnitude);
        assert(out@ =~= start + signed_decimal(v as int));
    } else {
        push_decimal(out, v as u64);
    }
}

/// Appends the line that the worker `worker_id` prints for `sample`.
pub fn push_line(out: &mut Vec<u8>, worker_id: u32, sample: &Sample)
    ensures
        final(out)@ == old(out)@ + line_of(worker_id, *sample),
{
    let ghost start = out@;
    push_decimal(out, worker_id as u64);
    out.push(FIELD_SEPARATOR);
    push_signed_decimal(out, sample.elapsed_ms_since_start);
    out.push(FIELD_SEPARATOR);
    push_decimal(out, sample.percent_complete as u64);
    out.push(LINE_END);
    assert(out@ =~= start + line_of(worker_id, *sample));
}

/// The text that the worker `worker_id` prints for `samples`: one line for
/// each, in their order.
pub fn render(worker_id: u32, samples: &Vec<Sample>) -> (r: Vec<u8>)
    ensures
        r@ == report_of(worker_id, samples@),
{
    let mut out: Vec<u8> = Vec::new();
    let mut i: usize = 0;
    while i < samples.len()
        invariant
            i <= samples@.len(),
            out@ == report_of(worker_id, samples@.take(i as int)),
        decreases samples@.len() - i,
    {
        push_line(&mut out, worker_id, &samples[i]);
        i = i + 1;
        assert(samples@.take(i as int).drop_last() =~= samples@.take(i - 1));
    }
    assert(samples@.take(i as int) =~= samples@);
    out
}

/// The text of a worker has one line for each sample.
pub proof fn lemma_report_line_count(worker_id: u32, samples: Seq<Sample>)
    ensures
        line_ends(report_of(worker_id, samples)) == samples.len(),
    decreases samples.len(),
{
    if samples.len() == 0 {
    } else {
        lemma_report_line_count(worker_id, samples.drop_last());
        let front = report_of(worker_id, samples.drop_last());
        let line = line_of(worker_id, samples.last());
        lemma_line_has_one_end(worker_id, samples.last());
        lemma_line_ends_concat(front, line);
    }
}

/// How many line ends `text` holds.
pub open spec fn line_ends(text: Seq<u8>) -> nat
    decreases text.len(),
{
    if text.len() == 0 {
        0
    } else {
        line_ends(text.drop_last()) + if text.last() == LINE_END {
            1nat
        } else {
            0nat
        }
    }
}

proof fn lemma_line_ends_concat(a: Seq<u8>, b: Seq<u8>)
    ensures
        line_ends(a + b) == line_ends(a) + line_ends(b),
    decreases b.len(),
{
    if b.len() == 0 {
        assert(a + b =~= a);
    } else {
        assert((a + b).drop_last() =~= a + b.drop_last());
        lemma_line_ends_concat(a, b.drop_last());
    }
}

proof fn lemma_line_ends_single(c: u8)
    ensures
        line_ends(seq![c]) == if c == LINE_END {
            1nat
        } else {
            0nat
        },
{
    reveal_with_fuel(line_ends, 2);
    assert(seq![c].drop_last().len() == 0);
    assert(seq![c].last() == c);
}

proof fn lemma_decimal_has_no_line_end(n: nat)
    ensures
        line_ends(decimal(n)) == 0,
    decreases n,
{
    if n < 10 {
        lemma_line_ends_single((DIGIT_ZERO + n) as u8);
    } else {
        lemma_decimal_has_no_line_end(n / 10);
        assert(decimal(n).drop_last() =~= decimal(n / 10));
        assert(decimal(n).last() == (DIGIT_ZERO + n % 10) as u8);
    }
}

proof fn lemma_line_has_one_end(worker_id: u32, sample: Sample)
    ensures
        line_ends(line_of(worker_id, sample)) == 1,
{
    let id = decimal(worker_id as nat);
    let tab = seq![FIELD_SEPARATOR];
    let elapsed = signed_decimal(sample.elapsed_ms_since_start as int);
    let percent = decimal(sample.percent_complete as nat);
    let end = seq![LINE_END];
    lemma_decimal_has_no_line_end(worker_id as nat);
    lemma_decimal_has_no_line_end(sample.percent_complete as nat);
    lemma_line_ends_single(FIELD_SEPARATOR);
    lemma_line_ends_single(LINE_END);
    if sample.elapsed_ms_since_start < 0 {
        let magnitude = (-(sample.elapsed_ms_since_start as int)) as nat;
        lemma_decimal_has_no_line_end(magnitude);
        lemma_line_ends_single(MINUS);
        lemma_line_ends_concat(seq![MINUS], decimal(magnitude));
    } else {
        lemma_decimal_has_no_line_end(sample.elapsed_ms_since_start as nat);
    }
    lemma_line_ends_concat(id, tab);
    lemma_line_ends_concat(id + tab, elapsed);
    lemma_line_ends_concat(id + tab + elapsed, tab);
    lemma_line_ends_concat(id + tab + elapsed + tab, percent);
    lemma_line_ends_concat(id + tab + elapsed + tab + percent, end);
}

} // verus!
