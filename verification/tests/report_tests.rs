use sched_profiler::report::{push_decimal, push_line, push_signed_decimal, render};
use sched_profiler::worker::Sample;

#[test]
fn decimal_of_small_and_large_numbers() {
    for n in [0u64, 1, 9, 10, 11, 99, 100, 101, 12_345, 4_294_967_295, u64::MAX] {
        let mut out = Vec::new();
        push_decimal(&mut out, n);
        assert_eq!(out, format!("{}", n).into_bytes());
    }
}

#[test]
fn decimal_is_appended_to_what_is_there() {
    let mut out = vec![b'x', b'='];
    push_decimal(&mut out, 507);
    assert_eq!(out, vec![b'x', b'=', b'5', b'0', b'7']);
}

#[test]
fn signed_decimal_of_negative_numbers() {
    for v in [0i64, 5, -5, -10, 1_234_567, -1_234_567, i64::MAX, i64::MIN, i64::MIN + 1] {
        let mut out = Vec::new();
        push_signed_decimal(&mut out, v);
        assert_eq!(out, format!("{}", v).into_bytes());
    }
}

#[test]
fn line_has_three_fields_separated_by_tabs() {
    let mut out = Vec::new();
    let sample = Sample { segment_index: 4, elapsed_ms_since_start: 512, percent_complete: 50 };
    push_line(&mut out, 3, &sample);
    assert_eq!(out, vec![b'3', b'\t', b'5', b'1', b'2', b'\t', b'5', b'0', b'\n']);
}

#[test]
fn line_with_negative_elapsed_time() {
    let mut out = Vec::new();
    let sample = Sample { segment_index: 0, elapsed_ms_since_start: -7, percent_complete: 100 };
    push_line(&mut out, 0, &sample);
    assert_eq!(out, format!("{}\t{}\t{}\n", 0, -7, 100).into_bytes());
}

#[test]
fn report_has_one_line_per_sample_in_order() {
    let samples = vec![
        Sample { segment_index: 0, elapsed_ms_since_start: 101, percent_complete: 33 },
        Sample { segment_index: 1, elapsed_ms_since_start: 205, percent_complete: 66 },
        Sample { segment_index: 2, elapsed_ms_since_start: 298, percent_complete: 100 },
    ];
    let text = render(12, &samples);
    assert_eq!(text, vec![
        b'1', b'2', b'\t', b'1', b'0', b'1', b'\t', b'3', b'3', b'\n',
        b'1', b'2', b'\t', b'2', b'0', b'5', b'\t', b'6', b'6', b'\n',
        b'1', b'2', b'\t', b'2', b'9', b'8', b'\t', b'1', b'0', b'0', b'\n',
    ]);
    assert_eq!(text.iter().filter(|&&b| b == b'\n').count(), samples.len());
}

#[test]
fn report_of_no_samples_is_empty() {
    assert!(render(0, &Vec::new()).is_empty());
}

#[test]
fn report_matches_the_formatted_lines() {
    let mut samples = Vec::new();
    let mut expected = String::new();
    for i in 0..10u32 {
        let s = Sample {
            segment_index: i,
            elapsed_ms_since_start: 100 * (i as i64 + 1) + 3,
            percent_complete: (i + 1) * 10,
        };
        expected.push_str(&format!("{}\t{}\t{}\n", 4_000_000_000u32, s.elapsed_ms_since_start, s.percent_complete));
        samples.push(s);
    }
    assert_eq!(render(4_000_000_000, &samples), expected.into_bytes());
}
