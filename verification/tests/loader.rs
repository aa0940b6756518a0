use linfit::loader::{accept_line, assemble_points};
use linfit::Point;

fn bits(v: f64) -> u64 {
    v.to_bits()
}

fn tokens_of(line: &str) -> Vec<Option<u64>> {
    line.split_whitespace().map(|t| t.parse::<f64>().ok().map(|v| v.to_bits())).collect()
}

#[test]
fn two_parsed_tokens_make_a_point() {
    let line: Vec<Option<u64>> = vec![Some(bits(1.5)), Some(bits(-2.0))];
    assert_eq!(accept_line(&line), Some(Point { x_bits: bits(1.5), y_bits: bits(-2.0) }));
}

#[test]
fn one_parsed_token_is_rejected() {
    let line: Vec<Option<u64>> = vec![Some(bits(1.0))];
    assert_eq!(accept_line(&line), None);
}

#[test]
fn three_parsed_tokens_are_rejected() {
    let line: Vec<Option<u64>> = vec![Some(bits(1.0)), Some(bits(2.0)), Some(bits(3.0))];
    assert_eq!(accept_line(&line), None);
}

#[test]
fn unparsed_tokens_are_dropped_not_counted() {
    // A line like "x: 1.0 y: 2.0" still yields the point (1.0, 2.0).
    let line: Vec<Option<u64>> = vec![None, Some(bits(1.0)), None, Some(bits(2.0))];
    assert_eq!(accept_line(&line), Some(Point { x_bits: bits(1.0), y_bits: bits(2.0) }));
}

#[test]
fn empty_or_unparsable_line_is_rejected() {
    assert_eq!(accept_line(&Vec::new()), None);
    let line: Vec<Option<u64>> = vec![None, None];
    assert_eq!(accept_line(&line), None);
}

#[test]
fn lines_contribute_in_input_order() {
    let lines: Vec<Vec<Option<u64>>> = vec![
        vec![Some(bits(1.0)), Some(bits(10.0))],
        vec![Some(bits(2.0))],
        vec![Some(bits(3.0)), Some(bits(30.0))],
        vec![],
        vec![Some(bits(4.0)), Some(bits(40.0)), None],
    ];
    let points = assemble_points(&lines);
    assert_eq!(
        points,
        vec![
            Point { x_bits: bits(1.0), y_bits: bits(10.0) },
            Point { x_bits: bits(3.0), y_bits: bits(30.0) },
            Point { x_bits: bits(4.0), y_bits: bits(40.0) },
        ]
    );
}

#[test]
fn whitespace_split_text_round_trips() {
    let text = "1.0 2.0\nnot numbers\n3.5\t4.5\n5 6 7\n";
    let lines: Vec<Vec<Option<u64>>> = text.lines().map(tokens_of).collect();
    let points = assemble_points(&lines);
    assert_eq!(
        points,
        vec![
            Point { x_bits: bits(1.0), y_bits: bits(2.0) },
            Point { x_bits: bits(3.5), y_bits: bits(4.5) },
        ]
    );
}
