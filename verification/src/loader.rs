//! The loader's acceptance rule for data lines.
//!
//! The caller splits the decoded text into lines and whitespace tokens and
//! tries to parse every token as a double, handing over one `Option<u64>`
//! per token: the bit pattern of the parsed value, or `None` where the token
//! did not parse. A line yields a point exactly when, after the failures are
//! dropped, exactly two parsed values remain; those two become the point's
//! x and y. Lines contribute in input order.

use vstd::prelude::*;
use crate::Point;

verus! {

/// The parsed values of one line, in token order, with failed tokens
/// dropped.
pub open spec fn parsed_tokens(line: Seq<Option<u64>>) -> Seq<u64>
    decreases line.len(),
{
    if line.len() == 0 {
        Seq::empty()
    } else {
        let rest = parsed_tokens(line.drop_last());
        match line.last() {
            Some(v) => rest.push(v),
            None => rest,
        }
    }
}

/// The point a line yields, if it yields one: exactly two parsed values,
/// first is x, second is y.
pub open spec fn line_point(line: Seq<Option<u64>>) -> Option<Point> {
    if parsed_tokens(line).len() == 2 {
        Some(Point { x_bits: parsed_tokens(line)[0], y_bits: parsed_tokens(line)[1] })
    } else {
        None
    }
}

/// The point set of a whole file: the accepted lines' points, in line order.
pub open spec fn points_of(lines: Seq<Seq<Option<u64>>>) -> Seq<Point>
    decreases lines.len(),
{
    if lines.len() == 0 {
        Seq::empty()
    } else {
        let rest = points_of(lines.drop_last());
        match line_point(lines.last()) {
            Some(p) => rest.push(p),
            None => rest,
        }
    }
}

/// Applies the acceptance rule to one line of token parse results.
pub fn accept_line(line: &Vec<Option<u64>>) -> (r: Option<Point>)
    ensures
        r == line_point(line@),
{
    let mut count: usize = 0;
    let mut first: u64 = 0;
    let mut second: u64 = 0;
    let mut j: usize = 0;
    while j < line.len()
        invariant
            j <= line@.len(),
            count <= j,
            count == parsed_tokens(line@.take(j as int)).len(),
            count >= 1 ==> first == parsed_tokens(line@.take(j as int))[0],
            count >= 2 ==> second == parsed_tokens(line@.take(j as int))[1],
        decreases line@.len() - j,
    {
        proof {
            assert(line@.take(j + 1).drop_last() =~= line@.take(j as int));
        }
        match line[j] {
            Some(v) => {
                if count == 0 {
                    first = v;
                } else if count == 1 {
                    second = v;
                }
                count = count + 1;
            },
            None => {},
        }
        j = j + 1;
    }
    proof {
        assert(line@.take(line@.len() as int) =~= line@);
    }
    if count == 2 {
        Some(Point { x_bits: first, y_bits: second })
    } else {
        None
    }
}

/// Builds the point set from the per-line, per-token parse results.
pub fn assemble_points(lines: &Vec<Vec<Option<u64>>>) -> (points: Vec<Point>)
    ensures
        points@ == points_of(lines@.map_values(|l: Vec<Option<u64>>| l@)),
{
    let ghost all: Seq<Seq<Option<u64>>> = lines@.map_values(|l: Vec<Option<u64>>| l@);
    let mut points: Vec<Point> = Vec::new();
    let mut i: usize = 0;
    while i < lines.len()
        invariant
            i <= lines@.len(),
            all == lines@.map_values(|l: Vec<Option<u64>>| l@),
            points@ == points_of(all.take(i as int)),
        decreases lines@.len() - i,
    {
        proof {
            assert(all.take(i + 1).drop_last() =~= all.take(i as int));
            assert(all.take(i + 1).last() == lines@[i as int]@);
        }
        match accept_line(&lines[i]) {
            Some(p) => points.push(p),
            None => {},
        }
        i = i + 1;
    }
    proof {
        assert(all.take(lines@.len() as int) =~= all);
    }
    points
}

} // verus!
