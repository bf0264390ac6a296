use spline_bezier::constraint::{schedule, segment_count, Constraint, SplineError};
use spline_bezier::pivot::find_pivot;
use spline_bezier::system::{constraint_entry_at, constraint_row, generate_linear_system, Entry};

fn power(coeff: i64, point: usize, exponent: u32) -> Entry {
    Entry::Power { coeff, point, exponent }
}

fn konst(value: i64) -> Entry {
    Entry::Const { value }
}

fn value_of(e: &Entry, points: &[(f64, f64)]) -> f64 {
    match *e {
        Entry::Zero => 0.0,
        Entry::Const { value } => value as f64,
        Entry::Power { coeff, point, exponent } => coeff as f64 * points[point].0.powi(exponent as i32),
        Entry::Value { point } => points[point].1,
    }
}

fn numeric(m: &[Vec<Entry>], points: &[(f64, f64)]) -> Vec<Vec<f64>> {
    m.iter().map(|row| row.iter().map(|e| value_of(e, points)).collect()).collect()
}

fn solve(mut m: Vec<Vec<f64>>) -> Result<Vec<f64>, SplineError> {
    let size = m.len();
    for c in 0..size {
        let nonzero: Vec<bool> = m.iter().map(|row| row[c] != 0.0).collect();
        let k = find_pivot(&nonzero, c)?;
        m.swap(k, c);
        for r in (c + 1)..size {
            let fac = -(m[r][c] / m[c][c]);
            for j in c..(size + 1) {
                let delta = fac * m[c][j];
                m[r][j] += delta;
            }
        }
    }
    let mut solution = vec![0.0; size];
    for c in (0..size).rev() {
        let v = m[c][size] / m[c][c];
        solution[c] = v;
        for r in 0..c {
            let delta = v * m[r][c];
            m[r][size] -= delta;
        }
    }
    Ok(solution)
}

fn cubic(k: &[f64], x: f64) -> f64 {
    k[0] * x * x * x + k[1] * x * x + k[2] * x + k[3]
}

fn slope(k: &[f64], x: f64) -> f64 {
    3.0 * k[0] * x * x + 2.0 * k[1] * x + k[2]
}

fn curvature(k: &[f64], x: f64) -> f64 {
    6.0 * k[0] * x + 2.0 * k[1]
}

fn fit(points: &[(f64, f64)]) -> Vec<f64> {
    let m = generate_linear_system(points.len()).unwrap();
    solve(numeric(&m, points)).unwrap()
}

fn close(a: f64, b: f64) -> bool {
    (a - b).abs() < 1e-7
}

#[test]
fn three_points_give_eight_by_nine_system() {
    let m = generate_linear_system(3).unwrap();
    assert_eq!(m.len(), 8);
    for row in &m {
        assert_eq!(row.len(), 9);
    }
    let z = Entry::Zero;
    assert_eq!(m[0], vec![power(1, 0, 3), power(1, 0, 2), power(1, 0, 1), konst(1), z, z, z, z, Entry::Value { point: 0 }]);
    assert_eq!(m[1], vec![power(1, 1, 3), power(1, 1, 2), power(1, 1, 1), konst(1), z, z, z, z, Entry::Value { point: 1 }]);
    assert_eq!(m[2], vec![z, z, z, z, power(1, 1, 3), power(1, 1, 2), power(1, 1, 1), konst(1), Entry::Value { point: 1 }]);
    assert_eq!(m[3], vec![z, z, z, z, power(1, 2, 3), power(1, 2, 2), power(1, 2, 1), konst(1), Entry::Value { point: 2 }]);
    assert_eq!(m[4], vec![power(3, 1, 2), power(2, 1, 1), konst(1), z, power(-3, 1, 2), power(-2, 1, 1), konst(-1), z, z]);
    assert_eq!(m[5], vec![power(6, 1, 1), konst(2), z, z, power(-6, 1, 1), konst(-2), z, z, z]);
    assert_eq!(m[6], vec![konst(1), z, z, z, z, z, z, z, z]);
    assert_eq!(m[7], vec![z, z, z, z, konst(1), z, z, z, z]);
}

#[test]
fn three_points_fit_through_samples() {
    let points = [(-5.0, -6.0), (0.0, 0.0), (5.0, 4.0)];
    let k = fit(&points);
    assert_eq!(k.len(), 8);
    assert!(close(cubic(&k[0..4], -5.0), -6.0));
    assert!(close(cubic(&k[0..4], 0.0), 0.0));
    assert!(close(cubic(&k[4..8], 0.0), 0.0));
    assert!(close(cubic(&k[4..8], 5.0), 4.0));
}

#[test]
fn fit_is_smooth_at_knots_and_flat_at_ends() {
    let points = [(-3.0, 1.0), (-1.0, 2.0), (0.5, -1.0), (2.0, 0.5), (4.0, 3.0)];
    let k = fit(&points);
    assert_eq!(k.len(), 16);
    for s in 0..4 {
        let seg = &k[4 * s..4 * s + 4];
        assert!(close(cubic(seg, points[s].0), points[s].1));
        assert!(close(cubic(seg, points[s + 1].0), points[s + 1].1));
    }
    for knot in 1..4 {
        let x = points[knot].0;
        let (l, r) = (&k[4 * knot - 4..4 * knot], &k[4 * knot..4 * knot + 4]);
        assert!(close(cubic(l, x), cubic(r, x)));
        assert!(close(slope(l, x), slope(r, x)));
        assert!(close(curvature(l, x), curvature(r, x)));
    }
    assert!(close(k[0], 0.0));
    assert!(close(k[12], 0.0));
}

#[test]
fn rebuilding_gives_the_same_result() {
    let points = [(-5.0, -6.0), (0.0, 0.0), (5.0, 4.0)];
    assert_eq!(generate_linear_system(3), generate_linear_system(3));
    assert_eq!(fit(&points), fit(&points));
}

#[test]
fn one_point_is_insufficient_input() {
    assert_eq!(generate_linear_system(1), Err(SplineError::InsufficientInput));
    assert_eq!(generate_linear_system(0), Err(SplineError::InsufficientInput));
    assert_eq!(schedule(1), Err(SplineError::InsufficientInput));
    assert_eq!(segment_count(1), Err(SplineError::InsufficientInput));
    assert_eq!(segment_count(5), Ok(4));
}

#[test]
fn repeated_interpolation_row_is_singular() {
    let mut m = numeric(&generate_linear_system(3).unwrap(), &[(-5.0, -6.0), (0.0, 0.0), (5.0, 4.0)]);
    m[1] = m[0].clone();
    assert_eq!(solve(m), Err(SplineError::Singular));
}

#[test]
fn two_points_force_both_flat_rows_on_one_segment() {
    let m = generate_linear_system(2).unwrap();
    assert_eq!(m.len(), 4);
    assert_eq!(m[2], m[3]);
    let numeric_m = numeric(&m, &[(0.0, 1.0), (1.0, 2.0)]);
    assert_eq!(solve(numeric_m), Err(SplineError::Singular));
}

#[test]
fn pivot_is_first_nonzero_at_or_below_diagonal() {
    assert_eq!(find_pivot(&vec![true, false, true, true], 1), Ok(2));
    assert_eq!(find_pivot(&vec![true, true, false], 1), Ok(1));
    assert_eq!(find_pivot(&vec![true, false, false], 1), Err(SplineError::Singular));
    assert_eq!(find_pivot(&vec![true, true], 2), Err(SplineError::Singular));
    assert_eq!(find_pivot(&vec![], 0), Err(SplineError::Singular));
}

#[test]
fn schedule_orders_rows_by_kind_then_position() {
    let rows = schedule(4).unwrap();
    assert_eq!(
        rows,
        vec![
            Constraint::Interpolate { segment: 0, right: false },
            Constraint::Interpolate { segment: 0, right: true },
            Constraint::Interpolate { segment: 1, right: false },
            Constraint::Interpolate { segment: 1, right: true },
            Constraint::Interpolate { segment: 2, right: false },
            Constraint::Interpolate { segment: 2, right: true },
            Constraint::Slope { knot: 1 },
            Constraint::Slope { knot: 2 },
            Constraint::Curvature { knot: 1 },
            Constraint::Curvature { knot: 2 },
            Constraint::FlatStart,
            Constraint::FlatEnd,
        ]
    );
}

#[test]
fn rows_of_single_constraints() {
    assert_eq!(constraint_entry_at(3, Constraint::Slope { knot: 2 }, 8), power(-3, 2, 2));
    assert_eq!(constraint_entry_at(3, Constraint::Curvature { knot: 2 }, 5), konst(2));
    assert_eq!(constraint_entry_at(3, Constraint::FlatEnd, 8), konst(1));
    assert_eq!(constraint_entry_at(3, Constraint::Interpolate { segment: 2, right: true }, 12), Entry::Value { point: 3 });
    let row = constraint_row(2, Constraint::Interpolate { segment: 1, right: false });
    assert_eq!(row.len(), 9);
    assert_eq!(&row[4..9], &[power(1, 1, 3), power(1, 1, 2), power(1, 1, 1), konst(1), Entry::Value { point: 1 }]);
}
