use vstd::prelude::*;
use crate::constraint::{
    Constraint,
    constraint_at,
    is_valid_constraint,
    lemma_schedule_is_bijection,
    row_of,
};
use crate::system::{Entry, constraint_entry, falling, is_spline_system};

verus! {

/// `x` raised to `e`.
pub open spec fn power(x: int, e: nat) -> int
    decreases e,
{
    if e == 0 {
        1
    } else {
        x * power(x, (e - 1) as nat)
    }
}

/// The value of `e` for the samples `(xs[i], ys[i])`, in exact arithmetic.
pub open spec fn entry_value(e: Entry, xs: Seq<int>, ys: Seq<int>) -> int {
    match e {
        Entry::Zero => 0,
        Entry::Const { value } => value as int,
        Entry::Power { coeff, point, exponent } => coeff * power(xs[point as int], exponent as nat),
        Entry::Value { point } => ys[point as int],
    }
}

/// The left-hand side of the row that holds `c`, over its first `len`
/// columns, applied to `coeffs`.
pub open spec fn row_dot(
    n: nat,
    c: Constraint,
    xs: Seq<int>,
    ys: Seq<int>,
    coeffs: Seq<int>,
    len: nat,
) -> int
    decreases len,
{
    if len == 0 {
        0
    } else {
        row_dot(n, c, xs, ys, coeffs, (len - 1) as nat) + entry_value(
            constraint_entry(n, c, len - 1),
            xs,
            ys,
        ) * coeffs[len - 1]
    }
}

/// `coeffs` solves exactly the system for `n` segments (the entries of
/// `system_entry`, as `generate_linear_system` builds them) over the samples.
pub open spec fn solves(n: nat, xs: Seq<int>, ys: Seq<int>, coeffs: Seq<int>) -> bool {
    forall|r: int|
        0 <= r < 4 * n ==> #[trigger] row_dot(n, constraint_at(n, r), xs, ys, coeffs, 4 * n)
            == entry_value(constraint_entry(n, constraint_at(n, r), (4 * n) as int), xs, ys)
}

/// `a·x³ + b·x² + c·x + d` for the coefficients of segment `s`.
pub open spec fn segment_value(coeffs: Seq<int>, s: int, x: int) -> int {
    coeffs[4 * s] * x * x * x + coeffs[4 * s + 1] * x * x + coeffs[4 * s + 2] * x + coeffs[4 * s + 3]
}

/// `3a·x² + 2b·x + c` for the coefficients of segment `s`.
pub open spec fn segment_slope(coeffs: Seq<int>, s: int, x: int) -> int {
    3 * coeffs[4 * s] * x * x + 2 * coeffs[4 * s + 1] * x + coeffs[4 * s + 2]
}

/// `6a·x + 2b` for the coefficients of segment `s`.
pub open spec fn segment_curvature(coeffs: Seq<int>, s: int, x: int) -> int {
    6 * coeffs[4 * s] * x + 2 * coeffs[4 * s + 1]
}

/// The cubics in `coeffs` pass through every sample, meet at every
/// interior knot with equal value, slope and curvature, and the first and
/// last of them have no cubic term.
pub open spec fn is_spline_fit(n: nat, xs: Seq<int>, ys: Seq<int>, coeffs: Seq<int>) -> bool {
    &&& forall|s: int|
        0 <= s < n ==> #[trigger] segment_value(coeffs, s, xs[s]) == ys[s] && segment_value(
            coeffs,
            s,
            xs[s + 1],
        ) == ys[s + 1]
    &&& forall|k: int|
        1 <= k < n ==> #[trigger] segment_value(coeffs, k - 1, xs[k]) == segment_value(
            coeffs,
            k,
            xs[k],
        )
    &&& forall|k: int|
        1 <= k < n ==> #[trigger] segment_slope(coeffs, k - 1, xs[k]) == segment_slope(
            coeffs,
            k,
            xs[k],
        )
    &&& forall|k: int|
        1 <= k < n ==> #[trigger] segment_curvature(coeffs, k - 1, xs[k]) == segment_curvature(
            coeffs,
            k,
            xs[k],
        )
    &&& coeffs[0] == 0
    &&& coeffs[4 * n - 4] == 0
}

proof fn lemma_dot_window(
    n: nat,
    c: Constraint,
    xs: Seq<int>,
    ys: Seq<int>,
    coeffs: Seq<int>,
    lo: nat,
    len: nat,
)
    requires
        lo <= len,
        forall|col: int| lo <= col < len ==> constraint_entry(n, c, col) == Entry::Zero,
    ensures
        row_dot(n, c, xs, ys, coeffs, len) == row_dot(n, c, xs, ys, coeffs, lo),
    decreases len,
{
    if len > lo {
        lemma_dot_window(n, c, xs, ys, coeffs, lo, (len - 1) as nat);
    }
}


/// What the row that holds `c` says of `coeffs`: its left-hand side.
spec fn constraint_lhs(n: nat, c: Constraint, xs: Seq<int>, coeffs: Seq<int>) -> int {
    match c {
        Constraint::Interpolate { segment, right } => segment_value(
            coeffs,
            segment as int,
            xs[if right {
                segment + 1
            } else {
                segment as int
            }],
        ),
        Constraint::Slope { knot } => segment_slope(coeffs, knot - 1, xs[knot as int])
            - segment_slope(coeffs, knot as int, xs[knot as int]),
        Constraint::Curvature { knot } => segment_curvature(coeffs, knot - 1, xs[knot as int])
            - segment_curvature(coeffs, knot as int, xs[knot as int]),
        Constraint::FlatStart => coeffs[0],
        Constraint::FlatEnd => coeffs[4 * n - 4],
    }
}

proof fn lemma_cubic_window(
    n: nat,
    c: Constraint,
    xs: Seq<int>,
    ys: Seq<int>,
    coeffs: Seq<int>,
    f: int,
    order: nat,
    point: usize,
    negate: bool,
)
    requires
        f >= 0,
        order <= 2,
        forall|j: int|
            0 <= j < 4 ==> #[trigger] constraint_entry(n, c, f + j) == crate::system::derivative_term(
                order,
                (3 - j) as nat,
                point,
                negate,
            ),
    ensures
        ({
            let x = xs[point as int];
            let a = coeffs[f];
            let b = coeffs[f + 1];
            let cc = coeffs[f + 2];
            let d = coeffs[f + 3];
            let sum = row_dot(n, c, xs, ys, coeffs, (f + 4) as nat) - row_dot(n, c, xs, ys, coeffs, f as nat);
            let v = if order == 0 {
                a * x * x * x + b * x * x + cc * x + d
            } else if order == 1 {
                3 * a * x * x + 2 * b * x + cc
            } else {
                6 * a * x + 2 * b
            };
            sum == if negate {
                -v
            } else {
                v
            }
        }),
{
    reveal_with_fuel(power, 4);
    reveal_with_fuel(falling, 3);
    let x = xs[point as int];
    let t0 = constraint_entry(n, c, f + 0);
    let t1 = constraint_entry(n, c, f + 1);
    let t2 = constraint_entry(n, c, f + 2);
    let t3 = constraint_entry(n, c, f + 3);
    assert(row_dot(n, c, xs, ys, coeffs, (f + 1) as nat) == row_dot(n, c, xs, ys, coeffs, f as nat)
        + entry_value(t0, xs, ys) * coeffs[f]);
    assert(row_dot(n, c, xs, ys, coeffs, (f + 2) as nat) == row_dot(n, c, xs, ys, coeffs, (f + 1) as nat)
        + entry_value(t1, xs, ys) * coeffs[f + 1]);
    assert(row_dot(n, c, xs, ys, coeffs, (f + 3) as nat) == row_dot(n, c, xs, ys, coeffs, (f + 2) as nat)
        + entry_value(t2, xs, ys) * coeffs[f + 2]);
    assert(row_dot(n, c, xs, ys, coeffs, (f + 4) as nat) == row_dot(n, c, xs, ys, coeffs, (f + 3) as nat)
        + entry_value(t3, xs, ys) * coeffs[f + 3]);
    assert(row_dot(n, c, xs, ys, coeffs, (f + 4) as nat) - row_dot(n, c, xs, ys, coeffs, f as nat) == entry_value(
        t0,
        xs,
        ys,
    ) * coeffs[f] + entry_value(t1, xs, ys) * coeffs[f + 1] + entry_value(t2, xs, ys)
        * coeffs[f + 2] + entry_value(t3, xs, ys) * coeffs[f + 3]);
    let sg: int = if negate {
        -1
    } else {
        1
    };
    if order == 0 {
        assert(entry_value(t0, xs, ys) == sg * (x * (x * (x * 1))));
        assert(entry_value(t1, xs, ys) == sg * (x * (x * 1)));
        assert(entry_value(t2, xs, ys) == sg * (x * 1));
        assert(entry_value(t3, xs, ys) == sg);
    } else if order == 1 {
        assert(entry_value(t0, xs, ys) == sg * 3 * (x * (x * 1)));
        assert(entry_value(t1, xs, ys) == sg * 2 * (x * 1));
        assert(entry_value(t2, xs, ys) == sg);
        assert(entry_value(t3, xs, ys) == 0);
    } else {
        assert(entry_value(t0, xs, ys) == sg * 6 * (x * 1));
        assert(entry_value(t1, xs, ys) == sg * 2);
        assert(entry_value(t2, xs, ys) == 0);
        assert(entry_value(t3, xs, ys) == 0);
    }
    let (e0, e1, e2, e3) = (
        entry_value(t0, xs, ys),
        entry_value(t1, xs, ys),
        entry_value(t2, xs, ys),
        entry_value(t3, xs, ys),
    );
    let (a, b, cc, d) = (coeffs[f], coeffs[f + 1], coeffs[f + 2], coeffs[f + 3]);
    if order == 0 {
        assert(e0 * a == sg * (a * x * x * x)) by (nonlinear_arith)
            requires
                e0 == sg * (x * (x * (x * 1))),
        ;
        assert(e1 * b == sg * (b * x * x)) by (nonlinear_arith)
            requires
                e1 == sg * (x * (x * 1)),
        ;
        assert(e2 * cc == sg * (cc * x)) by (nonlinear_arith)
            requires
                e2 == sg * (x * 1),
        ;
        assert(e0 * a + e1 * b + e2 * cc + e3 * d == sg * (a * x * x * x + b * x * x + cc * x + d))
            by (nonlinear_arith)
            requires
                e0 * a == sg * (a * x * x * x),
                e1 * b == sg * (b * x * x),
                e2 * cc == sg * (cc * x),
                e3 == sg,
        ;
    } else if order == 1 {
        assert(e0 * a + e1 * b + e2 * cc + e3 * d == sg * (3 * a * x * x + 2 * b * x + cc))
            by (nonlinear_arith)
            requires
                e0 == sg * 3 * (x * (x * 1)),
                e1 == sg * 2 * (x * 1),
                e2 == sg,
                e3 == 0,
        ;
    } else {
        assert(e0 * a + e1 * b + e2 * cc + e3 * d == sg * (6 * a * x + 2 * b)) by (nonlinear_arith)
            requires
                e0 == sg * 6 * (x * 1),
                e1 == sg * 2,
                e2 == 0,
                e3 == 0,
        ;
    }
}


/// The right-hand side of the row that holds `c`.
spec fn constraint_rhs(n: nat, c: Constraint, ys: Seq<int>) -> int {
    match c {
        Constraint::Interpolate { segment, right } => ys[if right {
            segment + 1
        } else {
            segment as int
        }],
        _ => 0,
    }
}

proof fn lemma_row_interpolate(
    n: nat,
    segment: usize,
    right: bool,
    xs: Seq<int>,
    ys: Seq<int>,
    coeffs: Seq<int>,
)
    requires
        segment < n,
        4 * n <= usize::MAX,
        xs.len() == n + 1,
        ys.len() == n + 1,
        coeffs.len() == 4 * n,
    ensures
        ({
            let c = Constraint::Interpolate { segment, right };
            &&& row_dot(n, c, xs, ys, coeffs, 4 * n) == constraint_lhs(n, c, xs, coeffs)
            &&& entry_value(constraint_entry(n, c, (4 * n) as int), xs, ys) == constraint_rhs(
                n,
                c,
                ys,
            )
        }),
{
    let c = Constraint::Interpolate { segment, right };
    let f = 4 * segment;
    let p: int = if right {
        segment + 1
    } else {
        segment as int
    };
    lemma_dot_window(n, c, xs, ys, coeffs, (f + 4) as nat, 4 * n);
    lemma_dot_window(n, c, xs, ys, coeffs, 0, f as nat);
    lemma_cubic_window(n, c, xs, ys, coeffs, f as int, 0, p as usize, false);
}

proof fn lemma_row_join(
    n: nat,
    c: Constraint,
    knot: usize,
    order: nat,
    xs: Seq<int>,
    ys: Seq<int>,
    coeffs: Seq<int>,
)
    requires
        1 <= knot < n,
        (order == 1 && c == (Constraint::Slope { knot })) || (order == 2 && c == (
        Constraint::Curvature { knot })),
        xs.len() == n + 1,
        ys.len() == n + 1,
        coeffs.len() == 4 * n,
    ensures
        row_dot(n, c, xs, ys, coeffs, 4 * n) == constraint_lhs(n, c, xs, coeffs),
        entry_value(constraint_entry(n, c, (4 * n) as int), xs, ys) == constraint_rhs(n, c, ys),
{
    let f = 4 * (knot - 1);
    lemma_dot_window(n, c, xs, ys, coeffs, (f + 8) as nat, 4 * n);
    lemma_dot_window(n, c, xs, ys, coeffs, 0, f as nat);
    lemma_cubic_window(n, c, xs, ys, coeffs, f, order, knot, false);
    lemma_cubic_window(n, c, xs, ys, coeffs, f + 4, order, knot, true);
}

proof fn lemma_row_flat(n: nat, c: Constraint, xs: Seq<int>, ys: Seq<int>, coeffs: Seq<int>)
    requires
        n >= 1,
        c == Constraint::FlatStart || c == Constraint::FlatEnd,
        coeffs.len() == 4 * n,
    ensures
        row_dot(n, c, xs, ys, coeffs, 4 * n) == constraint_lhs(n, c, xs, coeffs),
        entry_value(constraint_entry(n, c, (4 * n) as int), xs, ys) == constraint_rhs(n, c, ys),
{
    let f: nat = if c == Constraint::FlatStart {
        0
    } else {
        (4 * n - 4) as nat
    };
    lemma_dot_window(n, c, xs, ys, coeffs, f + 1, 4 * n);
    lemma_dot_window(n, c, xs, ys, coeffs, 0, f);
    assert(row_dot(n, c, xs, ys, coeffs, f + 1) == row_dot(n, c, xs, ys, coeffs, f) + 1
        * coeffs[f as int]);
}

proof fn lemma_row(n: nat, c: Constraint, xs: Seq<int>, ys: Seq<int>, coeffs: Seq<int>)
    requires
        n >= 1,
        4 * n <= usize::MAX,
        is_valid_constraint(n, c),
        xs.len() == n + 1,
        ys.len() == n + 1,
        coeffs.len() == 4 * n,
    ensures
        row_dot(n, c, xs, ys, coeffs, 4 * n) == constraint_lhs(n, c, xs, coeffs),
        entry_value(constraint_entry(n, c, (4 * n) as int), xs, ys) == constraint_rhs(n, c, ys),
{
    match c {
        Constraint::Interpolate { segment, right } => {
            lemma_row_interpolate(n, segment, right, xs, ys, coeffs);
        },
        Constraint::Slope { knot } => {
            lemma_row_join(n, c, knot, 1, xs, ys, coeffs);
        },
        Constraint::Curvature { knot } => {
            lemma_row_join(n, c, knot, 2, xs, ys, coeffs);
        },
        _ => {
            lemma_row_flat(n, c, xs, ys, coeffs);
        },
    }
}

/// The system for `n + 1` samples encodes exactly the spline conditions:
/// in exact arithmetic, a vector of `4n` coefficients solves it if and only
/// if each segment's cubic passes through both of its samples, adjacent
/// cubics agree in value, first and second derivative at every interior
/// knot, and the first and last segments have a zero cubic coefficient.
pub proof fn lemma_solution_is_spline_fit(
    n: nat,
    xs: Seq<int>,
    ys: Seq<int>,
    coeffs: Seq<int>,
)
    requires
        n >= 1,
        4 * n <= usize::MAX,
        xs.len() == n + 1,
        ys.len() == n + 1,
        coeffs.len() == 4 * n,
    ensures
        solves(n, xs, ys, coeffs) <==> is_spline_fit(n, xs, ys, coeffs),
{
    lemma_schedule_is_bijection(n);
    if solves(n, xs, ys, coeffs) {
        assert forall|s: int| 0 <= s < n implies #[trigger] segment_value(coeffs, s, xs[s])
            == ys[s] && segment_value(coeffs, s, xs[s + 1]) == ys[s + 1] by {
            let c0 = Constraint::Interpolate { segment: s as usize, right: false };
            let c1 = Constraint::Interpolate { segment: s as usize, right: true };
            assert(is_valid_constraint(n, c0));
            assert(is_valid_constraint(n, c1));
            lemma_row(n, c0, xs, ys, coeffs);
            lemma_row(n, c1, xs, ys, coeffs);
            assert(constraint_at(n, row_of(n, c0)) == c0);
            assert(constraint_at(n, row_of(n, c1)) == c1);
        }
        assert forall|k: int| 1 <= k < n implies #[trigger] segment_slope(coeffs, k - 1, xs[k])
            == segment_slope(coeffs, k, xs[k]) by {
            let c = Constraint::Slope { knot: k as usize };
            assert(is_valid_constraint(n, c));
            lemma_row(n, c, xs, ys, coeffs);
            assert(constraint_at(n, row_of(n, c)) == c);
        }
        assert forall|k: int| 1 <= k < n implies #[trigger] segment_curvature(coeffs, k - 1, xs[k])
            == segment_curvature(coeffs, k, xs[k]) by {
            let c = Constraint::Curvature { knot: k as usize };
            assert(is_valid_constraint(n, c));
            lemma_row(n, c, xs, ys, coeffs);
            assert(constraint_at(n, row_of(n, c)) == c);
        }
        assert forall|k: int| 1 <= k < n implies #[trigger] segment_value(coeffs, k - 1, xs[k])
            == segment_value(coeffs, k, xs[k]) by {
            assert(segment_value(coeffs, k - 1, xs[k - 1]) == ys[k - 1]);
            assert(segment_value(coeffs, k, xs[k]) == ys[k]);
        }
        assert(is_valid_constraint(n, Constraint::FlatStart));
        assert(is_valid_constraint(n, Constraint::FlatEnd));
        lemma_row(n, Constraint::FlatStart, xs, ys, coeffs);
        lemma_row(n, Constraint::FlatEnd, xs, ys, coeffs);
        assert(constraint_at(n, row_of(n, Constraint::FlatStart)) == Constraint::FlatStart);
        assert(constraint_at(n, row_of(n, Constraint::FlatEnd)) == Constraint::FlatEnd);
    }
    if is_spline_fit(n, xs, ys, coeffs) {
        assert forall|r: int| 0 <= r < 4 * n implies #[trigger] row_dot(
            n,
            constraint_at(n, r),
            xs,
            ys,
            coeffs,
            4 * n,
        ) == entry_value(constraint_entry(n, constraint_at(n, r), (4 * n) as int), xs, ys) by {
            let c = constraint_at(n, r);
            assert(is_valid_constraint(n, c));
            lemma_row(n, c, xs, ys, coeffs);
            match c {
                Constraint::Interpolate { segment, right } => {
                    assert(segment_value(coeffs, segment as int, xs[segment as int])
                        == ys[segment as int]);
                },
                Constraint::Slope { knot } => {
                    assert(segment_slope(coeffs, knot - 1, xs[knot as int]) == segment_slope(
                        coeffs,
                        knot as int,
                        xs[knot as int],
                    ));
                },
                Constraint::Curvature { knot } => {
                    assert(segment_curvature(coeffs, knot - 1, xs[knot as int])
                        == segment_curvature(coeffs, knot as int, xs[knot as int]));
                },
                _ => {},
            }
        }
    }
}


/// The system is a function of the sample count alone: any two systems built
/// for `n` segments hold the same entries, so rebuilding gives the same matrix.
pub proof fn lemma_system_is_determined(n: nat, m1: Seq<Vec<Entry>>, m2: Seq<Vec<Entry>>)
    requires
        is_spline_system(n, m1),
        is_spline_system(n, m2),
    ensures
        m1.len() == m2.len(),
        forall|r: int| 0 <= r < m1.len() ==> (#[trigger] m1[r])@ == m2[r]@,
{
    assert forall|r: int| 0 <= r < m1.len() implies (#[trigger] m1[r])@ == m2[r]@ by {
        assert(m1[r]@ =~= m2[r]@);
    }
}

} // verus!



