use vstd::prelude::*;
use crate::constraint::{
    Constraint,
    SplineError,
    constraint_at,
    is_valid_constraint,
    lemma_schedule_is_bijection,
    schedule,
};

verus! {

/// A matrix entry as a term over the samples `(x_i, y_i)`.
#[derive(Clone, Copy, Debug, PartialEq, Eq, Structural)]
pub enum Entry {
    Zero,
    /// The integer `value`.
    Const { value: i64 },
    /// `coeff · x_point ^ exponent`, with `exponent >= 1`.
    Power { coeff: i64, point: usize, exponent: u32 },
    /// `y_point`.
    Value { point: usize },
}

/// `p · (p - 1) · …` with `order` factors: what differentiating `x^p`
/// `order` times brings down.
pub open spec fn falling(p: nat, order: nat) -> int
    decreases order,
{
    if order == 0 {
        1
    } else {
        p * falling((p - 1) as nat, (order - 1) as nat)
    }
}

/// The derivative of order `order` of `x^power`, taken at sample `point`
/// and negated when `negate`.
pub open spec fn derivative_term(order: nat, power: nat, point: usize, negate: bool) -> Entry {
    if power < order {
        Entry::Zero
    } else {
        let k = if negate {
            -falling(power, order)
        } else {
            falling(power, order)
        };
        if power == order {
            Entry::Const { value: k as i64 }
        } else {
            Entry::Power { coeff: k as i64, point, exponent: (power - order) as u32 }
        }
    }
}

/// Column `col` of a row that holds the derivative of order `order` of the
/// segment whose coefficients `(a, b, c, d)` stand in columns
/// `first .. first + 4`, taken at sample `point`: the derivative of the
/// monomial that multiplies each coefficient, and zero outside those columns.
pub open spec fn segment_term(first: int, order: nat, point: usize, negate: bool, col: int) -> Entry {
    if first <= col < first + 4 {
        derivative_term(order, (3 - (col - first)) as nat, point, negate)
    } else {
        Entry::Zero
    }
}

/// Column `col` of the row that holds `c`, in the system for `n` segments.
/// Column `4n` is the right-hand side.
pub open spec fn constraint_entry(n: nat, c: Constraint, col: int) -> Entry {
    match c {
        Constraint::Interpolate { segment, right } => {
            let p = if right {
                segment + 1
            } else {
                segment as int
            };
            if col == 4 * n {
                Entry::Value { point: p as usize }
            } else {
                segment_term(4 * segment, 0, p as usize, false, col)
            }
        },
        Constraint::Slope { knot } => if col < 4 * knot {
            segment_term(4 * (knot - 1), 1, knot, false, col)
        } else {
            segment_term(4 * knot, 1, knot, true, col)
        },
        Constraint::Curvature { knot } => if col < 4 * knot {
            segment_term(4 * (knot - 1), 2, knot, false, col)
        } else {
            segment_term(4 * knot, 2, knot, true, col)
        },
        Constraint::FlatStart => if col == 0 {
            Entry::Const { value: 1 }
        } else {
            Entry::Zero
        },
        Constraint::FlatEnd => if col == 4 * n - 4 {
            Entry::Const { value: 1 }
        } else {
            Entry::Zero
        },
    }
}

/// Entry `(r, col)` of the augmented system for `n` segments.
pub open spec fn system_entry(n: nat, r: int, col: int) -> Entry {
    constraint_entry(n, constraint_at(n, r), col)
}

/// `m` is the augmented system for `n` segments: `4n` rows of `4n + 1`
/// entries each, as `system_entry` gives them.
pub open spec fn is_spline_system(n: nat, m: Seq<Vec<Entry>>) -> bool {
    &&& m.len() == 4 * n
    &&& forall|r: int| 0 <= r < 4 * n ==> (#[trigger] m[r])@.len() == 4 * n + 1
    &&& forall|r: int, col: int|
        0 <= r < 4 * n && 0 <= col <= 4 * n ==> #[trigger] m[r]@[col] == system_entry(n, r, col)
}

fn derivative_entry(order: u32, power: u32, point: usize, negate: bool) -> (e: Entry)
    requires
        order <= 2,
        power <= 3,
    ensures
        e == derivative_term(order as nat, power as nat, point, negate),
{
    proof {
        reveal_with_fuel(falling, 3);
        assert(falling(power as nat, 0) == 1);
        assert(falling(power as nat, 1) == power);
        assert(falling(2, 2) == 2);
        assert(falling(3, 2) == 6);
    }
    if power < order {
        return Entry::Zero;
    }
    let k: i64 = if order == 0 {
        1
    } else if order == 1 {
        power as i64
    } else if power == 2 {
        2
    } else {
        6
    };
    let k: i64 = if negate {
        -k
    } else {
        k
    };
    if power == order {
        Entry::Const { value: k }
    } else {
        Entry::Power { coeff: k, point, exponent: power - order }
    }
}

fn segment_entry(first: usize, order: u32, point: usize, negate: bool, col: usize) -> (e: Entry)
    requires
        order <= 2,
        first + 4 <= usize::MAX,
    ensures
        e == segment_term(first as int, order as nat, point, negate, col as int),
{
    if first <= col && col < first + 4 {
        derivative_entry(order, (3 - (col - first)) as u32, point, negate)
    } else {
        Entry::Zero
    }
}

/// Column `col` of the row that holds `c`, in the system for `n` segments.
pub fn constraint_entry_at(n: usize, c: Constraint, col: usize) -> (e: Entry)
    requires
        1 <= n < usize::MAX / 4,
        is_valid_constraint(n as nat, c),
        col <= 4 * n,
    ensures
        e == constraint_entry(n as nat, c, col as int),
{
    match c {
        Constraint::Interpolate { segment, right } => {
            let p: usize = if right {
                segment + 1
            } else {
                segment
            };
            if col == 4 * n {
                Entry::Value { point: p }
            } else {
                segment_entry(4 * segment, 0, p, false, col)
            }
        },
        Constraint::Slope { knot } => if col < 4 * knot {
            segment_entry(4 * (knot - 1), 1, knot, false, col)
        } else {
            segment_entry(4 * knot, 1, knot, true, col)
        },
        Constraint::Curvature { knot } => if col < 4 * knot {
            segment_entry(4 * (knot - 1), 2, knot, false, col)
        } else {
            segment_entry(4 * knot, 2, knot, true, col)
        },
        Constraint::FlatStart => if col == 0 {
            Entry::Const { value: 1 }
        } else {
            Entry::Zero
        },
        Constraint::FlatEnd => if col == 4 * n - 4 {
            Entry::Const { value: 1 }
        } else {
            Entry::Zero
        },
    }
}

/// The row of `4n + 1` entries that holds `c`, in the system for `n` segments.
pub fn constraint_row(n: usize, c: Constraint) -> (row: Vec<Entry>)
    requires
        1 <= n < usize::MAX / 4,
        is_valid_constraint(n as nat, c),
    ensures
        row@.len() == 4 * n + 1,
        forall|col: int| 0 <= col <= 4 * n ==> row@[col] == constraint_entry(n as nat, c, col),
{
    let width: usize = 4 * n + 1;
    let mut row: Vec<Entry> = Vec::new();
    let mut col: usize = 0;
    while col < width
        invariant
            1 <= n < usize::MAX / 4,
            is_valid_constraint(n as nat, c),
            width == 4 * n + 1,
            col <= width,
            row@.len() == col,
            forall|j: int| 0 <= j < col ==> row@[j] == constraint_entry(n as nat, c, j),
        decreases width - col,
    {
        row.push(constraint_entry_at(n, c, col));
        col = col + 1;
    }
    row
}

/// The augmented linear system whose solution holds the coefficients
/// `(a, b, c, d)` of each segment's cubic `a·x³ + b·x² + c·x + d`, for
/// `point_count` samples sorted by `x`: `InsufficientInput` when there are
/// fewer than two.
pub fn generate_linear_system(point_count: usize) -> (r: Result<Vec<Vec<Entry>>, SplineError>)
    requires
        point_count <= usize::MAX / 4,
    ensures
        match r {
            Ok(m) => point_count >= 2 && is_spline_system((point_count - 1) as nat, m@),
            Err(e) => point_count < 2 && e == SplineError::InsufficientInput,
        },
{
    let rows = match schedule(point_count) {
        Ok(rows) => rows,
        Err(e) => return Err(e),
    };
    let n: usize = point_count - 1;
    proof {
        lemma_schedule_is_bijection(n as nat);
    }
    let mut m: Vec<Vec<Entry>> = Vec::new();
    let mut i: usize = 0;
    while i < rows.len()
        invariant
            1 <= n < usize::MAX / 4,
            rows@.len() == 4 * n,
            forall|j: int| 0 <= j < rows@.len() ==> rows@[j] == constraint_at(n as nat, j),
            forall|j: int|
                0 <= j < 4 * n ==> #[trigger] is_valid_constraint(
                    n as nat,
                    constraint_at(n as nat, j),
                ),
            i <= rows@.len(),
            m@.len() == i,
            forall|j: int| 0 <= j < i ==> (#[trigger] m@[j])@.len() == 4 * n + 1,
            forall|j: int, col: int|
                0 <= j < i && 0 <= col <= 4 * n ==> #[trigger] m@[j]@[col] == system_entry(
                    n as nat,
                    j,
                    col,
                ),
        decreases rows@.len() - i,
    {
        assert(is_valid_constraint(n as nat, constraint_at(n as nat, i as int)));
        m.push(constraint_row(n, rows[i]));
        i = i + 1;
    }
    Ok(m)
}

} // verus!
