use vstd::prelude::*;

verus! {

/// Failures of the spline pipeline.
#[derive(Clone, Copy, Debug, PartialEq, Eq, Structural)]
pub enum SplineError {
    /// Fewer than two sample points: there is no segment to fit.
    InsufficientInput,
    /// Elimination found no nonzero pivot: the system has no unique solution.
    Singular,
}

/// One equation of the spline system.
///
/// Segment `s` spans samples `s` and `s + 1`; knot `k` is the sample shared
/// by segments `k - 1` and `k`.
#[derive(Clone, Copy, Debug, PartialEq, Eq, Structural)]
pub enum Constraint {
    /// Segment `segment` passes through its left sample, or its right one
    /// when `right`.
    Interpolate { segment: usize, right: bool },
    /// Equal first derivatives of the two segments meeting at `knot`.
    Slope { knot: usize },
    /// Equal second derivatives of the two segments meeting at `knot`.
    Curvature { knot: usize },
    /// The cubic coefficient of the first segment is zero.
    FlatStart,
    /// The cubic coefficient of the last segment is zero.
    FlatEnd,
}

/// Whether `c` is an equation of the system for `n` segments.
pub open spec fn is_valid_constraint(n: nat, c: Constraint) -> bool {
    match c {
        Constraint::Interpolate { segment, .. } => segment < n,
        Constraint::Slope { knot } => 1 <= knot < n,
        Constraint::Curvature { knot } => 1 <= knot < n,
        Constraint::FlatStart => n >= 1,
        Constraint::FlatEnd => n >= 1,
    }
}

/// The row that holds `c`: interpolation rows first, two per segment, then
/// the slope rows, then the curvature rows, one per interior knot in knot
/// order, and the two boundary rows last.
pub open spec fn row_of(n: nat, c: Constraint) -> int {
    match c {
        Constraint::Interpolate { segment, right } => 2 * segment + if right { 1int } else { 0int },
        Constraint::Slope { knot } => 2 * n + knot - 1,
        Constraint::Curvature { knot } => 3 * n + knot - 2,
        Constraint::FlatStart => 4 * n - 2,
        Constraint::FlatEnd => 4 * n - 1,
    }
}

/// The equation in row `r` of the system for `n` segments.
pub open spec fn constraint_at(n: nat, r: int) -> Constraint {
    if r < 2 * n {
        Constraint::Interpolate { segment: (r / 2) as usize, right: r % 2 == 1 }
    } else if r < 3 * n - 1 {
        Constraint::Slope { knot: (r - 2 * n + 1) as usize }
    } else if r < 4 * n - 2 {
        Constraint::Curvature { knot: (r - 3 * n + 2) as usize }
    } else if r == 4 * n - 2 {
        Constraint::FlatStart
    } else {
        Constraint::FlatEnd
    }
}

/// Every row holds exactly one equation and every equation exactly one row.
pub proof fn lemma_schedule_is_bijection(n: nat)
    requires
        n >= 1,
        4 * n <= usize::MAX,
    ensures
        forall|r: int|
            0 <= r < 4 * n ==> #[trigger] is_valid_constraint(n, constraint_at(n, r)) && row_of(
                n,
                constraint_at(n, r),
            ) == r,
        forall|c: Constraint|
            #[trigger] is_valid_constraint(n, c) ==> 0 <= row_of(n, c) < 4 * n && constraint_at(
                n,
                row_of(n, c),
            ) == c,
{
}

/// The number of segments for `point_count` samples, or
/// `InsufficientInput` when there are fewer than two.
pub fn segment_count(point_count: usize) -> (r: Result<usize, SplineError>)
    ensures
        match r {
            Ok(n) => point_count >= 2 && n == point_count - 1,
            Err(e) => point_count < 2 && e == SplineError::InsufficientInput,
        },
{
    if point_count < 2 {
        Err(SplineError::InsufficientInput)
    } else {
        Ok(point_count - 1)
    }
}

/// The equations of the system for `point_count` samples, in row order.
pub fn schedule(point_count: usize) -> (r: Result<Vec<Constraint>, SplineError>)
    requires
        point_count <= usize::MAX / 4,
    ensures
        match r {
            Ok(v) => point_count >= 2 && v@.len() == 4 * (point_count - 1) && forall|i: int|
                0 <= i < v@.len() ==> v@[i] == constraint_at((point_count - 1) as nat, i),
            Err(e) => point_count < 2 && e == SplineError::InsufficientInput,
        },
{
    let n = match segment_count(point_count) {
        Ok(n) => n,
        Err(e) => return Err(e),
    };
    let ghost nn = n as nat;
    let mut rows: Vec<Constraint> = Vec::new();
    let mut s: usize = 0;
    while s < n
        invariant
            s <= n,
            n < usize::MAX / 4,
            nn == n,
            rows@.len() == 2 * s,
            forall|i: int| 0 <= i < rows@.len() ==> rows@[i] == constraint_at(nn, i),
        decreases n - s,
    {
        rows.push(Constraint::Interpolate { segment: s, right: false });
        rows.push(Constraint::Interpolate { segment: s, right: true });
        assert(constraint_at(nn, 2 * s as int) == Constraint::Interpolate { segment: s, right: false });
        assert(constraint_at(nn, 2 * s + 1) == Constraint::Interpolate { segment: s, right: true });
        s = s + 1;
    }
    let mut k: usize = 1;
    while k < n
        invariant
            1 <= k <= n,
            n < usize::MAX / 4,
            nn == n,
            rows@.len() == 2 * n + k - 1,
            forall|i: int| 0 <= i < rows@.len() ==> rows@[i] == constraint_at(nn, i),
        decreases n - k,
    {
        rows.push(Constraint::Slope { knot: k });
        assert(constraint_at(nn, 2 * n + k - 1) == Constraint::Slope { knot: k });
        k = k + 1;
    }
    let mut k: usize = 1;
    while k < n
        invariant
            1 <= k <= n,
            n < usize::MAX / 4,
            nn == n,
            rows@.len() == 3 * n + k - 2,
            forall|i: int| 0 <= i < rows@.len() ==> rows@[i] == constraint_at(nn, i),
        decreases n - k,
    {
        rows.push(Constraint::Curvature { knot: k });
        assert(constraint_at(nn, 3 * n + k - 2) == Constraint::Curvature { knot: k });
        k = k + 1;
    }
    rows.push(Constraint::FlatStart);
    rows.push(Constraint::FlatEnd);
    Ok(rows)
}

} // verus!
