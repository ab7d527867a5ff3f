use vstd::prelude::*;

use crate::matrix::{Matrix, MatrixView};
use crate::problem::ConstraintKind;

verus! {

/// Where each part of a two-phase Simplex problem with `num_variables` variables and
/// `num_constraints` constraints sits in its tableau.
///
/// Row 0 is the Phase-I objective and row 1 the Phase-II objective; constraint `i`
/// is row `i + 2`. Columns 0 and 1 mark the two objectives, variable `j` is column
/// `j + 2`, the slack or artificial column of constraint `i` is `num_variables + 2 + i`,
/// and the last column holds the right-hand sides.
#[derive(Debug, Clone, Copy)]
pub struct TableauLayout {
    num_variables: usize,
    num_constraints: usize,
}

impl TableauLayout {
    pub closed spec fn spec_num_variables(&self) -> nat {
        self.num_variables as nat
    }

    pub closed spec fn spec_num_constraints(&self) -> nat {
        self.num_constraints as nat
    }

    pub open spec fn spec_width(&self) -> nat {
        self.spec_num_variables() + self.spec_num_constraints() + 3
    }

    pub open spec fn spec_height(&self) -> nat {
        self.spec_num_constraints() + 2
    }

    /// Whether the tableau's cell count fits in a `usize`.
    pub open spec fn fits(num_variables: nat, num_constraints: nat) -> bool {
        (num_variables + num_constraints + 3) * (num_constraints + 2) <= usize::MAX
    }

    pub fn new(num_variables: usize, num_constraints: usize) -> (l: TableauLayout)
        requires
            TableauLayout::fits(num_variables as nat, num_constraints as nat),
        ensures
            l.spec_num_variables() == num_variables,
            l.spec_num_constraints() == num_constraints,
    {
        TableauLayout { num_variables, num_constraints }
    }

    pub fn width(&self) -> (w: usize)
        requires
            TableauLayout::fits(self.spec_num_variables(), self.spec_num_constraints()),
        ensures
            w == self.spec_width(),
    {
        proof {
            self.lemma_fits();
        }
        self.num_variables + self.num_constraints + 3
    }

    pub fn height(&self) -> (h: usize)
        requires
            TableauLayout::fits(self.spec_num_variables(), self.spec_num_constraints()),
        ensures
            h == self.spec_height(),
    {
        proof {
            self.lemma_fits();
        }
        self.num_constraints + 2
    }

    /// The number of cells of the tableau.
    pub fn cell_count(&self) -> (n: usize)
        requires
            TableauLayout::fits(self.spec_num_variables(), self.spec_num_constraints()),
        ensures
            n == self.spec_width() * self.spec_height(),
    {
        proof {
            self.lemma_fits();
        }
        self.width() * self.height()
    }

    /// The column of variable `j`.
    pub fn variable_col(&self, j: usize) -> (c: usize)
        requires
            TableauLayout::fits(self.spec_num_variables(), self.spec_num_constraints()),
            j < self.spec_num_variables(),
        ensures
            c == j + 2,
            c < self.spec_width() - 1,
    {
        proof {
            self.lemma_fits();
        }
        j + 2
    }

    /// The slack or artificial column of constraint `i`.
    pub fn slack_col(&self, i: usize) -> (c: usize)
        requires
            TableauLayout::fits(self.spec_num_variables(), self.spec_num_constraints()),
            i < self.spec_num_constraints(),
        ensures
            c == self.spec_num_variables() + 2 + i,
            c < self.spec_width() - 1,
    {
        proof {
            self.lemma_fits();
        }
        self.num_variables + 2 + i
    }

    /// The row of constraint `i`.
    pub fn constraint_row(&self, i: usize) -> (r: usize)
        requires
            TableauLayout::fits(self.spec_num_variables(), self.spec_num_constraints()),
            i < self.spec_num_constraints(),
        ensures
            r == i + 2,
            r < self.spec_height(),
    {
        proof {
            self.lemma_fits();
        }
        i + 2
    }

    /// The column of right-hand sides.
    pub fn rhs_col(&self) -> (c: usize)
        requires
            TableauLayout::fits(self.spec_num_variables(), self.spec_num_constraints()),
        ensures
            c == self.spec_width() - 1,
    {
        proof {
            self.lemma_fits();
        }
        self.num_variables + self.num_constraints + 2
    }

    proof fn lemma_fits(&self)
        requires
            TableauLayout::fits(self.spec_num_variables(), self.spec_num_constraints()),
        ensures
            self.spec_width() <= self.spec_width() * self.spec_height() <= usize::MAX,
            self.spec_height() <= self.spec_width() * self.spec_height(),
    {
        let w = self.spec_width() as int;
        let h = self.spec_height() as int;
        assert(w <= w * h && h <= w * h) by (nonlinear_arith)
            requires
                w >= 1,
                h >= 1,
        ;
    }
}

/// The entry of a constraint's own column, and whether that column is artificial.
pub open spec fn spec_slack_entry(kind: ConstraintKind) -> (int, bool) {
    match kind {
        ConstraintKind::LessThanOrEqualTo => (1, false),
        ConstraintKind::GreaterThanOrEqualTo => (-1, false),
        ConstraintKind::EqualTo => (1, true),
    }
}

/// A `<=` constraint gets a slack column with +1, a `>=` one a surplus column with -1,
/// and an equality an artificial column with +1.
pub fn slack_entry(kind: ConstraintKind) -> (r: (i8, bool))
    ensures
        (r.0 as int, r.1) == spec_slack_entry(kind),
{
    match kind {
        ConstraintKind::LessThanOrEqualTo => (1, false),
        ConstraintKind::GreaterThanOrEqualTo => (-1, false),
        ConstraintKind::EqualTo => (1, true),
    }
}

/// The number of equality constraints, each of which gets an artificial column.
pub open spec fn num_artificial(kinds: Seq<ConstraintKind>) -> nat
    decreases kinds.len(),
{
    if kinds.len() == 0 {
        0
    } else {
        num_artificial(kinds.drop_last()) + if kinds.last() == ConstraintKind::EqualTo {
            1nat
        } else {
            0nat
        }
    }
}

pub fn count_artificial(kinds: &[ConstraintKind]) -> (n: usize)
    ensures
        n == num_artificial(kinds@),
{
    let mut n: usize = 0;
    let mut i: usize = 0;
    while i < kinds.len()
        invariant
            0 <= i <= kinds@.len(),
            n == num_artificial(kinds@.take(i as int)),
            n <= i,
        decreases kinds@.len() - i,
    {
        assert(kinds@.take(i as int + 1).drop_last() == kinds@.take(i as int));
        if kinds[i] == ConstraintKind::EqualTo {
            n = n + 1;
        }
        i = i + 1;
    }
    assert(kinds@.take(i as int) == kinds@);
    n
}

/// Finds the row in which a tableau column is basic: given which of the column's
/// cells are non-zero, the one such row if there is exactly one, else `None`.
pub fn basic_row(nonzero: &[bool]) -> (r: Option<usize>)
    ensures
        r matches Some(i) ==> i < nonzero@.len() && nonzero@[i as int] && forall|j: int|
            0 <= j < nonzero@.len() && j != i ==> !#[trigger] nonzero@[j],
        r is None ==> forall|i: int|
            0 <= i < nonzero@.len() && #[trigger] nonzero@[i] ==> exists|j: int|
                0 <= j < nonzero@.len() && j != i && nonzero@[j],
{
    let mut found: Option<usize> = None;
    let mut i: usize = 0;
    while i < nonzero.len()
        invariant
            0 <= i <= nonzero@.len(),
            found matches Some(f) ==> f < i && nonzero@[f as int] && forall|j: int|
                0 <= j < i && j != f ==> !#[trigger] nonzero@[j],
            found is None ==> forall|j: int| 0 <= j < i ==> !#[trigger] nonzero@[j],
        decreases nonzero@.len() - i,
    {
        if nonzero[i] {
            if let Some(f) = found {
                assert(nonzero@[f as int] && f != i);
                return None;
            }
            found = Some(i);
        }
        i = i + 1;
    }
    found
}

/// The cells of a tableau after the move to Phase II: rows below the Phase-I row,
/// in the `num_artificial` columns just left of the right-hand sides, are `zero`.
pub open spec fn phase_two_cell<T>(before: MatrixView<T>, num_artificial: nat, zero: T, r: int, c: int) -> T {
    if 1 <= r && before.end_x - 1 - num_artificial <= c < before.end_x - 1 {
        zero
    } else {
        before.cell(r, c)
    }
}

/// Moves a tableau from Phase I to Phase II: narrows the window past the Phase-I
/// row and column, then clears the artificial columns, taken as the last
/// `num_artificial` columns before the right-hand sides, in every row left.
pub fn enter_phase_two<T: Copy>(matrix: &mut Matrix<T>, num_artificial: usize, zero: T)
    requires
        old(matrix).wf(),
        old(matrix)@.start_x == 0,
        old(matrix)@.start_y == 0,
        num_artificial + 2 <= old(matrix)@.end_x,
        2 <= old(matrix)@.end_y,
    ensures
        final(matrix).wf(),
        final(matrix)@.same_frame(MatrixView { start_x: 1, start_y: 1, ..old(matrix)@ }),
        forall|r: int, c: int|
            0 <= r < old(matrix)@.height && 0 <= c < old(matrix)@.width
                ==> #[trigger] final(matrix)@.cell(r, c)
                == phase_two_cell(old(matrix)@, num_artificial as nat, zero, r, c),
{
    let ghost before = matrix@;
    matrix.sub(1, 1);
    let last_col = matrix.last_col();
    let rows = matrix.rows();
    let cols = matrix.cols_range(last_col - num_artificial, last_col);
    let mut i: usize = 0;
    while i < rows.len()
        invariant
            matrix.wf(),
            matrix@.same_frame(MatrixView { start_x: 1, start_y: 1, ..before }),
            before.end_y == before.height,
            rows@.len() == before.end_y - 1,
            forall|k: int| 0 <= k < rows@.len() ==> #[trigger] rows@[k]@ == 1 + k,
            cols@.len() == num_artificial,
            forall|k: int| 0 <= k < cols@.len() ==> #[trigger] cols@[k]@ == before.end_x - 1 - num_artificial + k,
            num_artificial + 2 <= before.end_x,
            0 <= i <= rows@.len(),
            forall|r: int, c: int|
                0 <= r < before.height && 0 <= c < before.width ==> #[trigger] matrix@.cell(r, c)
                    == if r < 1 + i { phase_two_cell(before, num_artificial as nat, zero, r, c) } else {
                    before.cell(r, c)
                },
        decreases rows@.len() - i,
    {
        let row = rows[i];
        let mut j: usize = 0;
        while j < cols.len()
            invariant
                matrix.wf(),
                matrix@.same_frame(MatrixView { start_x: 1, start_y: 1, ..before }),
                before.end_y == before.height,
                rows@.len() == before.end_y - 1,
                0 <= i < rows@.len(),
                row@ == 1 + i,
                cols@.len() == num_artificial,
                forall|k: int| 0 <= k < cols@.len() ==> #[trigger] cols@[k]@ == before.end_x - 1 - num_artificial + k,
                num_artificial + 2 <= before.end_x,
                0 <= j <= cols@.len(),
                forall|r: int, c: int|
                    0 <= r < before.height && 0 <= c < before.width ==> #[trigger] matrix@.cell(r, c)
                        == if r < 1 + i || (r == 1 + i && c < before.end_x - 1 - num_artificial + j) {
                        phase_two_cell(before, num_artificial as nat, zero, r, c)
                    } else {
                        before.cell(r, c)
                    },
            decreases cols@.len() - j,
        {
            matrix.set_value(row, cols[j], zero);
            j = j + 1;
        }
        i = i + 1;
    }
}

/// `mask` holds at `i` and nowhere else.
pub open spec fn unique_at(mask: Seq<bool>, i: int) -> bool {
    &&& 0 <= i < mask.len()
    &&& mask[i]
    &&& forall|k: int| 0 <= k < mask.len() && k != i ==> !#[trigger] mask[k]
}

/// The value that a tableau gives a variable, from which of the window's rows hold a
/// non-zero entry in the variable's column: the right-hand side of the one such row,
/// if there is exactly one, else `zero`.
pub open spec fn basis_value<T>(m: MatrixView<T>, mask: Seq<bool>, zero: T, value: T) -> bool {
    ||| (exists|i: int| unique_at(mask, i) && value == m.cell(m.start_y + i, m.end_x - 1))
    ||| (!(exists|i: int| unique_at(mask, i)) && value == zero)
}

/// `mask` records, row by row of the window, what `nonzero` said of the cells of
/// the column of variable `j`, the `j`-th column after the window's first.
pub open spec fn column_mask<T, F: Fn(T) -> bool>(m: MatrixView<T>, j: int, nonzero: F, mask: Seq<bool>) -> bool {
    &&& mask.len() == m.end_y - m.start_y
    &&& forall|i: int|
        0 <= i < mask.len() ==> nonzero.ensures((m.cell(m.start_y + i, m.start_x + 1 + j),), #[trigger] mask[i])
}

/// `value` is what `basis_value` gives for some record of what `nonzero` said of
/// the column of variable `j`.
pub open spec fn read_from_basis<T, F: Fn(T) -> bool>(m: MatrixView<T>, j: int, nonzero: F, zero: T, value: T) -> bool {
    exists|mask: Seq<bool>| #[trigger] column_mask(m, j, nonzero, mask) && basis_value(m, mask, zero, value)
}

/// Reads the result off a finished tableau: the objective value in the first row's
/// right-hand side, and the value of each of the `num_variables` columns after the
/// first one of the window, taken from the row in which that column is basic.
pub fn read_solution<T: Copy, F: Fn(T) -> bool>(matrix: &Matrix<T>, num_variables: usize, nonzero: F, zero: T) -> (r: (T, Vec<T>))
    requires
        matrix.wf(),
        matrix@.start_x + num_variables < matrix@.end_x,
        forall|v: T| #[trigger] nonzero.requires((v,)),
    ensures
        r.0 == matrix@.cell(matrix@.start_y as int, matrix@.end_x - 1),
        r.1@.len() == num_variables,
        forall|j: int|
            0 <= j < num_variables ==> read_from_basis(matrix@, j, nonzero, zero, #[trigger] r.1@[j]),
{
    let ghost m = matrix@;
    let last_col = matrix.last_col();
    let objective = matrix.value(matrix.first_row(), last_col);
    let rows = matrix.rows();
    let first_col = matrix.first_col();
    let start = first_col + 1;
    let end = start + num_variables;
    let cols = matrix.cols_range(start, end);
    let ghost mut masks: Seq<Seq<bool>> = Seq::empty();
    let mut values: Vec<T> = Vec::new();
    let mut j: usize = 0;
    while j < cols.len()
        invariant
            matrix.wf(),
            m == matrix@,
            last_col@ == m.end_x - 1,
            rows@.len() == m.end_y - m.start_y,
            forall|k: int| 0 <= k < rows@.len() ==> #[trigger] rows@[k]@ == m.start_y + k,
            cols@.len() == num_variables,
            forall|k: int| 0 <= k < cols@.len() ==> #[trigger] cols@[k]@ == m.start_x + 1 + k,
            m.start_x + num_variables < m.end_x,
            forall|v: T| #[trigger] nonzero.requires((v,)),
            0 <= j <= cols@.len(),
            values@.len() == j,
            masks.len() == j,
            forall|k: int|
                0 <= k < j ==> column_mask(m, k, nonzero, #[trigger] masks[k])
                    && basis_value(m, masks[k], zero, values@[k]),
        decreases cols@.len() - j,
    {
        let col = cols[j];
        let mut mask: Vec<bool> = Vec::new();
        let mut i: usize = 0;
        while i < rows.len()
            invariant
                matrix.wf(),
                m == matrix@,
                rows@.len() == m.end_y - m.start_y,
                forall|k: int| 0 <= k < rows@.len() ==> #[trigger] rows@[k]@ == m.start_y + k,
                col@ == m.start_x + 1 + j,
                m.start_x + 1 + j < m.end_x,
                forall|v: T| #[trigger] nonzero.requires((v,)),
                0 <= i <= rows@.len(),
                mask@.len() == i,
                forall|k: int|
                    0 <= k < i ==> nonzero.ensures((m.cell(m.start_y + k, col@ as int),), #[trigger] mask@[k]),
            decreases rows@.len() - i,
        {
            let b = nonzero(matrix.value(rows[i], col));
            mask.push(b);
            i = i + 1;
        }
        let basic = basic_row(&mask);
        let value = match basic {
            Some(i) => matrix.value(rows[i], last_col),
            None => zero,
        };
        proof {
            match basic {
                Some(i) => {
                    assert(unique_at(mask@, i as int));
                },
                None => {
                    if exists|i: int| unique_at(mask@, i) {
                        let i = choose|i: int| unique_at(mask@, i);
                        assert(mask@[i]);
                    }
                },
            }
            assert(basis_value(m, mask@, zero, value));
            assert(column_mask(m, j as int, nonzero, mask@));
            masks = masks.push(mask@);
        }
        values.push(value);
        j = j + 1;
    }
    assert forall|j: int| 0 <= j < num_variables implies read_from_basis(
        matrix@,
        j,
        nonzero,
        zero,
        #[trigger] values@[j],
    ) by {
        assert(column_mask(matrix@, j, nonzero, masks[j]));
    }
    (objective, values)
}

} // verus!
