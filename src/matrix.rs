//! Matrices held as rows, whatever their element type.

use vstd::prelude::*;

verus! {

/// The rows of a matrix as sequences.
pub open spec fn rows_view<T>(m: Seq<Vec<T>>) -> Seq<Seq<T>> {
    m.map_values(|r: Vec<T>| r@)
}

/// Every row has `cols` entries.
pub open spec fn is_rect<T>(m: Seq<Seq<T>>, cols: int) -> bool {
    forall|i: int| 0 <= i < m.len() ==> (#[trigger] m[i]).len() == cols
}

/// Every row is as long as the first.
pub open spec fn rectangular<T>(m: Seq<Seq<T>>) -> bool {
    m.len() == 0 || is_rect(m, m[0].len() as int)
}

/// Rows become columns; a matrix without rows or columns has none.
pub open spec fn transposed<T>(m: Seq<Seq<T>>) -> Seq<Seq<T>> {
    if m.len() == 0 || m[0].len() == 0 {
        Seq::empty()
    } else {
        Seq::new(m[0].len(), |j: int| Seq::new(m.len(), |i: int| m[i][j]))
    }
}

/// The transpose of a rectangular matrix.
pub fn transpose<T: Copy>(m: &Vec<Vec<T>>) -> (r: Vec<Vec<T>>)
    requires
        rectangular(rows_view(m@)),
    ensures
        rows_view(r@) == transposed(rows_view(m@)),
{
    let ghost mv = rows_view(m@);
    if m.len() == 0 || m[0].len() == 0 {
        proof {
            assert(rows_view(Seq::<Vec<T>>::empty()) =~= Seq::<Seq<T>>::empty());
        }
        return Vec::new();
    }
    let rows = m.len();
    let cols = m[0].len();
    assert(mv[0].len() == cols);
    let mut out: Vec<Vec<T>> = Vec::new();
    let mut j: usize = 0;
    while j < cols
        invariant
            mv == rows_view(m@),
            rows == m@.len(),
            rows > 0,
            cols == mv[0].len(),
            is_rect(mv, cols as int),
            j <= cols,
            out@.len() == j,
            forall|jj: int|
                0 <= jj < j ==> (#[trigger] out@[jj])@ == Seq::new(rows as nat, |i: int| mv[i][jj]),
        decreases cols - j,
    {
        let mut column: Vec<T> = Vec::new();
        let mut i: usize = 0;
        while i < rows
            invariant
                mv == rows_view(m@),
                rows == m@.len(),
                cols == mv[0].len(),
                is_rect(mv, cols as int),
                j < cols,
                i <= rows,
                column@.len() == i,
                forall|ii: int| 0 <= ii < i ==> column@[ii] == mv[ii][j as int],
            decreases rows - i,
        {
            assert(mv[i as int] == m@[i as int]@);
            assert(mv[i as int].len() == cols);
            column.push(m[i][j]);
            i = i + 1;
        }
        assert(column@ =~= Seq::new(rows as nat, |i: int| mv[i][j as int]));
        out.push(column);
        j = j + 1;
    }
    assert(rows_view(out@) =~= transposed(mv));
    out
}

/// Transposing a rectangular matrix with at least one row and one column
/// twice gives back the matrix.
pub proof fn lemma_transpose_twice<T>(m: Seq<Seq<T>>)
    requires
        m.len() > 0,
        m[0].len() > 0,
        is_rect(m, m[0].len() as int),
    ensures
        transposed(transposed(m)) == m,
{
    let t = transposed(m);
    assert(t[0].len() == m.len());
    assert forall|i: int| 0 <= i < m.len() implies #[trigger] transposed(t)[i] == m[i] by {
        assert(transposed(t)[i] =~= m[i]);
    }
    assert(transposed(t) =~= m);
}

} // verus!
