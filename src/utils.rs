use vstd::prelude::*;

verus! {

/// Whether a sub-selection keeps the listed indices or all the others.
#[derive(Debug, Clone, Copy, PartialEq, Eq, Structural)]
pub enum Select {
    Include,
    Exclude,
}

/// The axis of a column-major matrix along which a sub-selection is taken.
#[derive(Debug, Clone, Copy, PartialEq, Eq, Structural)]
pub enum Axis {
    Col,
    Row,
}

/// Whether position `i` survives a sub-selection by `idx`. Repeated indices
/// and their order in `idx` do not matter.
pub open spec fn keeps(select: Select, idx: Seq<usize>, i: int) -> bool {
    match select {
        Select::Include => idx.contains(i as usize),
        Select::Exclude => !idx.contains(i as usize),
    }
}

/// The elements of `s` that survive the sub-selection, in the order they had.
pub open spec fn pick<E>(s: Seq<E>, select: Select, idx: Seq<usize>) -> Seq<E>
    decreases s.len(),
{
    if s.len() == 0 {
        Seq::empty()
    } else {
        let rest = pick(s.drop_last(), select, idx);
        if keeps(select, idx, s.len() - 1) {
            rest.push(s.last())
        } else {
            rest
        }
    }
}

/// Every index lies below `n`.
pub open spec fn indices_below(idx: Seq<usize>, n: int) -> bool {
    forall|k: int| 0 <= k < idx.len() ==> idx[k] < n
}

/// A column-major matrix whose columns all have `nrows` entries.
pub open spec fn is_rect<E>(m: Seq<Vec<E>>, nrows: int) -> bool {
    forall|j: int| 0 <= j < m.len() ==> #[trigger] m[j]@.len() == nrows
}

/// The columns of a matrix, each as a sequence.
pub open spec fn cols_view<E>(m: Seq<Vec<E>>) -> Seq<Seq<E>> {
    m.map_values(|c: Vec<E>| c@)
}

/// Picking from two sequences of one length keeps the same positions, so the
/// results have one length too.
pub proof fn lemma_pick_same_len<A, B>(s: Seq<A>, t: Seq<B>, select: Select, idx: Seq<usize>)
    requires
        s.len() == t.len(),
    ensures
        pick(s, select, idx).len() == pick(t, select, idx).len(),
    decreases s.len(),
{
    if s.len() > 0 {
        lemma_pick_same_len(s.drop_last(), t.drop_last(), select, idx);
    }
}

/// Picking commutes with mapping the elements.
pub proof fn lemma_pick_map<A, B>(s: Seq<A>, f: spec_fn(A) -> B, select: Select, idx: Seq<usize>)
    ensures
        pick(s.map_values(f), select, idx) == pick(s, select, idx).map_values(f),
    decreases s.len(),
{
    if s.len() > 0 {
        lemma_pick_map(s.drop_last(), f, select, idx);
        assert(s.map_values(f).drop_last() =~= s.drop_last().map_values(f));
        let r = pick(s.drop_last(), select, idx);
        assert(r.push(s.last()).map_values(f) =~= r.map_values(f).push(f(s.last())));
    } else {
        assert(pick(s, select, idx).map_values(f) =~= Seq::empty());
    }
}

/// Whether `idx` lists `i`.
fn lists_index(idx: &Vec<usize>, i: usize) -> (r: bool)
    ensures
        r == idx@.contains(i),
{
    let mut k: usize = 0;
    while k < idx.len()
        invariant
            k <= idx.len(),
            forall|m: int| 0 <= m < k ==> idx@[m] != i,
        decreases idx.len() - k,
    {
        if idx[k] == i {
            return true;
        }
        k = k + 1;
    }
    false
}

fn survives(select: Select, idx: &Vec<usize>, i: usize) -> (r: bool)
    ensures
        r == keeps(select, idx@, i as int),
{
    match select {
        Select::Include => lists_index(idx, i),
        Select::Exclude => !lists_index(idx, i),
    }
}

/// A copy of a vector.
pub(crate) fn copy_vec<E: Copy>(v: &Vec<E>) -> (r: Vec<E>)
    ensures
        r@ == v@,
{
    let mut r: Vec<E> = Vec::new();
    let mut i: usize = 0;
    while i < v.len()
        invariant
            i <= v.len(),
            r@ == v@.take(i as int),
        decreases v.len() - i,
    {
        r.push(v[i]);
        i = i + 1;
        assert(r@ =~= v@.take(i as int));
    }
    assert(v@.take(v.len() as int) =~= v@);
    r
}

/// The entries of a column kept or left out by index; the order is kept.
pub fn get_subcol_with_idx<E: Copy>(col: &Vec<E>, select: Select, idx: &Vec<usize>) -> (r: Vec<E>)
    requires
        indices_below(idx@, col.len() as int),
    ensures
        r@ == pick(col@, select, idx@),
{
    let mut r: Vec<E> = Vec::new();
    let mut i: usize = 0;
    while i < col.len()
        invariant
            i <= col.len(),
            r@ == pick(col@.take(i as int), select, idx@),
        decreases col.len() - i,
    {
        assert(col@.take(i + 1).drop_last() =~= col@.take(i as int));
        if survives(select, idx, i) {
            r.push(col[i]);
        }
        i = i + 1;
    }
    assert(col@.take(col.len() as int) =~= col@);
    r
}

/// The entries of a row kept or left out by index; the order is kept.
pub fn get_subrow_with_idx<E: Copy>(row: &Vec<E>, select: Select, idx: &Vec<usize>) -> (r: Vec<E>)
    requires
        indices_below(idx@, row.len() as int),
    ensures
        r@ == pick(row@, select, idx@),
{
    get_subcol_with_idx(row, select, idx)
}

/// The columns (for `Axis::Col`) or rows (for `Axis::Row`) of a column-major
/// matrix kept or left out by index; the order is kept.
pub fn get_submatrix_with_idx<E: Copy>(
    m: &Vec<Vec<E>>,
    nrows: usize,
    select: Select,
    axis: Axis,
    idx: &Vec<usize>,
) -> (r: Vec<Vec<E>>)
    requires
        is_rect(m@, nrows as int),
        axis == Axis::Col ==> indices_below(idx@, m.len() as int),
        axis == Axis::Row ==> indices_below(idx@, nrows as int),
    ensures
        axis == Axis::Col ==> cols_view(r@) == pick(cols_view(m@), select, idx@),
        axis == Axis::Row ==> r.len() == m.len() && forall|j: int|
            0 <= j < m.len() ==> #[trigger] r@[j]@ == pick(m@[j]@, select, idx@),
{
    let mut r: Vec<Vec<E>> = Vec::new();
    let mut j: usize = 0;
    match axis {
        Axis::Col => {
            while j < m.len()
                invariant
                    j <= m.len(),
                    cols_view(r@) == pick(cols_view(m@.take(j as int)), select, idx@),
                decreases m.len() - j,
            {
                assert(cols_view(m@.take(j + 1)).drop_last() =~= cols_view(m@.take(j as int)));
                if survives(select, idx, j) {
                    let c = copy_vec(&m[j]);
                    r.push(c);
                    assert(cols_view(r@) =~= pick(cols_view(m@.take(j as int)), select, idx@).push(
                        m@[j as int]@,
                    ));
                }
                j = j + 1;
            }
            assert(m@.take(m.len() as int) =~= m@);
        },
        Axis::Row => {
            while j < m.len()
                invariant
                    j <= m.len(),
                    is_rect(m@, nrows as int),
                    indices_below(idx@, nrows as int),
                    r.len() == j,
                    forall|k: int| 0 <= k < j ==> #[trigger] r@[k]@ == pick(m@[k]@, select, idx@),
                decreases m.len() - j,
            {
                assert(m@[j as int]@.len() == nrows);
                let c = get_subcol_with_idx(&m[j], select, idx);
                r.push(c);
                j = j + 1;
            }
        },
    }
    r
}

/// Which triangle of a square matrix is kept when it is made symmetric.
#[derive(Debug, Clone, Copy, PartialEq, Eq, Structural)]
pub enum Side {
    Lower,
    Upper,
}

/// Entry `(r, c)` of a column-major matrix after the `side` triangle (the
/// diagonal included) has been mirrored onto the other.
pub open spec fn mirrored_entry<E>(m: Seq<Seq<E>>, side: Side, r: int, c: int) -> E {
    let keep = match side {
        Side::Lower => r >= c,
        Side::Upper => r <= c,
    };
    if keep {
        m[c][r]
    } else {
        m[r][c]
    }
}

/// Makes a square column-major matrix symmetric by copying the `side`
/// triangle onto the other one.
pub fn fill_with_side<E: Copy>(m: &mut Vec<Vec<E>>, side: Side)
    requires
        is_rect(old(m)@, old(m).len() as int),
    ensures
        final(m).len() == old(m).len(),
        is_rect(final(m)@, old(m).len() as int),
        forall|r: int, c: int|
            0 <= r < old(m).len() && 0 <= c < old(m).len() ==> #[trigger] final(m)@[c]@[r]
                == mirrored_entry(cols_view(old(m)@), side, r, c),
{
    let n = m.len();
    let mut out: Vec<Vec<E>> = Vec::new();
    let mut c: usize = 0;
    while c < n
        invariant
            n == m.len(),
            is_rect(m@, n as int),
            c <= n,
            out.len() == c,
            is_rect(out@, n as int),
            forall|r: int, k: int|
                0 <= r < n && 0 <= k < c ==> #[trigger] out@[k]@[r] == mirrored_entry(
                    cols_view(m@),
                    side,
                    r,
                    k,
                ),
        decreases n - c,
    {
        let mut col: Vec<E> = Vec::new();
        let mut r: usize = 0;
        while r < n
            invariant
                n == m.len(),
                is_rect(m@, n as int),
                c < n,
                r <= n,
                col.len() == r,
                forall|q: int| 0 <= q < r ==> #[trigger] col@[q] == mirrored_entry(cols_view(m@), side, q, c as int),
            decreases n - r,
        {
            assert(m@[c as int]@.len() == n && m@[r as int]@.len() == n);
            let keep = match side {
                Side::Lower => r >= c,
                Side::Upper => r <= c,
            };
            let v = if keep {
                m[c][r]
            } else {
                m[r][c]
            };
            col.push(v);
            r = r + 1;
        }
        out.push(col);
        c = c + 1;
    }
    *m = out;
}

/// Overwrites column `col` of a column-major matrix with `s`.
pub fn fill_col_with_slice<E: Copy>(m: &mut Vec<Vec<E>>, nrows: usize, col: usize, s: &Vec<E>)
    requires
        is_rect(old(m)@, nrows as int),
        col < old(m).len(),
        s.len() == nrows,
    ensures
        is_rect(final(m)@, nrows as int),
        cols_view(final(m)@) == cols_view(old(m)@).update(col as int, s@),
{
    let c = copy_vec(s);
    m.set(col, c);
    assert(cols_view(m@) =~= cols_view(old(m)@).update(col as int, s@));
}

/// Overwrites row `row` of a column-major matrix with `s`.
pub fn fill_row_with_slice<E: Copy>(m: &mut Vec<Vec<E>>, nrows: usize, row: usize, s: &Vec<E>)
    requires
        is_rect(old(m)@, nrows as int),
        row < nrows,
        s.len() == old(m).len(),
    ensures
        is_rect(final(m)@, nrows as int),
        final(m).len() == old(m).len(),
        forall|j: int| 0 <= j < old(m).len() ==> #[trigger] final(m)@[j]@ == old(m)@[j]@.update(row as int, s@[j]),
{
    let mut j: usize = 0;
    while j < m.len()
        invariant
            j <= m.len(),
            m.len() == old(m).len(),
            s.len() == m.len(),
            row < nrows,
            is_rect(m@, nrows as int),
            forall|k: int| 0 <= k < j ==> #[trigger] m@[k]@ == old(m)@[k]@.update(row as int, s@[k]),
            forall|k: int| j <= k < m.len() ==> #[trigger] m@[k] == old(m)@[k],
        decreases m.len() - j,
    {
        let mut c = copy_vec(&m[j]);
        c.set(row, s[j]);
        m.set(j, c);
        j = j + 1;
    }
}

} // verus!
