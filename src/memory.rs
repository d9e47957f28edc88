use vstd::prelude::*;
use crate::utils::{
    Axis, Select, cols_view, copy_vec, get_subcol_with_idx, get_submatrix_with_idx, indices_below,
    is_rect, pick, lemma_pick_map, lemma_pick_same_len,
};

verus! {

/// Observations in insertion order: a column-major `dim × n` input matrix and
/// the `n` matching outputs. Indices are stable until a discard, which
/// compacts them without reordering.
#[derive(Debug, Clone)]
pub struct BaseMemory<T> {
    d: usize,
    x: Vec<Vec<T>>,
    y: Vec<T>,
}

/// How many of the leading points of `outside` (flags in storage order) a
/// forgetting step with the given limit removes.
pub open spec fn removed_upto(outside: Seq<bool>, n: int, limit: int) -> int
    decreases n,
{
    if n <= 0 {
        0
    } else {
        let r = removed_upto(outside, n - 1, limit);
        if outside[n - 1] && r < limit {
            r + 1
        } else {
            r
        }
    }
}

/// The entries of `s` among its first `n` that a forgetting step keeps: the
/// first `limit` flagged entries go, in storage order, and the rest stay.
pub open spec fn kept_upto<A>(s: Seq<A>, outside: Seq<bool>, n: int, limit: int) -> Seq<A>
    decreases n,
{
    if n <= 0 {
        Seq::empty()
    } else {
        let k = kept_upto(s, outside, n - 1, limit);
        if outside[n - 1] && removed_upto(outside, n - 1, limit) < limit {
            k
        } else {
            k.push(s[n - 1])
        }
    }
}

/// The indices, ascending, that a forgetting step removes among the first `n`.
pub open spec fn forgotten_upto(outside: Seq<bool>, n: int, limit: int) -> Seq<usize>
    decreases n,
{
    if n <= 0 {
        Seq::empty()
    } else {
        let f = forgotten_upto(outside, n - 1, limit);
        if outside[n - 1] && removed_upto(outside, n - 1, limit) < limit {
            f.push((n - 1) as usize)
        } else {
            f
        }
    }
}

/// How many points a forgetting step may remove from `n` stored points: at
/// most `max_discard`, and never so many that fewer than `n_min` remain.
pub open spec fn discard_limit(n: int, max_discard: int, n_min: int) -> int {
    let room = if n > n_min {
        n - n_min
    } else {
        0
    };
    if max_discard < room {
        max_discard
    } else {
        room
    }
}

/// The removal count stays within the limit, and each step keeps or removes
/// exactly one point.
pub proof fn lemma_forget_counts<A>(s: Seq<A>, outside: Seq<bool>, n: int, limit: int)
    requires
        0 <= n <= s.len(),
        n <= outside.len(),
        limit >= 0,
    ensures
        0 <= removed_upto(outside, n, limit) <= limit,
        removed_upto(outside, n, limit) <= n,
        kept_upto(s, outside, n, limit).len() + removed_upto(outside, n, limit) == n,
        forgotten_upto(outside, n, limit).len() == removed_upto(outside, n, limit),
    decreases n,
{
    if n > 0 {
        lemma_forget_counts(s, outside, n - 1, limit);
    }
}

/// Keeping commutes with mapping the entries.
pub proof fn lemma_kept_map<A, B>(
    s: Seq<A>,
    f: spec_fn(A) -> B,
    outside: Seq<bool>,
    n: int,
    limit: int,
)
    requires
        0 <= n <= s.len(),
    ensures
        kept_upto(s.map_values(f), outside, n, limit) == kept_upto(s, outside, n, limit).map_values(
            f,
        ),
    decreases n,
{
    if n > 0 {
        lemma_kept_map(s, f, outside, n - 1, limit);
        let k = kept_upto(s, outside, n - 1, limit);
        assert(k.push(s[n - 1]).map_values(f) =~= k.map_values(f).push(f(s[n - 1])));
    } else {
        assert(kept_upto(s, outside, n, limit).map_values(f) =~= Seq::empty());
    }
}

/// Forgetting never grows the memory, removes at most `max_discard`
/// observations, and leaves at least `n_min` of them wherever there were that
/// many to begin with.
pub proof fn lemma_forget_bound<A>(s: Seq<A>, outside: Seq<bool>, max_discard: int, n_min: int)
    requires
        s.len() == outside.len(),
        max_discard >= 0,
    ensures
        ({
            let k = kept_upto(
                s,
                outside,
                s.len() as int,
                discard_limit(s.len() as int, max_discard, n_min),
            );
            &&& k.len() <= s.len()
            &&& s.len() - k.len() <= max_discard
            &&& s.len() >= n_min ==> k.len() >= n_min
        }),
{
    lemma_forget_counts(s, outside, s.len() as int, discard_limit(s.len() as int, max_discard, n_min));
}

impl<T: Copy> BaseMemory<T> {
    /// Columns all have `dim` entries and there is one output per column.
    pub closed spec fn wf(&self) -> bool {
        &&& self.x.len() == self.y.len()
        &&& is_rect(self.x@, self.d as int)
    }

    /// The dimension of the inputs.
    pub closed spec fn spec_dim(&self) -> nat {
        self.d as nat
    }

    /// The stored inputs, one sequence per observation.
    pub closed spec fn xs(&self) -> Seq<Seq<T>> {
        cols_view(self.x@)
    }

    /// The stored outputs.
    pub closed spec fn ys(&self) -> Seq<T> {
        self.y@
    }

    /// An empty memory for inputs of dimension `d`.
    pub fn new(d: usize) -> (r: Self)
        ensures
            r.wf(),
            r.spec_dim() == d,
            r.xs().len() == 0,
            r.ys().len() == 0,
    {
        BaseMemory { d, x: Vec::new(), y: Vec::new() }
    }

    /// The dimension of the inputs.
    pub fn dim(&self) -> (r: usize)
        ensures
            r == self.spec_dim(),
    {
        self.d
    }

    /// The number of stored observations.
    pub fn n(&self) -> (r: usize)
        requires
            self.wf(),
        ensures
            r == self.ys().len(),
            r == self.xs().len(),
    {
        self.y.len()
    }

    /// The input of observation `i`.
    pub fn x_at(&self, i: usize) -> (r: &Vec<T>)
        requires
            self.wf(),
            i < self.ys().len(),
        ensures
            r@ == self.xs()[i as int],
    {
        &self.x[i]
    }

    /// The output of observation `i`.
    pub fn y_at(&self, i: usize) -> (r: T)
        requires
            self.wf(),
            i < self.ys().len(),
        ensures
            r == self.ys()[i as int],
    {
        self.y[i]
    }

    /// All stored outputs, in storage order.
    pub fn y_all(&self) -> (r: &Vec<T>)
        ensures
            r@ == self.ys(),
    {
        &self.y
    }

    /// Appends one observation.
    pub fn append(&mut self, x: &Vec<T>, y: T)
        requires
            old(self).wf(),
            x.len() == old(self).spec_dim(),
        ensures
            final(self).wf(),
            final(self).spec_dim() == old(self).spec_dim(),
            final(self).xs() == old(self).xs().push(x@),
            final(self).ys() == old(self).ys().push(y),
    {
        let c = copy_vec(x);
        self.x.push(c);
        self.y.push(y);
        assert(cols_view(self.x@) =~= cols_view(old(self).x@).push(x@));
    }

    /// Appends observations column by column, in order.
    pub fn append_mult(&mut self, xs: &Vec<Vec<T>>, ys: &Vec<T>)
        requires
            old(self).wf(),
            xs.len() == ys.len(),
            is_rect(xs@, old(self).spec_dim() as int),
        ensures
            final(self).wf(),
            final(self).spec_dim() == old(self).spec_dim(),
            final(self).xs() == old(self).xs() + cols_view(xs@),
            final(self).ys() == old(self).ys() + ys@,
    {
        let mut j: usize = 0;
        while j < xs.len()
            invariant
                j <= xs.len(),
                xs.len() == ys.len(),
                is_rect(xs@, old(self).spec_dim() as int),
                self.wf(),
                self.spec_dim() == old(self).spec_dim(),
                self.xs() == old(self).xs() + cols_view(xs@.take(j as int)),
                self.ys() == old(self).ys() + ys@.take(j as int),
            decreases xs.len() - j,
        {
            assert(xs@[j as int]@.len() == self.spec_dim());
            self.append(&xs[j], ys[j]);
            j = j + 1;
            assert(cols_view(xs@.take(j as int)) =~= cols_view(xs@.take(j - 1)).push(xs@[j - 1]@));
            assert(ys@.take(j as int) =~= ys@.take(j - 1).push(ys@[j - 1]));
            assert(self.xs() =~= old(self).xs() + cols_view(xs@.take(j as int)));
            assert(self.ys() =~= old(self).ys() + ys@.take(j as int));
        }
        assert(xs@.take(xs.len() as int) =~= xs@);
        assert(ys@.take(ys.len() as int) =~= ys@);
    }

    /// Removes the listed observations; the others keep their order.
    pub fn discard_mult(&mut self, idx: &Vec<usize>)
        requires
            old(self).wf(),
            indices_below(idx@, old(self).ys().len() as int),
        ensures
            final(self).wf(),
            final(self).spec_dim() == old(self).spec_dim(),
            final(self).xs() == pick(old(self).xs(), Select::Exclude, idx@),
            final(self).ys() == pick(old(self).ys(), Select::Exclude, idx@),
    {
        let nx = get_submatrix_with_idx(&self.x, self.d, Select::Exclude, Axis::Col, idx);
        let ny = get_subcol_with_idx(&self.y, Select::Exclude, idx);
        proof {
            lemma_pick_map(self.x@, |c: Vec<T>| c@, Select::Exclude, idx@);
            lemma_pick_rect(self.x@, self.d as int, Select::Exclude, idx@);
            lemma_pick_same_len(self.x@, self.y@, Select::Exclude, idx@);
            let p = pick(self.x@, Select::Exclude, idx@);
            assert(cols_view(nx@).len() == nx@.len());
            assert(p.map_values(|c: Vec<T>| c@).len() == p.len());
            assert forall|j: int| 0 <= j < nx@.len() implies #[trigger] nx@[j]@.len() == self.d by {
                assert(cols_view(nx@)[j] == nx@[j]@);
                assert(p.map_values(|c: Vec<T>| c@)[j] == p[j]@);
            }
        }
        self.x = nx;
        self.y = ny;
    }

    /// Removes observation `i`; the others keep their order.
    pub fn discard(&mut self, i: usize)
        requires
            old(self).wf(),
            i < old(self).ys().len(),
        ensures
            final(self).wf(),
            final(self).spec_dim() == old(self).spec_dim(),
            final(self).xs() == pick(old(self).xs(), Select::Exclude, seq![i]),
            final(self).ys() == pick(old(self).ys(), Select::Exclude, seq![i]),
    {
        let idx = vec![i];
        assert(idx@ =~= seq![i]);
        self.discard_mult(&idx);
    }

    /// Removes every observation.
    pub fn discard_all(&mut self)
        ensures
            final(self).wf(),
            final(self).spec_dim() == old(self).spec_dim(),
            final(self).xs().len() == 0,
            final(self).ys().len() == 0,
    {
        self.x = Vec::new();
        self.y = Vec::new();
    }

    /// Keeps observation `i` alone.
    pub fn retain_only(&mut self, i: usize)
        requires
            old(self).wf(),
            i < old(self).ys().len(),
        ensures
            final(self).wf(),
            final(self).spec_dim() == old(self).spec_dim(),
            final(self).xs() == seq![old(self).xs()[i as int]],
            final(self).ys() == seq![old(self).ys()[i as int]],
    {
        let c = copy_vec(&self.x[i]);
        let v = self.y[i];
        proof {
            assert(self.x@[i as int]@.len() == self.d);
        }
        self.x = vec![c];
        self.y = vec![v];
        assert(cols_view(self.x@) =~= seq![old(self).xs()[i as int]]);
        assert(self.y@ =~= seq![old(self).ys()[i as int]]);
    }

    /// Forgets stale observations: walking the memory in storage order, removes
    /// each observation flagged in `outside` until `discard_limit` of them are
    /// gone. Returns how many were removed.
    pub fn forget(&mut self, outside: &Vec<bool>, max_discard: usize, n_min: usize) -> (r: usize)
        requires
            old(self).wf(),
            outside.len() == old(self).ys().len(),
        ensures
            final(self).wf(),
            final(self).spec_dim() == old(self).spec_dim(),
            r == removed_upto(
                outside@,
                outside.len() as int,
                discard_limit(outside.len() as int, max_discard as int, n_min as int),
            ),
            final(self).xs() == kept_upto(
                old(self).xs(),
                outside@,
                outside.len() as int,
                discard_limit(outside.len() as int, max_discard as int, n_min as int),
            ),
            final(self).ys() == kept_upto(
                old(self).ys(),
                outside@,
                outside.len() as int,
                discard_limit(outside.len() as int, max_discard as int, n_min as int),
            ),
    {
        let n = self.y.len();
        let room: usize = if n > n_min {
            n - n_min
        } else {
            0
        };
        let limit: usize = if max_discard < room {
            max_discard
        } else {
            room
        };
        let ghost lim = limit as int;
        let mut nx: Vec<Vec<T>> = Vec::new();
        let mut ny: Vec<T> = Vec::new();
        let mut removed: usize = 0;
        let mut i: usize = 0;
        while i < n
            invariant
                n == self.y.len(),
                n == outside.len(),
                *self == *old(self),
                self.wf(),
                i <= n,
                lim == limit as int,
                removed as int == removed_upto(outside@, i as int, lim),
                0 <= removed <= limit,
                nx@.map_values(|c: Vec<T>| c@) == kept_upto(self.x@, outside@, i as int, lim).map_values(
                    |c: Vec<T>| c@,
                ),
                ny@ == kept_upto(self.y@, outside@, i as int, lim),
                is_rect(nx@, self.d as int),
            decreases n - i,
        {
            proof {
                lemma_forget_counts(self.y@, outside@, i as int, lim);
            }
            if outside[i] && removed < limit {
                removed = removed + 1;
            } else {
                let c = copy_vec(&self.x[i]);
                let ghost before = nx@;
                nx.push(c);
                ny.push(self.y[i]);
                proof {
                    let k = kept_upto(self.x@, outside@, i as int, lim);
                    assert(nx@ == before.push(c));
                    assert(nx@.map_values(|c: Vec<T>| c@) =~= before.map_values(|c: Vec<T>| c@).push(c@));
                    assert(k.push(self.x@[i as int]).map_values(|c: Vec<T>| c@) =~= k.map_values(
                        |c: Vec<T>| c@,
                    ).push(self.x@[i as int]@));
                    assert(self.x@[i as int]@.len() == self.d);
                }
            }
            i = i + 1;
        }
        proof {
            lemma_kept_map(self.x@, |c: Vec<T>| c@, outside@, n as int, lim);
            lemma_forget_counts(self.y@, outside@, n as int, lim);
            lemma_forget_counts(self.x@, outside@, n as int, lim);
            assert(nx@.len() == ny@.len());
        }
        self.x = nx;
        self.y = ny;
        removed
    }
}

/// A rectangular matrix stays rectangular under picking.
pub proof fn lemma_pick_rect<E>(m: Seq<Vec<E>>, nrows: int, select: Select, idx: Seq<usize>)
    requires
        is_rect(m, nrows),
    ensures
        is_rect(pick(m, select, idx), nrows),
    decreases m.len(),
{
    if m.len() > 0 {
        lemma_pick_rect(m.drop_last(), nrows, select, idx);
        let r = pick(m.drop_last(), select, idx);
        assert forall|j: int| 0 <= j < r.push(m.last()).len() implies #[trigger] r.push(
            m.last(),
        )[j]@.len() == nrows by {
            if j < r.len() {
                assert(r.push(m.last())[j] == r[j]);
            }
        }
    }
}

} // verus!
