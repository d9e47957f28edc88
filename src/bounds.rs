use vstd::prelude::*;
use crate::bound_types::{
    Boolean, BoundRepr, BoundType, Categorical, Continuous, Discrete, bound_label, repr_label,
};
use crate::bounds_transforms::BoundTransform;

verus! {

/// State of a `Bounds` that is still being declared.
#[derive(Debug, Clone, Copy)]
pub struct Config {}

/// State of a `Bounds` that is complete and ready for use.
#[derive(Debug, Clone, Copy)]
pub struct Ready {}

/// The search space: an ordered list of bounds with distinct labels. Bounds are
/// added while in the `Config` state; only `build` yields the `Ready` value
/// that the optimizer takes.
#[derive(Debug, Clone)]
pub struct Bounds<T, C> {
    bounds: Vec<BoundType<T>>,
    state: C,
}

/// Whether two entries of a sequence coincide.
pub open spec fn has_repeats<A>(s: Seq<A>) -> bool {
    exists|i: int, j: int| 0 <= i < j < s.len() && s[i] == s[j]
}

/// Whether any of the given names occurs twice.
pub fn has_duplicates(names: &Vec<&str>) -> (r: bool)
    ensures
        r == has_repeats(names@.map_values(|c: &str| c@)),
{
    let ghost v = names@.map_values(|c: &str| c@);
    let mut j: usize = 0;
    while j < names.len()
        invariant
            j <= names.len(),
            v == names@.map_values(|c: &str| c@),
            forall|a: int, b: int| 0 <= a < b < j ==> v[a] != v[b],
        decreases names.len() - j,
    {
        let mut i: usize = 0;
        while i < j
            invariant
                i <= j < names.len(),
                v == names@.map_values(|c: &str| c@),
                forall|a: int| 0 <= a < i ==> v[a] != v[j as int],
            decreases j - i,
        {
            if crate::bound_types::owned_text(names[i]).eq(&crate::bound_types::owned_text(names[j])) {
                assert(v[i as int] == v[j as int]);
                return true;
            }
            i = i + 1;
        }
        j = j + 1;
    }
    false
}

impl<T: Copy, C> Bounds<T, C> {
    /// The labels of the bounds, in order.
    pub closed spec fn labels(&self) -> Seq<Seq<char>> {
        self.bounds@.map_values(|b: BoundType<T>| bound_label(b))
    }

    /// The bounds, in order.
    pub closed spec fn spec_bounds(&self) -> Seq<BoundType<T>> {
        self.bounds@
    }

    /// Labels are distinct.
    pub open spec fn wf(&self) -> bool {
        !has_repeats(self.labels())
    }

    /// The number of bounds.
    pub fn dim(&self) -> (r: usize)
        ensures
            r == self.spec_bounds().len(),
    {
        self.bounds.len()
    }

    /// The bound at position `i`.
    pub fn bound_at(&self, i: usize) -> (r: &BoundType<T>)
        requires
            i < self.spec_bounds().len(),
        ensures
            *r == self.spec_bounds()[i as int],
    {
        &self.bounds[i]
    }

    /// The position of the bound labelled `label`, if there is one.
    pub fn position_of(&self, label: &str) -> (r: Option<usize>)
        ensures
            match r {
                Some(i) => i < self.spec_bounds().len() && self.labels()[i as int] == label@,
                None => !self.labels().contains(label@),
            },
    {
        let l = crate::bound_types::owned_text(label);
        let mut i: usize = 0;
        while i < self.bounds.len()
            invariant
                i <= self.bounds.len(),
                l@ == label@,
                forall|k: int| 0 <= k < i ==> self.labels()[k] != label@,
            decreases self.bounds.len() - i,
        {
            if self.bounds[i].label().eq(&l) {
                return Some(i);
            }
            i = i + 1;
        }
        proof {
            if self.labels().contains(label@) {
                let k = choose|k: int| 0 <= k < self.labels().len() && self.labels()[k] == label@;
                assert(self.labels()[k] != label@);
            }
        }
        None
    }

    /// Whether some bound is labelled `label`.
    pub fn has_label(&self, label: &str) -> (r: bool)
        ensures
            r == self.labels().contains(label@),
    {
        self.position_of(label).is_some()
    }
}

impl<T: Copy> Bounds<T, Config> {
    /// An empty declaration.
    pub fn new() -> (r: Self)
        ensures
            r.spec_bounds().len() == 0,
            r.wf(),
    {
        let r = Bounds { bounds: Vec::new(), state: Config {  } };
        assert(r.labels() =~= Seq::empty());
        r
    }

    fn push_bound(&mut self, bound: BoundType<T>)
        requires
            old(self).wf(),
            !old(self).labels().contains(bound_label(bound)),
        ensures
            final(self).wf(),
            final(self).spec_bounds() == old(self).spec_bounds().push(bound),
            final(self).labels() == old(self).labels().push(bound_label(bound)),
    {
        self.bounds.push(bound);
        proof {
            assert(self.labels() =~= old(self).labels().push(bound_label(bound)));
            if has_repeats(self.labels()) {
                let (i, j) = choose|i: int, j: int|
                    0 <= i < j < self.labels().len() && self.labels()[i] == self.labels()[j];
                if j == old(self).labels().len() {
                    assert(old(self).labels()[i] == bound_label(bound));
                    assert(old(self).labels().contains(bound_label(bound)));
                } else {
                    assert(old(self).labels()[i] == old(self).labels()[j]);
                }
            }
        }
    }

    /// Adds a categorical bound over at least one distinct category name.
    pub fn add_categorical(self, label: &str, categories: Vec<&str>) -> (r: Self)
        requires
            self.wf(),
            !self.labels().contains(label@),
            categories.len() > 0,
            !has_repeats(categories@.map_values(|c: &str| c@)),
        ensures
            r.wf(),
            r.spec_bounds().len() == self.spec_bounds().len() + 1,
            r.spec_bounds().take(self.spec_bounds().len() as int) == self.spec_bounds(),
            r.labels() == self.labels().push(label@),
            r.spec_bounds().last() matches BoundType::Categorical(c) && c.spec_categories()
                == categories@.map_values(|c: &str| c@),
    {
        let mut s = self;
        s.push_bound(BoundType::Categorical(Categorical::new(label, categories)));
        assert(s.spec_bounds().take(self.spec_bounds().len() as int) =~= self.spec_bounds());
        s
    }

    /// Adds a boolean bound.
    pub fn add_boolean(self, label: &str) -> (r: Self)
        requires
            self.wf(),
            !self.labels().contains(label@),
        ensures
            r.wf(),
            r.spec_bounds().len() == self.spec_bounds().len() + 1,
            r.spec_bounds().take(self.spec_bounds().len() as int) == self.spec_bounds(),
            r.labels() == self.labels().push(label@),
            r.spec_bounds().last() is Boolean,
    {
        let mut s = self;
        s.push_bound(BoundType::Boolean(Boolean::new(label)));
        assert(s.spec_bounds().take(self.spec_bounds().len() as int) =~= self.spec_bounds());
        s
    }

    /// Adds an untransformed integer bound; `upper` must exceed `lower`.
    pub fn add_discrete(self, label: &str, upper: i64, lower: i64) -> (r: Self)
        requires
            self.wf(),
            !self.labels().contains(label@),
            upper > lower,
        ensures
            r.wf(),
            r.spec_bounds().len() == self.spec_bounds().len() + 1,
            r.spec_bounds().take(self.spec_bounds().len() as int) == self.spec_bounds(),
            r.labels() == self.labels().push(label@),
            r.spec_bounds().last() matches BoundType::Discrete(c) && c.parts() == (
                label@,
                upper,
                lower,
                BoundTransform::Linear,
            ),
    {
        let mut s = self;
        s.push_bound(BoundType::Discrete(Discrete::new(label, upper, lower)));
        assert(s.spec_bounds().take(self.spec_bounds().len() as int) =~= self.spec_bounds());
        s
    }

    /// Adds a transformed integer bound; `upper` must exceed `lower`, and the
    /// logistic transform does not apply.
    pub fn add_discrete_with_transform(
        self,
        label: &str,
        upper: i64,
        lower: i64,
        transform: BoundTransform,
    ) -> (r: Self)
        requires
            self.wf(),
            !self.labels().contains(label@),
            upper > lower,
            transform != BoundTransform::Logistic,
        ensures
            r.wf(),
            r.spec_bounds().len() == self.spec_bounds().len() + 1,
            r.spec_bounds().take(self.spec_bounds().len() as int) == self.spec_bounds(),
            r.labels() == self.labels().push(label@),
            r.spec_bounds().last() matches BoundType::Discrete(c) && c.parts() == (
                label@,
                upper,
                lower,
                transform,
            ),
    {
        let mut s = self;
        s.push_bound(
            BoundType::Discrete(Discrete::new_with_transform(label, upper, lower, transform)),
        );
        assert(s.spec_bounds().take(self.spec_bounds().len() as int) =~= self.spec_bounds());
        s
    }

    /// Adds an untransformed real bound. The library does not compare values
    /// of `T`: that `upper` exceeds `lower` is for the caller to check.
    pub fn add_continuous(self, label: &str, upper: T, lower: T) -> (r: Self)
        requires
            self.wf(),
            !self.labels().contains(label@),
        ensures
            r.wf(),
            r.spec_bounds().len() == self.spec_bounds().len() + 1,
            r.spec_bounds().take(self.spec_bounds().len() as int) == self.spec_bounds(),
            r.labels() == self.labels().push(label@),
            r.spec_bounds().last() matches BoundType::Continuous(c) && c.parts() == (
                label@,
                upper,
                lower,
                BoundTransform::Linear,
            ),
    {
        let mut s = self;
        s.push_bound(BoundType::Continuous(Continuous::new(label, upper, lower)));
        assert(s.spec_bounds().take(self.spec_bounds().len() as int) =~= self.spec_bounds());
        s
    }

    /// Adds a real bound whose endpoints have already been mapped through
    /// `transform`; their order is for the caller to check.
    pub fn add_continuous_with_transform(
        self,
        label: &str,
        upper: T,
        lower: T,
        transform: BoundTransform,
    ) -> (r: Self)
        requires
            self.wf(),
            !self.labels().contains(label@),
        ensures
            r.wf(),
            r.spec_bounds().len() == self.spec_bounds().len() + 1,
            r.spec_bounds().take(self.spec_bounds().len() as int) == self.spec_bounds(),
            r.labels() == self.labels().push(label@),
            r.spec_bounds().last() matches BoundType::Continuous(c) && c.parts() == (
                label@,
                upper,
                lower,
                transform,
            ),
    {
        let mut s = self;
        s.push_bound(
            BoundType::Continuous(Continuous::new_with_transform(label, upper, lower, transform)),
        );
        assert(s.spec_bounds().take(self.spec_bounds().len() as int) =~= self.spec_bounds());
        s
    }

    /// Completes the declaration.
    pub fn build(self) -> (r: Bounds<T, Ready>)
        ensures
            r.spec_bounds() == self.spec_bounds(),
            r.labels() == self.labels(),
    {
        Bounds { bounds: self.bounds, state: Ready {  } }
    }
}

impl<T: Copy> Bounds<T, Ready> {
    /// For each bound, in order, the position of the first value under its
    /// label; `None` when some bound has no value.
    pub fn match_reprs(&self, reprs: &BoundReprs<T>) -> (r: Option<Vec<usize>>)
        ensures
            match r {
                Some(v) => v.len() == self.spec_bounds().len() && forall|i: int|
                    0 <= i < v.len() ==> {
                        &&& #[trigger] v@[i] < reprs.spec_reprs().len()
                        &&& repr_label(reprs.spec_reprs()[v@[i] as int]) == self.labels()[i]
                        &&& forall|k: int|
                            0 <= k < v@[i] ==> repr_label(reprs.spec_reprs()[k]) != self.labels()[i]
                    },
                None => exists|i: int|
                    0 <= i < self.spec_bounds().len() && forall|k: int|
                        0 <= k < reprs.spec_reprs().len() ==> repr_label(reprs.spec_reprs()[k])
                            != #[trigger] self.labels()[i],
            },
    {
        let mut v: Vec<usize> = Vec::new();
        let mut i: usize = 0;
        while i < self.bounds.len()
            invariant
                i <= self.bounds.len(),
                v.len() == i,
                forall|j: int|
                    0 <= j < i ==> {
                        &&& #[trigger] v@[j] < reprs.spec_reprs().len()
                        &&& repr_label(reprs.spec_reprs()[v@[j] as int]) == self.labels()[j]
                        &&& forall|k: int|
                            0 <= k < v@[j] ==> repr_label(reprs.spec_reprs()[k]) != self.labels()[j]
                    },
            decreases self.bounds.len() - i,
        {
            let l = self.bounds[i].label();
            assert(self.labels()[i as int] == l@);
            match reprs.find(l.as_str()) {
                Some(k) => {
                    v.push(k);
                },
                None => {
                    return None;
                },
            }
            i = i + 1;
        }
        Some(v)
    }
}

/// Values of the bounds in the caller's terms, each under its bound's label.
#[derive(Debug, Clone)]
pub struct BoundReprs<T> {
    reprs: Vec<BoundRepr<T>>,
}

impl<T> BoundReprs<T> {
    /// The values, in order.
    pub closed spec fn spec_reprs(&self) -> Seq<BoundRepr<T>> {
        self.reprs@
    }

    /// The given values.
    pub fn new(reprs: Vec<BoundRepr<T>>) -> (r: Self)
        ensures
            r.spec_reprs() == reprs@,
    {
        BoundReprs { reprs }
    }

    /// The number of values.
    pub fn len(&self) -> (r: usize)
        ensures
            r == self.spec_reprs().len(),
    {
        self.reprs.len()
    }

    /// The value at position `i`.
    pub fn at(&self, i: usize) -> (r: &BoundRepr<T>)
        requires
            i < self.spec_reprs().len(),
        ensures
            *r == self.spec_reprs()[i as int],
    {
        &self.reprs[i]
    }

    /// The position of the first value labelled `label`, if any.
    pub fn find(&self, label: &str) -> (r: Option<usize>)
        ensures
            match r {
                Some(i) => i < self.spec_reprs().len() && repr_label(self.spec_reprs()[i as int])
                    == label@ && forall|k: int| 0 <= k < i ==> repr_label(self.spec_reprs()[k]) != label@,
                None => forall|k: int|
                    0 <= k < self.spec_reprs().len() ==> repr_label(self.spec_reprs()[k]) != label@,
            },
    {
        let l = crate::bound_types::owned_text(label);
        let mut i: usize = 0;
        while i < self.reprs.len()
            invariant
                i <= self.reprs.len(),
                l@ == label@,
                forall|k: int| 0 <= k < i ==> repr_label(self.spec_reprs()[k]) != label@,
            decreases self.reprs.len() - i,
        {
            if self.reprs[i].label().eq(&l) {
                return Some(i);
            }
            i = i + 1;
        }
        None
    }
}

} // verus!
