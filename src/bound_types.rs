use vstd::prelude::*;
use crate::bounds_transforms::{BoundTransform, BoundTransformType, kind_of};

verus! {

/// A copy of a string slice as an owned string.
pub(crate) fn owned_text(s: &str) -> (r: String)
    ensures
        r@ == s@,
{
    s.to_owned()
}

/// A real interval, with endpoints of the value type `T` held in transformed
/// space.
#[derive(Debug, Clone)]
pub struct Continuous<T> {
    label: String,
    upper: T,
    lower: T,
    transform: BoundTransformType,
}

impl<T: Copy> Continuous<T> {
    /// The label, endpoints and transform, as given.
    pub closed spec fn parts(&self) -> (Seq<char>, T, T, BoundTransform) {
        (self.label@, self.upper, self.lower, kind_of(self.transform))
    }

    /// An untransformed interval.
    pub fn new(label: &str, upper: T, lower: T) -> (r: Self)
        ensures
            r.parts() == (label@, upper, lower, BoundTransform::Linear),
    {
        Continuous {
            label: owned_text(label),
            upper,
            lower,
            transform: BoundTransform::Linear.new_transform(),
        }
    }

    /// An interval whose endpoints have already been mapped through `transform`.
    pub fn new_with_transform(label: &str, upper: T, lower: T, transform: BoundTransform) -> (r:
        Self)
        ensures
            r.parts() == (label@, upper, lower, transform),
    {
        Continuous { label: owned_text(label), upper, lower, transform: transform.new_transform() }
    }

    /// The label.
    pub fn label(&self) -> (r: &String)
        ensures
            r@ == self.parts().0,
    {
        &self.label
    }

    /// The upper endpoint.
    pub fn upper(&self) -> (r: T)
        ensures
            r == self.parts().1,
    {
        self.upper
    }

    /// The lower endpoint.
    pub fn lower(&self) -> (r: T)
        ensures
            r == self.parts().2,
    {
        self.lower
    }

    /// The transform.
    pub fn transform(&self) -> (r: BoundTransformType)
        ensures
            kind_of(r) == self.parts().3,
    {
        self.transform
    }
}

/// An integer interval, optionally transformed.
#[derive(Debug, Clone)]
pub struct Discrete {
    label: String,
    upper: i64,
    lower: i64,
    transform: BoundTransformType,
}

impl Discrete {
    /// The label, endpoints and transform, as given.
    pub closed spec fn parts(&self) -> (Seq<char>, i64, i64, BoundTransform) {
        (self.label@, self.upper, self.lower, kind_of(self.transform))
    }

    /// An untransformed integer interval.
    pub fn new(label: &str, upper: i64, lower: i64) -> (r: Self)
        ensures
            r.parts() == (label@, upper, lower, BoundTransform::Linear),
    {
        Discrete {
            label: owned_text(label),
            upper,
            lower,
            transform: BoundTransform::Linear.new_transform(),
        }
    }

    /// An integer interval under a transform; the logistic transform does not
    /// apply to integers.
    pub fn new_with_transform(label: &str, upper: i64, lower: i64, transform: BoundTransform) -> (r:
        Self)
        requires
            transform != BoundTransform::Logistic,
        ensures
            r.parts() == (label@, upper, lower, transform),
    {
        Discrete { label: owned_text(label), upper, lower, transform: transform.new_transform() }
    }

    /// The label.
    pub fn label(&self) -> (r: &String)
        ensures
            r@ == self.parts().0,
    {
        &self.label
    }

    /// The upper endpoint.
    pub fn upper(&self) -> (r: i64)
        ensures
            r == self.parts().1,
    {
        self.upper
    }

    /// The lower endpoint.
    pub fn lower(&self) -> (r: i64)
        ensures
            r == self.parts().2,
    {
        self.lower
    }

    /// The transform.
    pub fn transform(&self) -> (r: BoundTransformType)
        ensures
            kind_of(r) == self.parts().3,
    {
        self.transform
    }
}

/// A choice among named categories, encoded on the real interval
/// `[0, number of categories]`: a value `x` stands for category `floor(x)`,
/// and the upper endpoint for the last category.
#[derive(Debug, Clone)]
pub struct Categorical {
    label: String,
    categories: Vec<String>,
}

/// The index that an encoded value with the given floor and ceiling stands
/// for among `n` categories, if it lies in the encoding interval.
pub open spec fn category_slot(n: int, floor: i64, ceil: i64) -> Option<int> {
    if 0 <= floor <= n - 1 {
        Some(floor as int)
    } else if ceil == n && n > 0 {
        Some(n - 1)
    } else {
        None
    }
}

/// The index of the first entry of `s` equal to `key`, if any.
pub open spec fn first_index_of(s: Seq<Seq<char>>, key: Seq<char>) -> Option<int> {
    if exists|i: int| 0 <= i < s.len() && s[i] == key {
        Some(choose|i: int| 0 <= i < s.len() && s[i] == key && forall|k: int| 0 <= k < i ==> s[k] != key)
    } else {
        None
    }
}

impl Categorical {
    /// The label.
    pub closed spec fn spec_label(&self) -> Seq<char> {
        self.label@
    }

    /// The category names, in order.
    pub closed spec fn spec_categories(&self) -> Seq<Seq<char>> {
        self.categories@.map_values(|c: String| c@)
    }

    /// A categorical bound over the given names; there must be at least one.
    pub fn new(label: &str, categories: Vec<&str>) -> (r: Self)
        requires
            categories.len() > 0,
        ensures
            r.spec_label() == label@,
            r.spec_categories() == categories@.map_values(|c: &str| c@),
    {
        let mut cats: Vec<String> = Vec::new();
        let mut i: usize = 0;
        while i < categories.len()
            invariant
                i <= categories.len(),
                cats@.map_values(|c: String| c@) == categories@.take(i as int).map_values(
                    |c: &str| c@,
                ),
            decreases categories.len() - i,
        {
            let c = owned_text(categories[i]);
            let ghost before = cats@;
            cats.push(c);
            proof {
                assert(categories@.take(i + 1) =~= categories@.take(i as int).push(categories@[i as int]));
                assert(cats@ == before.push(c));
                assert(cats@.map_values(|c: String| c@) =~= before.map_values(|c: String| c@).push(c@));
                assert(categories@.take(i as int).push(categories@[i as int]).map_values(|c: &str| c@)
                    =~= categories@.take(i as int).map_values(|c: &str| c@).push(categories@[i as int]@));
            }
            i = i + 1;
        }
        assert(categories@.take(categories.len() as int) =~= categories@);
        Categorical { label: owned_text(label), categories: cats }
    }

    /// The label.
    pub fn label(&self) -> (r: &String)
        ensures
            r@ == self.spec_label(),
    {
        &self.label
    }

    /// The number of categories.
    pub fn n_categories(&self) -> (r: usize)
        ensures
            r == self.spec_categories().len(),
    {
        self.categories.len()
    }

    /// Whether an encoded value with the given floor and ceiling lies in the
    /// encoding interval.
    pub fn inside(&self, floor: i64, ceil: i64) -> (r: bool)
        ensures
            r == category_slot(self.spec_categories().len() as int, floor, ceil).is_some(),
    {
        let n = self.categories.len() as i128;
        (0 <= floor as i128 && floor as i128 <= n - 1) || (ceil as i128 == n && n > 0)
    }

    /// The category that an encoded value with the given floor and ceiling
    /// stands for, or `None` outside the encoding interval.
    pub fn repr(&self, floor: i64, ceil: i64) -> (r: Option<String>)
        ensures
            match category_slot(self.spec_categories().len() as int, floor, ceil) {
                Some(i) => r matches Some(c) && c@ == self.spec_categories()[i],
                None => r is None,
            },
    {
        let n = self.categories.len();
        let i: usize;
        if 0 <= floor as i128 && floor as i128 <= n as i128 - 1 {
            i = floor as usize;
        } else if ceil as i128 == n as i128 && n > 0 {
            i = n - 1;
        } else {
            return None;
        }
        Some(self.categories[i].clone())
    }

    /// The index of the first category named `key`, or `None` if there is none.
    pub fn category_index(&self, key: &str) -> (r: Option<usize>)
        ensures
            match r {
                Some(i) => i < self.spec_categories().len() && self.spec_categories()[i as int]
                    == key@ && forall|k: int| 0 <= k < i ==> self.spec_categories()[k] != key@,
                None => forall|k: int|
                    0 <= k < self.spec_categories().len() ==> self.spec_categories()[k] != key@,
            },
    {
        let k = owned_text(key);
        let mut i: usize = 0;
        while i < self.categories.len()
            invariant
                i <= self.categories.len(),
                k@ == key@,
                forall|m: int| 0 <= m < i ==> self.spec_categories()[m] != key@,
            decreases self.categories.len() - i,
        {
            if self.categories[i].eq(&k) {
                return Some(i);
            }
            i = i + 1;
        }
        None
    }
}

/// A yes/no choice, encoded on the real interval `[0, 2]`: values up to 1
/// stand for true, the others for false.
#[derive(Debug, Clone)]
pub struct Boolean {
    label: String,
}

impl Boolean {
    /// The label.
    pub closed spec fn spec_label(&self) -> Seq<char> {
        self.label@
    }

    /// A boolean bound.
    pub fn new(label: &str) -> (r: Self)
        ensures
            r.spec_label() == label@,
    {
        Boolean { label: owned_text(label) }
    }

    /// The label.
    pub fn label(&self) -> (r: &String)
        ensures
            r@ == self.spec_label(),
    {
        &self.label
    }

    /// Whether an encoded value with the given floor and ceiling lies in the
    /// encoding interval.
    pub fn inside(&self, floor: i64, ceil: i64) -> (r: bool)
        ensures
            r == category_slot(2, floor, ceil).is_some(),
    {
        (0 <= floor && floor <= 1) || ceil == 2
    }

    /// The start of the unit interval that encodes `b`: 0 for true, 1 for false.
    pub fn encoding_start(b: bool) -> (r: u32)
        ensures
            r == (if b {
                0u32
            } else {
                1u32
            }),
    {
        if b {
            0
        } else {
            1
        }
    }
}

/// One bound of the search space.
#[derive(Debug, Clone)]
pub enum BoundType<T> {
    Continuous(Continuous<T>),
    Discrete(Discrete),
    Categorical(Categorical),
    Boolean(Boolean),
}

/// The label of a bound.
pub open spec fn bound_label<T: Copy>(b: BoundType<T>) -> Seq<char> {
    match b {
        BoundType::Continuous(c) => c.parts().0,
        BoundType::Discrete(c) => c.parts().0,
        BoundType::Categorical(c) => c.spec_label(),
        BoundType::Boolean(c) => c.spec_label(),
    }
}

impl<T: Copy> BoundType<T> {
    /// The label of this bound.
    pub fn label(&self) -> (r: &String)
        ensures
            r@ == bound_label(*self),
    {
        match self {
            BoundType::Continuous(c) => c.label(),
            BoundType::Discrete(c) => c.label(),
            BoundType::Categorical(c) => c.label(),
            BoundType::Boolean(c) => c.label(),
        }
    }
}

/// A value of one bound in the caller's terms, under the bound's label.
#[derive(Debug, Clone)]
pub enum BoundRepr<T> {
    Continuous(String, T),
    Discrete(String, i64),
    Categorical(String, String),
    Boolean(String, bool),
}

/// The label of a represented value.
pub open spec fn repr_label<T>(r: BoundRepr<T>) -> Seq<char> {
    match r {
        BoundRepr::Continuous(l, _) => l@,
        BoundRepr::Discrete(l, _) => l@,
        BoundRepr::Categorical(l, _) => l@,
        BoundRepr::Boolean(l, _) => l@,
    }
}

impl<T> BoundRepr<T> {
    /// The label of this value.
    pub fn label(&self) -> (r: &String)
        ensures
            r@ == repr_label(*self),
    {
        match self {
            BoundRepr::Continuous(l, _) => l,
            BoundRepr::Discrete(l, _) => l,
            BoundRepr::Categorical(l, _) => l,
            BoundRepr::Boolean(l, _) => l,
        }
    }
}

} // verus!
