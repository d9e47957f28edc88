use vstd::prelude::*;

verus! {

/// The monotone map applied to a continuous or discrete bound before the
/// optimizer works on it.
#[derive(Debug, Clone, Copy, PartialEq, Eq, Structural)]
pub enum BoundTransform {
    Linear,
    Log,
    Logistic,
    BiLog,
}

/// Marker for the identity map.
#[derive(Debug, Clone, Copy, PartialEq, Eq, Structural)]
pub struct Linear {}

/// Marker for the natural logarithm (bounds must be positive).
#[derive(Debug, Clone, Copy, PartialEq, Eq, Structural)]
pub struct Log {}

/// Marker for the sign-preserving `sign(x) * ln(|x| + 1)` map.
#[derive(Debug, Clone, Copy, PartialEq, Eq, Structural)]
pub struct BiLog {}

/// Marker for the logit map (bounds must lie strictly inside (0, 1)).
#[derive(Debug, Clone, Copy, PartialEq, Eq, Structural)]
pub struct Logistic {}

/// A constructed transform, one variant per kind.
#[derive(Debug, Clone, Copy, PartialEq, Eq, Structural)]
pub enum BoundTransformType {
    Linear(Linear),
    Log(Log),
    Logistic(Logistic),
    BiLog(BiLog),
}

/// The kind that a constructed transform was built from.
pub open spec fn kind_of(t: BoundTransformType) -> BoundTransform {
    match t {
        BoundTransformType::Linear(_) => BoundTransform::Linear,
        BoundTransformType::Log(_) => BoundTransform::Log,
        BoundTransformType::Logistic(_) => BoundTransform::Logistic,
        BoundTransformType::BiLog(_) => BoundTransform::BiLog,
    }
}

/// The canonical textual name of each kind.
pub open spec fn transform_name(t: BoundTransform) -> Seq<char> {
    match t {
        BoundTransform::Linear => "linear"@,
        BoundTransform::Log => "log"@,
        BoundTransform::Logistic => "logistic"@,
        BoundTransform::BiLog => "bilog"@,
    }
}

/// The kind that a name denotes, if any; "logit" is accepted beside "logistic".
pub open spec fn parsed_transform(s: Seq<char>) -> Option<BoundTransform> {
    if s == "linear"@ {
        Some(BoundTransform::Linear)
    } else if s == "log"@ {
        Some(BoundTransform::Log)
    } else if s == "bilog"@ {
        Some(BoundTransform::BiLog)
    } else if s == "logistic"@ || s == "logit"@ {
        Some(BoundTransform::Logistic)
    } else {
        None
    }
}

/// The name under which a constructed transform is displayed.
pub open spec fn display_name(t: BoundTransformType) -> Seq<char> {
    match t {
        BoundTransformType::Linear(_) => "None"@,
        BoundTransformType::Log(_) => "Log"@,
        BoundTransformType::Logistic(_) => "Logistic"@,
        BoundTransformType::BiLog(_) => "BiLog"@,
    }
}

fn same_text(a: &str, b: &str) -> (r: bool)
    ensures
        r == (a@ == b@),
{
    let x = a.to_owned();
    let y = b.to_owned();
    x.eq(&y)
}

impl BoundTransform {
    /// Builds the transform of this kind.
    pub fn new_transform(self) -> (r: BoundTransformType)
        ensures
            kind_of(r) == self,
    {
        match self {
            BoundTransform::Linear => BoundTransformType::Linear(Linear {  }),
            BoundTransform::Log => BoundTransformType::Log(Log {  }),
            BoundTransform::Logistic => BoundTransformType::Logistic(Logistic {  }),
            BoundTransform::BiLog => BoundTransformType::BiLog(BiLog {  }),
        }
    }

    /// Reads a kind from its name.
    pub fn parse_transform(data: &str) -> (r: Option<BoundTransform>)
        ensures
            r == parsed_transform(data@),
    {
        if same_text(data, "linear") {
            Some(BoundTransform::Linear)
        } else if same_text(data, "log") {
            Some(BoundTransform::Log)
        } else if same_text(data, "bilog") {
            Some(BoundTransform::BiLog)
        } else if same_text(data, "logistic") || same_text(data, "logit") {
            Some(BoundTransform::Logistic)
        } else {
            None
        }
    }

    /// The canonical name of this kind.
    pub fn to_string(&self) -> (r: &'static str)
        ensures
            r@ == transform_name(*self),
    {
        match self {
            BoundTransform::Linear => "linear",
            BoundTransform::Log => "log",
            BoundTransform::Logistic => "logistic",
            BoundTransform::BiLog => "bilog",
        }
    }
}

impl BoundTransformType {
    /// The kind this transform was built from.
    pub fn kind(&self) -> (r: BoundTransform)
        ensures
            r == kind_of(*self),
    {
        match self {
            BoundTransformType::Linear(_) => BoundTransform::Linear,
            BoundTransformType::Log(_) => BoundTransform::Log,
            BoundTransformType::Logistic(_) => BoundTransform::Logistic,
            BoundTransformType::BiLog(_) => BoundTransform::BiLog,
        }
    }

    /// The display name of this transform.
    pub fn name(&self) -> (r: &'static str)
        ensures
            r@ == display_name(*self),
    {
        match self {
            BoundTransformType::Linear(_) => "None",
            BoundTransformType::Log(_) => "Log",
            BoundTransformType::Logistic(_) => "Logistic",
            BoundTransformType::BiLog(_) => "BiLog",
        }
    }
}

/// Naming a kind and reading the name back gives the same kind.
pub proof fn lemma_name_round_trip(t: BoundTransform)
    ensures
        parsed_transform(transform_name(t)) == Some(t),
{
    reveal_strlit("linear");
    reveal_strlit("log");
    reveal_strlit("logistic");
    reveal_strlit("bilog");
    reveal_strlit("logit");
    assert("linear"@.len() == 6 && "log"@.len() == 3 && "bilog"@.len() == 5);
    assert("logistic"@.len() == 8 && "logit"@.len() == 5);
    assert("bilog"@[0] != "logit"@[0]);
}

} // verus!
