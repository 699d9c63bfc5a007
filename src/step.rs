//! The catalog of pipeline stages: a closed, ordered enumeration with a
//! bijection to the indices 1..=7 and to unique names.

use vstd::prelude::*;
use crate::text::{i64_text, int_text, str_eq};

verus! {

/// Number of stages in the catalog; indices run from 1 to this value.
pub const CATALOG_LEN: usize = 7;

/// One stage of the pipeline. Declaration order is run order.
#[derive(Clone, Copy, Debug, PartialEq, Eq, Structural, Hash, PartialOrd, Ord)]
pub enum PipelineStep {
    Ccs,
    Lima,
    Refine,
    Cluster,
    Minimap,
    Polya,
    LoadGenome,
}

/// The whole catalog, in order.
pub open spec fn catalog() -> Seq<PipelineStep> {
    seq![
        PipelineStep::Ccs,
        PipelineStep::Lima,
        PipelineStep::Refine,
        PipelineStep::Cluster,
        PipelineStep::Minimap,
        PipelineStep::Polya,
        PipelineStep::LoadGenome,
    ]
}

/// The stage at a 1-based index, if any.
pub open spec fn step_at(i: int) -> Option<PipelineStep> {
    if 1 <= i <= 7 {
        Some(catalog()[i - 1])
    } else {
        None
    }
}

/// The stage whose unique name is `name`, if any (exact, case-sensitive).
pub open spec fn step_named(name: Seq<char>) -> Option<PipelineStep> {
    if name == "ccs"@ {
        Some(PipelineStep::Ccs)
    } else if name == "lima"@ {
        Some(PipelineStep::Lima)
    } else if name == "refine"@ {
        Some(PipelineStep::Refine)
    } else if name == "cluster"@ {
        Some(PipelineStep::Cluster)
    } else if name == "minimap2"@ {
        Some(PipelineStep::Minimap)
    } else if name == "polya"@ {
        Some(PipelineStep::Polya)
    } else if name == "load-genome"@ {
        Some(PipelineStep::LoadGenome)
    } else {
        None
    }
}

/// Message for a name that names no stage.
pub open spec fn invalid_name_message(name: Seq<char>) -> Seq<char> {
    "ERROR: Invalid pipeline step: "@ + name
}

/// Message for an index outside the catalog.
pub open spec fn invalid_index_message(i: int) -> Seq<char> {
    "ERROR: Invalid pipeline step: "@ + int_text(i)
}

impl PipelineStep {
    /// 1-based position in the catalog.
    pub open spec fn index(self) -> int {
        match self {
            PipelineStep::Ccs => 1,
            PipelineStep::Lima => 2,
            PipelineStep::Refine => 3,
            PipelineStep::Cluster => 4,
            PipelineStep::Minimap => 5,
            PipelineStep::Polya => 6,
            PipelineStep::LoadGenome => 7,
        }
    }

    /// Name of the external package that runs this stage; two stages share
    /// the `isoseq` package.
    pub open spec fn package_name(self) -> Seq<char> {
        match self {
            PipelineStep::Ccs => "ccs"@,
            PipelineStep::Lima => "lima"@,
            PipelineStep::Refine => "isoseq"@,
            PipelineStep::Cluster => "isoseq"@,
            PipelineStep::Minimap => "minimap2"@,
            PipelineStep::Polya => "polya"@,
            PipelineStep::LoadGenome => "load-genome"@,
        }
    }

    /// Name that is distinct for every stage; used to key submissions.
    pub open spec fn unique_name(self) -> Seq<char> {
        match self {
            PipelineStep::Ccs => "ccs"@,
            PipelineStep::Lima => "lima"@,
            PipelineStep::Refine => "refine"@,
            PipelineStep::Cluster => "cluster"@,
            PipelineStep::Minimap => "minimap2"@,
            PipelineStep::Polya => "polya"@,
            PipelineStep::LoadGenome => "load-genome"@,
        }
    }

    /// Looks a stage up by its unique name.
    pub fn from_str(s: &str) -> (r: Result<Self, String>)
        ensures
            match step_named(s@) {
                Some(step) => r == Ok::<Self, String>(step),
                None => r matches Err(e) && e@ == invalid_name_message(s@),
            },
    {
        if str_eq(s, "ccs") {
            Ok(PipelineStep::Ccs)
        } else if str_eq(s, "lima") {
            Ok(PipelineStep::Lima)
        } else if str_eq(s, "refine") {
            Ok(PipelineStep::Refine)
        } else if str_eq(s, "cluster") {
            Ok(PipelineStep::Cluster)
        } else if str_eq(s, "minimap2") {
            Ok(PipelineStep::Minimap)
        } else if str_eq(s, "polya") {
            Ok(PipelineStep::Polya)
        } else if str_eq(s, "load-genome") {
            Ok(PipelineStep::LoadGenome)
        } else {
            let msg = String::from_str("ERROR: Invalid pipeline step: ");
            Err(msg.concat(s))
        }
    }

    /// Looks a stage up by its 1-based index.
    pub fn from_int(i: usize) -> (r: Result<Self, String>)
        ensures
            match step_at(i as int) {
                Some(step) => r == Ok::<Self, String>(step),
                None => r matches Err(e) && e@ == invalid_index_message(i as int),
            },
    {
        if i == 1 {
            Ok(PipelineStep::Ccs)
        } else if i == 2 {
            Ok(PipelineStep::Lima)
        } else if i == 3 {
            Ok(PipelineStep::Refine)
        } else if i == 4 {
            Ok(PipelineStep::Cluster)
        } else if i == 5 {
            Ok(PipelineStep::Minimap)
        } else if i == 6 {
            Ok(PipelineStep::Polya)
        } else if i == 7 {
            Ok(PipelineStep::LoadGenome)
        } else {
            let msg = String::from_str("ERROR: Invalid pipeline step: ");
            let digits = if i <= i64::MAX as usize {
                i64_text(i as i64)
            } else {
                crate::text::u64_text(i as u64)
            };
            Err(msg.concat(digits.as_str()))
        }
    }

    /// The package name (see `package_name`).
    pub fn to_str(&self) -> (r: String)
        ensures
            r@ == self.package_name(),
    {
        match self {
            PipelineStep::Ccs => String::from_str("ccs"),
            PipelineStep::Lima => String::from_str("lima"),
            PipelineStep::Refine => String::from_str("isoseq"),
            PipelineStep::Cluster => String::from_str("isoseq"),
            PipelineStep::Minimap => String::from_str("minimap2"),
            PipelineStep::Polya => String::from_str("polya"),
            PipelineStep::LoadGenome => String::from_str("load-genome"),
        }
    }

    /// The unique name (see `unique_name`).
    pub fn to_unique_str(&self) -> (r: String)
        ensures
            r@ == self.unique_name(),
    {
        match self {
            PipelineStep::Ccs => String::from_str("ccs"),
            PipelineStep::Lima => String::from_str("lima"),
            PipelineStep::Refine => String::from_str("refine"),
            PipelineStep::Cluster => String::from_str("cluster"),
            PipelineStep::Minimap => String::from_str("minimap2"),
            PipelineStep::Polya => String::from_str("polya"),
            PipelineStep::LoadGenome => String::from_str("load-genome"),
        }
    }

    /// The 1-based index.
    pub fn to_int(&self) -> (r: usize)
        ensures
            r as int == self.index(),
    {
        match self {
            PipelineStep::Ccs => 1,
            PipelineStep::Lima => 2,
            PipelineStep::Refine => 3,
            PipelineStep::Cluster => 4,
            PipelineStep::Minimap => 5,
            PipelineStep::Polya => 6,
            PipelineStep::LoadGenome => 7,
        }
    }

    /// Looks up every name in order; the first name that names no stage
    /// gives the error.
    pub fn from_vec_str(v: Vec<String>) -> (r: Result<Vec<Self>, String>)
        ensures
            match r {
                Ok(steps) => steps@.len() == v@.len() && forall|i: int|
                    0 <= i < v@.len() ==> step_named(#[trigger] v@[i]@) == Some(steps@[i]),
                Err(e) => exists|k: int|
                    0 <= k < v@.len() && step_named(v@[k]@) is None && e@
                        == invalid_name_message(v@[k]@) && forall|i: int|
                        0 <= i < k ==> step_named(#[trigger] v@[i]@) is Some,
            },
    {
        let mut out: Vec<Self> = Vec::new();
        let mut i: usize = 0;
        while i < v.len()
            invariant
                i <= v@.len(),
                out@.len() == i,
                forall|j: int| 0 <= j < i ==> step_named(#[trigger] v@[j]@) == Some(out@[j]),
            decreases v@.len() - i,
        {
            match Self::from_str(v[i].as_str()) {
                Ok(step) => {
                    out.push(step);
                },
                Err(e) => {
                    return Err(e);
                },
            }
            i = i + 1;
        }
        Ok(out)
    }

    /// Looks up every index in order; the first index outside the catalog
    /// gives the error.
    pub fn from_vec_int(v: Vec<usize>) -> (r: Result<Vec<Self>, String>)
        ensures
            match r {
                Ok(steps) => steps@.len() == v@.len() && forall|i: int|
                    0 <= i < v@.len() ==> step_at(#[trigger] v@[i] as int) == Some(steps@[i]),
                Err(e) => exists|k: int|
                    0 <= k < v@.len() && step_at(v@[k] as int) is None && e@
                        == invalid_index_message(v@[k] as int) && forall|i: int|
                        0 <= i < k ==> step_at(#[trigger] v@[i] as int) is Some,
            },
    {
        let mut out: Vec<Self> = Vec::new();
        let mut i: usize = 0;
        while i < v.len()
            invariant
                i <= v@.len(),
                out@.len() == i,
                forall|j: int| 0 <= j < i ==> step_at(#[trigger] v@[j] as int) == Some(out@[j]),
            decreases v@.len() - i,
        {
            match Self::from_int(v[i]) {
                Ok(step) => {
                    out.push(step);
                },
                Err(e) => {
                    return Err(e);
                },
            }
            i = i + 1;
        }
        Ok(out)
    }
}

/// Index and name lookups invert `to_int` and `to_unique_str` for every stage.
pub proof fn lemma_catalog_round_trip(s: PipelineStep)
    ensures
        step_at(s.index()) == Some(s),
        step_named(s.unique_name()) == Some(s),
        1 <= s.index() <= 7,
{
    reveal_strlit("ccs");
    reveal_strlit("lima");
    reveal_strlit("refine");
    reveal_strlit("cluster");
    reveal_strlit("minimap2");
    reveal_strlit("polya");
    reveal_strlit("load-genome");
    assert("ccs"@.len() == 3);
    assert("lima"@.len() == 4);
    assert("refine"@.len() == 6);
    assert("cluster"@.len() == 7);
    assert("minimap2"@.len() == 8);
    assert("polya"@.len() == 5);
    assert("load-genome"@.len() == 11);
}

} // verus!
