//! The parameter store: run metadata, the package manifest, global and
//! per-stage parameters, and the active stage list they are kept in step with.

use vstd::prelude::*;
use crate::cli::{SelectionError, StepArgs};
use crate::params::{
    flat_spec, has_key, lookup, str_texts, unique_keys, Dict, ParamValue, StepParams,
};
use crate::step::{step_named, PipelineStep};
use crate::text::{path_join, path_join_spec, str_eq};

verus! {

/// Why a configuration lookup failed.
#[derive(Debug)]
pub enum ConfigError {
    /// The stage has no parameter table at all.
    StepNotConfigured { step: PipelineStep },
    /// The stage's table lacks a key the caller needs.
    MissingRequiredParam { step: PipelineStep, key: String },
    /// A global parameter is missing.
    MissingGlobal { key: String },
    /// The package manifest has no version for a package.
    MissingPackage { name: String },
    /// A metadata entry is missing.
    MissingMetadata { key: String },
    /// A parameter that must be a count is not one.
    InvalidNumber { step: PipelineStep, key: String },
}

/// Declarative state of one run.
#[derive(Debug)]
pub struct Config {
    pub metadata: Dict<String>,
    pub packages: Dict<String>,
    pub global: Dict<ParamValue>,
    pub steps: Vec<PipelineStep>,
    pub params: Vec<(PipelineStep, StepParams)>,
}

/// Version given to the index package when it has to be added.
pub open spec fn default_index_version() -> Seq<char> {
    "1.7.0"@
}

/// Whether a stage needs a package of the manifest. Several stages may
/// share one package; other names are matched against unique stage names.
pub open spec fn requires_package(step: PipelineStep, pkg: Seq<char>) -> bool {
    if pkg == "isoseq"@ {
        step == PipelineStep::Refine || step == PipelineStep::Cluster
    } else if pkg == "isotools"@ {
        step == PipelineStep::Polya
    } else if pkg == "pbccs"@ || pkg == "pbindex"@ {
        step == PipelineStep::Ccs
    } else {
        step_named(pkg) == Some(step)
    }
}

/// Whether some active stage needs the package.
pub open spec fn package_needed(steps: Seq<PipelineStep>, pkg: Seq<char>) -> bool {
    exists|i: int| 0 <= i < steps.len() && requires_package(#[trigger] steps[i], pkg)
}

pub open spec fn needed_entry(steps: Seq<PipelineStep>) -> spec_fn((Seq<char>, String)) -> bool {
    |e: (Seq<char>, String)| package_needed(steps, e.0)
}

/// The manifest entries that survive for the given stages, in order.
pub open spec fn kept_packages(old: Seq<(Seq<char>, String)>, steps: Seq<PipelineStep>) -> Seq<
    (Seq<char>, String),
> {
    old.filter(needed_entry(steps))
}

/// `new` is the manifest `old` brought in line with `steps`: unneeded
/// entries are dropped, and when the consensus package stays, the index
/// package is added at its default version if it was missing.
pub open spec fn packages_synced(
    old: Seq<(Seq<char>, String)>,
    new: Seq<(Seq<char>, String)>,
    steps: Seq<PipelineStep>,
) -> bool {
    let kept = kept_packages(old, steps);
    if has_key(kept, "pbccs"@) && !has_key(kept, "pbindex"@) {
        &&& new.len() == kept.len() + 1
        &&& new.take(kept.len() as int) == kept
        &&& new.last().0 == "pbindex"@
        &&& new.last().1@ == default_index_version()
    } else {
        new == kept
    }
}

pub open spec fn active_entry(steps: Seq<PipelineStep>) -> spec_fn((PipelineStep, StepParams)) -> bool {
    |e: (PipelineStep, StepParams)| steps.contains(e.0)
}

/// The per-stage tables that survive for the given stages, in order.
pub open spec fn kept_params(
    old: Seq<(PipelineStep, StepParams)>,
    steps: Seq<PipelineStep>,
) -> Seq<(PipelineStep, StepParams)> {
    old.filter(active_entry(steps))
}

/// Stages of the per-stage tables are pairwise distinct.
pub open spec fn unique_steps(s: Seq<(PipelineStep, StepParams)>) -> bool {
    forall|i: int, j: int| 0 <= i < s.len() && 0 <= j < s.len() && i != j ==> s[i].0 != s[j].0
}

/// `new` is `old` with its stage list replaced by `sel` and the manifest and
/// per-stage tables brought in line with it.
pub open spec fn aware_of(old: Config, new: Config, sel: Seq<PipelineStep>) -> bool {
    &&& new.steps@ == sel
    &&& packages_synced(old.packages@, new.packages@, sel)
    &&& new.params@ == kept_params(old.params@, sel)
    &&& new.metadata@ == old.metadata@
    &&& new.global@ == old.global@
}

/// Characters a run identifier is drawn from.
pub open spec fn run_id_charset() -> Seq<char> {
    "ABCDEFGHIJKLMNOPQRSTUVWXYZ0123456789"@
}

/// The run identifier derived from a clock reading: four characters; each
/// is picked by the reading modulo 36, and the reading is then divided by 7.
pub open spec fn run_id_of(clock: nat) -> Seq<char> {
    let h1 = clock / 7;
    let h2 = h1 / 7;
    let h3 = h2 / 7;
    seq![
        run_id_charset()[(clock % 36) as int],
        run_id_charset()[(h1 % 36) as int],
        run_id_charset()[(h2 % 36) as int],
        run_id_charset()[(h3 % 36) as int],
    ]
}

/// Key of the manifest entry that holds a stage's package version.
pub open spec fn package_key(step: PipelineStep) -> Seq<char> {
    if step == PipelineStep::Ccs {
        "pbccs"@
    } else {
        step.package_name()
    }
}

fn step_requires_package(step: PipelineStep, pkg: &str) -> (r: bool)
    ensures
        r == requires_package(step, pkg@),
{
    if str_eq(pkg, "isoseq") {
        step == PipelineStep::Refine || step == PipelineStep::Cluster
    } else if str_eq(pkg, "isotools") {
        step == PipelineStep::Polya
    } else if str_eq(pkg, "pbccs") || str_eq(pkg, "pbindex") {
        step == PipelineStep::Ccs
    } else {
        match PipelineStep::from_str(pkg) {
            Ok(s) => s == step,
            Err(_) => false,
        }
    }
}

fn any_step_requires(steps: &Vec<PipelineStep>, pkg: &str) -> (r: bool)
    ensures
        r == package_needed(steps@, pkg@),
{
    let mut i: usize = 0;
    while i < steps.len()
        invariant
            i <= steps@.len(),
            forall|j: int| 0 <= j < i ==> !requires_package(#[trigger] steps@[j], pkg@),
        decreases steps@.len() - i,
    {
        if step_requires_package(steps[i], pkg) {
            return true;
        }
        i = i + 1;
    }
    false
}

fn steps_contain(steps: &Vec<PipelineStep>, s: PipelineStep) -> (r: bool)
    ensures
        r == steps@.contains(s),
{
    let mut i: usize = 0;
    while i < steps.len()
        invariant
            i <= steps@.len(),
            forall|j: int| 0 <= j < i ==> steps@[j] != s,
        decreases steps@.len() - i,
    {
        if steps[i] == s {
            return true;
        }
        i = i + 1;
    }
    false
}

fn filter_packages(entries: Vec<(String, String)>, steps: &Vec<PipelineStep>) -> (r: Vec<
    (String, String),
>)
    requires
        unique_keys(crate::params::entries_view(entries@)),
    ensures
        crate::params::entries_view(r@) == kept_packages(
            crate::params::entries_view(entries@),
            steps@,
        ),
        unique_keys(crate::params::entries_view(r@)),
{
    let ghost orig = crate::params::entries_view(entries@);
    let ghost p = needed_entry(steps@);
    let mut rest = entries;
    let mut out: Vec<(String, String)> = Vec::new();
    let mut k: usize = 0;
    let n = rest.len();
    proof {
        reveal(Seq::filter);
        assert(orig.take(0) =~= Seq::<(Seq<char>, String)>::empty());
        assert(crate::params::entries_view(rest@) =~= orig.skip(0));
        assert(crate::params::entries_view(out@) =~= Seq::<(Seq<char>, String)>::empty());
    }
    while k < n
        invariant
            k <= n,
            n == orig.len(),
            unique_keys(orig),
            p == needed_entry(steps@),
            crate::params::entries_view(rest@) == orig.skip(k as int),
            rest@.len() == n - k,
            crate::params::entries_view(out@) == orig.take(k as int).filter(p),
        decreases n - k,
    {
        let ghost before = out@;
        let ghost rest_before = rest@;
        let e = rest.remove(0);
        proof {
            assert(crate::params::entries_view(rest_before)[0] == orig[k as int]);
            assert(crate::params::entries_view(rest@) =~= orig.skip(k + 1)) by {
                assert forall|t: int| 0 <= t < rest@.len() implies crate::params::entries_view(rest@)[t]
                    == orig.skip(k + 1)[t] by {
                    assert(rest@[t] == rest_before[t + 1]);
                    assert(crate::params::entries_view(rest_before)[t + 1] == orig[k + 1 + t]);
                }
            }
            assert((e.0@, e.1) == orig[k as int]);
            assert(orig.take(k + 1) =~= orig.take(k as int).push(orig[k as int]));
            orig.take(k as int).lemma_filter_push(orig[k as int], p);
        }
        if any_step_requires(steps, e.0.as_str()) {
            out.push(e);
            assert(crate::params::entries_view(out@) =~= crate::params::entries_view(before).push(
                orig[k as int],
            ));
        }
        k = k + 1;
    }
    proof {
        assert(orig.take(n as int) =~= orig);
        let v = crate::params::entries_view(out@);
        assert forall|i: int, j: int| 0 <= i < v.len() && 0 <= j < v.len() && i != j implies v[i].0
            != v[j].0 by {
            lemma_filter_positions(orig, p, i, j);
        }
    }
    out
}

/// Distinct positions of a filter of a key-unique sequence hold distinct keys.
proof fn lemma_filter_positions(
    s: Seq<(Seq<char>, String)>,
    p: spec_fn((Seq<char>, String)) -> bool,
    i: int,
    j: int,
)
    requires
        unique_keys(s),
        0 <= i < s.filter(p).len(),
        0 <= j < s.filter(p).len(),
        i != j,
    ensures
        s.filter(p)[i].0 != s.filter(p)[j].0,
    decreases s.len(),
{
    reveal(Seq::filter);
    let init = s.drop_last();
    let f = init.filter(p);
    if p(s.last()) && (i == f.len() || j == f.len()) {
        let other = if i == f.len() {
            j
        } else {
            i
        };
        assert(f.contains(f[other]));
        init.lemma_filter_contains_rev(p, f[other]);
        let m = choose|m: int| 0 <= m < init.len() && init[m] == f[other];
        assert(s[m] == f[other]);
    } else {
        lemma_filter_positions(init, p, i, j);
    }
}

/// Filtering the per-stage tables keeps their stages distinct and their
/// tables well formed.
proof fn lemma_filter_params_wf(
    s: Seq<(PipelineStep, StepParams)>,
    p: spec_fn((PipelineStep, StepParams)) -> bool,
)
    requires
        unique_steps(s),
        forall|i: int| 0 <= i < s.len() ==> (#[trigger] s[i]).1.wf(),
    ensures
        unique_steps(s.filter(p)),
        forall|i: int| 0 <= i < s.filter(p).len() ==> (#[trigger] s.filter(p)[i]).1.wf(),
    decreases s.len(),
{
    reveal(Seq::filter);
    if s.len() > 0 {
        let init = s.drop_last();
        assert forall|i: int| 0 <= i < init.len() implies (#[trigger] init[i]).1.wf() by {
            assert(init[i] == s[i]);
        }
        lemma_filter_params_wf(init, p);
        let f = init.filter(p);
        if p(s.last()) {
            assert forall|i: int| 0 <= i < f.len() implies f[i].0 != s.last().0 by {
                assert(f.contains(f[i]));
                init.lemma_filter_contains_rev(p, f[i]);
                let k = choose|k: int| 0 <= k < init.len() && init[k] == f[i];
                assert(s[k] == f[i]);
            }
            assert(s.filter(p) == f.push(s.last()));
        }
    }
}

fn filter_params(entries: Vec<(PipelineStep, StepParams)>, steps: &Vec<PipelineStep>) -> (r: Vec<
    (PipelineStep, StepParams),
>)
    ensures
        r@ == kept_params(entries@, steps@),
{
    let ghost orig = entries@;
    let ghost p = active_entry(steps@);
    let mut rest = entries;
    let mut out: Vec<(PipelineStep, StepParams)> = Vec::new();
    let mut k: usize = 0;
    let n = rest.len();
    proof {
        reveal(Seq::filter);
        assert(orig.take(0) =~= Seq::<(PipelineStep, StepParams)>::empty());
        assert(rest@ =~= orig.skip(0));
    }
    while k < n
        invariant
            k <= n,
            n == orig.len(),
            p == active_entry(steps@),
            rest@ == orig.skip(k as int),
            rest@.len() == n - k,
            out@ == orig.take(k as int).filter(p),
        decreases n - k,
    {
        let e = rest.remove(0);
        proof {
            assert(rest@ =~= orig.skip(k + 1));
            assert(orig.take(k + 1) =~= orig.take(k as int).push(orig[k as int]));
            orig.take(k as int).lemma_filter_push(orig[k as int], p);
        }
        if steps_contain(steps, e.0) {
            out.push(e);
        }
        k = k + 1;
    }
    assert(orig.take(n as int) =~= orig);
    out
}

impl Config {
    pub open spec fn wf(&self) -> bool {
        &&& self.metadata.wf()
        &&& self.packages.wf()
        &&& self.global.wf()
        &&& unique_steps(self.params@)
        &&& forall|i: int| 0 <= i < self.params@.len() ==> (#[trigger] self.params@[i]).1.wf()
    }

    /// Whether the stage has a parameter table.
    pub open spec fn configured(&self, step: PipelineStep) -> bool {
        exists|i: int| 0 <= i < self.params@.len() && (#[trigger] self.params@[i]).0 == step
    }

    /// Position of the stage's parameter table.
    pub open spec fn slot(&self, step: PipelineStep) -> int {
        choose|i: int| 0 <= i < self.params@.len() && (#[trigger] self.params@[i]).0 == step
    }

    /// The stage's parameter table (meaningful when configured).
    pub open spec fn table(&self, step: PipelineStep) -> Seq<(Seq<char>, ParamValue)> {
        self.params@[self.slot(step)].1@
    }

    /// An empty store.
    pub fn new() -> (r: Self)
        ensures
            r.wf(),
            r.metadata@.len() == 0,
            r.packages@.len() == 0,
            r.global@.len() == 0,
            r.steps@.len() == 0,
            r.params@.len() == 0,
    {
        Config {
            metadata: Dict::new(),
            packages: Dict::new(),
            global: Dict::new(),
            steps: Vec::new(),
            params: Vec::new(),
        }
    }

    pub fn metadata(&self) -> (r: &Dict<String>)
        ensures
            r == &self.metadata,
    {
        &self.metadata
    }

    pub fn packages(&self) -> (r: &Dict<String>)
        ensures
            r == &self.packages,
    {
        &self.packages
    }

    pub fn steps(&self) -> (r: &Vec<PipelineStep>)
        ensures
            r == &self.steps,
    {
        &self.steps
    }

    pub fn params(&self) -> (r: &Vec<(PipelineStep, StepParams)>)
        ensures
            r == &self.params,
    {
        &self.params
    }

    pub fn set_metadata(&mut self, metadata: Dict<String>)
        ensures
            final(self).metadata == metadata,
            final(self).packages == old(self).packages,
            final(self).global == old(self).global,
            final(self).steps == old(self).steps,
            final(self).params == old(self).params,
    {
        self.metadata = metadata;
    }

    pub fn set_packages(&mut self, packages: Dict<String>)
        ensures
            final(self).packages == packages,
            final(self).metadata == old(self).metadata,
            final(self).global == old(self).global,
            final(self).steps == old(self).steps,
            final(self).params == old(self).params,
    {
        self.packages = packages;
    }

    pub fn set_steps(&mut self, steps: Vec<PipelineStep>)
        ensures
            final(self).steps == steps,
            final(self).metadata == old(self).metadata,
            final(self).packages == old(self).packages,
            final(self).global == old(self).global,
            final(self).params == old(self).params,
    {
        self.steps = steps;
    }

    pub fn set_params(&mut self, params: Vec<(PipelineStep, StepParams)>)
        ensures
            final(self).params == params,
            final(self).metadata == old(self).metadata,
            final(self).packages == old(self).packages,
            final(self).global == old(self).global,
            final(self).steps == old(self).steps,
    {
        self.params = params;
    }

    /// Sets the version of a package.
    pub fn add_package(&mut self, package: String, version: String)
        requires
            old(self).packages.wf(),
        ensures
            final(self).packages.wf(),
            final(self).packages@ == crate::params::insert_spec(
                old(self).packages@,
                package@,
                version,
            ),
            final(self).metadata == old(self).metadata,
            final(self).global == old(self).global,
            final(self).steps == old(self).steps,
            final(self).params == old(self).params,
    {
        self.packages.insert(package, version);
    }

    /// Removes a package from the manifest.
    pub fn remove_package(&mut self, package: String)
        requires
            old(self).packages.wf(),
        ensures
            final(self).packages.wf(),
            final(self).packages@ == crate::params::remove_spec(old(self).packages@, package@),
            final(self).metadata == old(self).metadata,
            final(self).global == old(self).global,
            final(self).steps == old(self).steps,
            final(self).params == old(self).params,
    {
        self.packages.remove(package.as_str());
    }

    /// Appends a stage to the active list.
    pub fn add_step(&mut self, step: PipelineStep)
        ensures
            final(self).steps@ == old(self).steps@.push(step),
            final(self).metadata == old(self).metadata,
            final(self).packages == old(self).packages,
            final(self).global == old(self).global,
            final(self).params == old(self).params,
    {
        self.steps.push(step);
    }

    /// Removes every occurrence of a stage from the active list.
    pub fn remove_step(&mut self, step: PipelineStep)
        ensures
            final(self).steps@ == old(self).steps@.filter(|s: PipelineStep| s != step),
            final(self).metadata == old(self).metadata,
            final(self).packages == old(self).packages,
            final(self).global == old(self).global,
            final(self).params == old(self).params,
    {
        let ghost orig = self.steps@;
        let ghost p = |s: PipelineStep| s != step;
        let mut out: Vec<PipelineStep> = Vec::new();
        let mut k: usize = 0;
        proof {
            reveal(Seq::filter);
            assert(orig.take(0) =~= Seq::<PipelineStep>::empty());
        }
        while k < self.steps.len()
            invariant
                k <= orig.len(),
                self.steps@ == orig,
                p == (|s: PipelineStep| s != step),
                out@ == orig.take(k as int).filter(p),
            decreases orig.len() - k,
        {
            proof {
                assert(orig.take(k + 1) =~= orig.take(k as int).push(orig[k as int]));
                orig.take(k as int).lemma_filter_push(orig[k as int], p);
            }
            if self.steps[k] != step {
                out.push(self.steps[k]);
            }
            k = k + 1;
        }
        assert(orig.take(orig.len() as int) =~= orig);
        self.steps = out;
    }

    /// Drops the manifest entries that no active stage needs; when the
    /// consensus package stays, makes sure the index package is present.
    pub fn update_packages(&mut self)
        requires
            old(self).packages.wf(),
        ensures
            final(self).packages.wf(),
            packages_synced(old(self).packages@, final(self).packages@, old(self).steps@),
            final(self).metadata == old(self).metadata,
            final(self).global == old(self).global,
            final(self).steps == old(self).steps,
            final(self).params == old(self).params,
    {
        let mut taken: Dict<String> = Dict::new();
        std::mem::swap(&mut self.packages, &mut taken);
        let entries = taken.into_entries();
        let kept = filter_packages(entries, &self.steps);
        let mut packages = Dict::from_entries(kept);
        if packages.contains_key("pbccs") && !packages.contains_key("pbindex") {
            let ghost before = packages@;
            packages.insert(String::from_str("pbindex"), String::from_str("1.7.0"));
            proof {
                reveal_strlit("pbindex");
                reveal_strlit("1.7.0");
                assert(packages@.take(before.len() as int) =~= before);
            }
        }
        self.packages = packages;
    }

    /// Drops the per-stage tables of stages that are not active.
    pub fn update_params(&mut self)
        requires
            unique_steps(old(self).params@),
            forall|i: int| 0 <= i < old(self).params@.len() ==> (#[trigger] old(self).params@[i]).1.wf(),
        ensures
            unique_steps(final(self).params@),
            forall|i: int| 0 <= i < final(self).params@.len() ==> (#[trigger] final(self).params@[i]).1.wf(),
            final(self).params@ == kept_params(old(self).params@, old(self).steps@),
            final(self).metadata == old(self).metadata,
            final(self).packages == old(self).packages,
            final(self).global == old(self).global,
            final(self).steps == old(self).steps,
    {
        let mut taken: Vec<(PipelineStep, StepParams)> = Vec::new();
        std::mem::swap(&mut self.params, &mut taken);
        proof {
            lemma_filter_params_wf(taken@, active_entry(self.steps@));
        }
        self.params = filter_params(taken, &self.steps);
    }

    /// Resolves the selection request, makes it the active stage list, and
    /// brings the manifest and the per-stage tables in line with it. A
    /// request that does not resolve leaves the store unchanged.
    pub fn aware(&mut self, args: StepArgs) -> (r: Result<(), SelectionError>)
        requires
            old(self).wf(),
        ensures
            final(self).wf(),
            match args.selection() {
                Ok(sel) => r is Ok && aware_of(*old(self), *final(self), sel),
                Err(f) => r matches Err(e) && e@ == f && *final(self) == *old(self),
            },
            final(self).packages.wf(),
    {
        let steps = args.abs_steps()?;
        self.set_steps(steps);
        self.update_packages();
        self.update_params();
        Ok(())
    }
}

/// Relies on chrono's `Local::now` and `format`: the local time to the
/// minute as `%Y%m%d%H%M`. It depends on the clock and the time zone, so
/// nothing is stated of it.
#[verifier::external_body]
fn local_minute_stamp() -> (r: String) {
    chrono::Local::now().format("%Y%m%d%H%M").to_string()
}

/// Where a run's outputs go: `<global_output_dir>/isopipe_run_<stamp>`.
pub open spec fn run_output_dir(root: Seq<char>, stamp: Seq<char>) -> Seq<char> {
    root + "/isopipe_run_"@ + stamp
}

impl Config {
    fn find_slot(&self, step: PipelineStep) -> (r: Option<usize>)
        requires
            unique_steps(self.params@),
        ensures
            match r {
                Some(i) => i < self.params@.len() && self.params@[i as int].0 == step
                    && self.configured(step) && self.slot(step) == i,
                None => !self.configured(step),
            },
    {
        let mut i: usize = 0;
        while i < self.params.len()
            invariant
                i <= self.params@.len(),
                unique_steps(self.params@),
                forall|j: int| 0 <= j < i ==> self.params@[j].0 != step,
            decreases self.params@.len() - i,
        {
            if self.params[i].0 == step {
                assert(self.configured(step));
                let ghost j = self.slot(step);
                assert(self.params@[j].0 == step);
                return Some(i);
            }
            i = i + 1;
        }
        None
    }

    /// A parameter of a stage. Fails when the stage has no table at all; a
    /// missing key is `None`.
    pub fn get_param(&self, step: PipelineStep, key: &str) -> (r: Result<
        Option<&ParamValue>,
        ConfigError,
    >)
        requires
            self.wf(),
        ensures
            !self.configured(step) ==> (r matches Err(ConfigError::StepNotConfigured { step: s })
                && s == step),
            self.configured(step) ==> (r matches Ok(o) && match o {
                Some(v) => lookup(self.table(step), key@) == Some(*v),
                None => lookup(self.table(step), key@) is None,
            }),
    {
        match self.find_slot(step) {
            Some(i) => Ok(self.params[i].1.get(key)),
            None => Err(ConfigError::StepNotConfigured { step }),
        }
    }

    /// A global parameter.
    pub fn get_global_param(&self, key: &str) -> (r: Option<&ParamValue>)
        requires
            self.wf(),
        ensures
            match r {
                Some(v) => lookup(self.global@, key@) == Some(*v),
                None => lookup(self.global@, key@) is None,
            },
    {
        self.global.get(key)
    }

    /// The text of the global `data_prefix`.
    pub fn get_data_prefix(&self) -> (r: Result<String, ConfigError>)
        requires
            self.wf(),
        ensures
            match lookup(self.global@, "data_prefix"@) {
                Some(v) => r matches Ok(s) && s@ == v.text(),
                None => r matches Err(ConfigError::MissingGlobal { key }) && key@
                    == "data_prefix"@,
            },
    {
        match self.global.get("data_prefix") {
            Some(v) => Ok(v.to_string()),
            None => Err(ConfigError::MissingGlobal { key: String::from_str("data_prefix") }),
        }
    }

    /// `package/version` for the package that runs a stage; the aligner is
    /// resolved outside the manifest and gives its bare name.
    pub fn get_package_from_step(&self, step: &PipelineStep) -> (r: Result<String, ConfigError>)
        requires
            self.wf(),
        ensures
            *step == PipelineStep::Minimap ==> (r matches Ok(s) && s@ == "minimap2"@),
            *step != PipelineStep::Minimap ==> (match lookup(self.packages@, package_key(*step)) {
                Some(v) => r matches Ok(s) && s@ == package_key(*step) + "/"@ + v@,
                None => r matches Err(ConfigError::MissingPackage { name }) && name@
                    == package_key(*step),
            }),
    {
        if *step == PipelineStep::Minimap {
            return Ok(step.to_str());
        }
        let package = if *step == PipelineStep::Ccs {
            String::from_str("pbccs")
        } else {
            step.to_str()
        };
        match self.packages.get(package.as_str()) {
            Some(version) => {
                let mut out = package;
                out.append("/");
                proof {
                    reveal_strlit("/");
                }
                out.append(version.as_str());
                Ok(out)
            },
            None => Err(ConfigError::MissingPackage { name: package }),
        }
    }

    /// Input directory of a stage and its output directory under the run's
    /// output root. Both must be configured for the stage.
    pub fn get_step_dirs(&self, step: &PipelineStep, global_output_dir: &str) -> (r: Result<
        (String, String),
        ConfigError,
    >)
        requires
            self.wf(),
        ensures
            !self.configured(*step) ==> (r matches Err(ConfigError::StepNotConfigured { step: s })
                && s == *step),
            self.configured(*step) ==> (match lookup(self.table(*step), "input_dir"@) {
                None => r matches Err(ConfigError::MissingRequiredParam { step: s, key }) && s
                    == *step && key@ == "input_dir"@,
                Some(input) => match lookup(self.table(*step), "output_dir"@) {
                    None => r matches Err(ConfigError::MissingRequiredParam { step: s, key }) && s
                        == *step && key@ == "output_dir"@,
                    Some(output) => r matches Ok(dirs) && dirs.0@ == input.path_text() && dirs.1@
                        == path_join_spec(global_output_dir@, output.path_text()),
                },
            }),
    {
        let input = match self.get_param(*step, "input_dir")? {
            Some(v) => v.to_path_buf(),
            None => {
                return Err(
                    ConfigError::MissingRequiredParam {
                        step: *step,
                        key: String::from_str("input_dir"),
                    },
                );
            },
        };
        let output = match self.get_param(*step, "output_dir")? {
            Some(v) => v.to_path_buf(),
            None => {
                return Err(
                    ConfigError::MissingRequiredParam {
                        step: *step,
                        key: String::from_str("output_dir"),
                    },
                );
            },
        };
        Ok((input, path_join(global_output_dir, output.as_str())))
    }

    /// The text of each named parameter of a stage, in order; the first
    /// missing one is reported.
    pub fn get_step_custom_fields(&self, step: &PipelineStep, fields: Vec<&str>) -> (r: Result<
        Vec<String>,
        ConfigError,
    >)
        requires
            self.wf(),
        ensures
            match r {
                Ok(v) => v@.len() == fields@.len() && (fields@.len() > 0 ==> self.configured(
                    *step,
                )) && forall|i: int|
                    0 <= i < fields@.len() ==> (#[trigger] lookup(self.table(*step), fields@[i]@)
                        matches Some(pv) && v@[i]@ == pv.text()),
                Err(ConfigError::StepNotConfigured { step: s }) => s == *step && !self.configured(
                    *step,
                ) && fields@.len() > 0,
                Err(ConfigError::MissingRequiredParam { step: s, key }) => s == *step
                    && self.configured(*step) && exists|k: int|
                    0 <= k < fields@.len() && lookup(self.table(*step), fields@[k]@) is None
                        && key@ == fields@[k]@ && forall|j: int|
                        0 <= j < k ==> #[trigger] lookup(self.table(*step), fields@[j]@) is Some,
                Err(_) => false,
            },
    {
        let mut out: Vec<String> = Vec::new();
        let mut i: usize = 0;
        while i < fields.len()
            invariant
                self.wf(),
                i <= fields@.len(),
                out@.len() == i,
                i > 0 ==> self.configured(*step),
                forall|j: int|
                    0 <= j < i ==> (#[trigger] lookup(self.table(*step), fields@[j]@) matches Some(
                        pv,
                    ) && out@[j]@ == pv.text()),
            decreases fields@.len() - i,
        {
            match self.get_param(*step, fields[i])? {
                Some(v) => {
                    out.push(v.to_string());
                },
                None => {
                    return Err(
                        ConfigError::MissingRequiredParam {
                            step: *step,
                            key: String::from_str(fields[i]),
                        },
                    );
                },
            }
            i = i + 1;
        }
        Ok(out)
    }

    /// A stage's parameters rendered as flags, without the excluded keys.
    pub fn get_step_args(&self, step: &PipelineStep, exclude: Vec<&str>) -> (r: Result<
        String,
        ConfigError,
    >)
        requires
            self.wf(),
        ensures
            !self.configured(*step) ==> (r matches Err(ConfigError::StepNotConfigured { step: s })
                && s == *step),
            self.configured(*step) ==> (r matches Ok(t) && t@ == flat_spec(
                self.table(*step),
                str_texts(exclude@),
            )),
    {
        match self.find_slot(*step) {
            Some(i) => Ok(self.params[i].1.flat(Some(exclude))),
            None => Err(ConfigError::StepNotConfigured { step: *step }),
        }
    }

    /// Replaces the run identifier in the metadata with the one derived from
    /// a clock reading (see `run_id_of`). The metadata must have the slot.
    pub fn set_run_id(&mut self, clock: u128) -> (r: Result<(), ConfigError>)
        requires
            old(self).metadata.wf(),
        ensures
            final(self).metadata.wf(),
            has_key(old(self).metadata@, "run_id"@) ==> r is Ok && exists|id: String|
                id@ == run_id_of(clock as nat) && final(self).metadata@
                    == crate::params::insert_spec(old(self).metadata@, "run_id"@, id),
            !has_key(old(self).metadata@, "run_id"@) ==> (r matches Err(
                ConfigError::MissingMetadata { key },
            ) && key@ == "run_id"@ && *final(self) == *old(self)),
            final(self).packages == old(self).packages,
            final(self).global == old(self).global,
            final(self).steps == old(self).steps,
            final(self).params == old(self).params,
    {
        if !self.metadata.contains_key("run_id") {
            return Err(ConfigError::MissingMetadata { key: String::from_str("run_id") });
        }
        let charset = "ABCDEFGHIJKLMNOPQRSTUVWXYZ0123456789";
        proof {
            reveal_strlit("ABCDEFGHIJKLMNOPQRSTUVWXYZ0123456789");
        }
        assert(charset@.len() == 36);
        let mut id = String::new();
        let h0 = clock;
        let c0 = (h0 % 36) as usize;
        id.append(charset.substring_char(c0, c0 + 1));
        let h1 = h0 / 7;
        let c1 = (h1 % 36) as usize;
        id.append(charset.substring_char(c1, c1 + 1));
        let h2 = h1 / 7;
        let c2 = (h2 % 36) as usize;
        id.append(charset.substring_char(c2, c2 + 1));
        let h3 = h2 / 7;
        let c3 = (h3 % 36) as usize;
        id.append(charset.substring_char(c3, c3 + 1));
        assert(id@ =~= run_id_of(clock as nat));
        let key = String::from_str("run_id");
        proof {
            reveal_strlit("run_id");
        }
        self.metadata.insert(key, id);
        Ok(())
    }

    /// The run identifier held in the metadata.
    pub fn get_run_id(&self) -> (r: Result<String, ConfigError>)
        requires
            self.wf(),
        ensures
            match lookup(self.metadata@, "run_id"@) {
                Some(v) => r matches Ok(s) && s@ == v@,
                None => r matches Err(ConfigError::MissingMetadata { key }) && key@ == "run_id"@,
            },
    {
        match self.metadata.get("run_id") {
            Some(v) => Ok(v.clone()),
            None => Err(ConfigError::MissingMetadata { key: String::from_str("run_id") }),
        }
    }

    /// `package/version` for a package whose version is kept in the metadata.
    pub fn get_custom_package(&self, package: &str) -> (r: Result<String, ConfigError>)
        requires
            self.wf(),
        ensures
            match lookup(self.metadata@, package@) {
                Some(v) => r matches Ok(s) && s@ == package@ + "/"@ + v@,
                None => r matches Err(ConfigError::MissingMetadata { key }) && key@ == package@,
            },
    {
        match self.metadata.get(package) {
            Some(v) => {
                let mut out = String::from_str(package);
                out.append("/");
                proof {
                    reveal_strlit("/");
                }
                out.append(v.as_str());
                Ok(out)
            },
            None => Err(ConfigError::MissingMetadata { key: String::from_str(package) }),
        }
    }

    /// Sets the run identifier from a clock reading, and tells whether the
    /// fusion tool package is configured (it then has to be built before use).
    pub fn load(&mut self, clock: u128) -> (r: Result<bool, ConfigError>)
        requires
            old(self).metadata.wf(),
            old(self).packages.wf(),
        ensures
            final(self).metadata.wf(),
            has_key(old(self).metadata@, "run_id"@) ==> (r matches Ok(b) && b == has_key(
                old(self).packages@,
                "isotools"@,
            ) && exists|id: String|
                id@ == run_id_of(clock as nat) && final(self).metadata@
                    == crate::params::insert_spec(old(self).metadata@, "run_id"@, id)),
            !has_key(old(self).metadata@, "run_id"@) ==> (r matches Err(
                ConfigError::MissingMetadata { key },
            ) && key@ == "run_id"@ && *final(self) == *old(self)),
            final(self).packages == old(self).packages,
            final(self).global == old(self).global,
            final(self).steps == old(self).steps,
            final(self).params == old(self).params,
    {
        self.set_run_id(clock)?;
        Ok(self.packages.contains_key("isotools"))
    }

    /// The run's output root for a given time stamp.
    pub fn output_dir_at(&self, stamp: &str) -> (r: Result<String, ConfigError>)
        requires
            self.wf(),
        ensures
            match lookup(self.global@, "global_output_dir"@) {
                Some(v) => r matches Ok(s) && s@ == run_output_dir(v.path_text(), stamp@),
                None => r matches Err(ConfigError::MissingGlobal { key }) && key@
                    == "global_output_dir"@,
            },
    {
        match self.global.get("global_output_dir") {
            Some(v) => {
                let mut out = v.to_path_buf();
                out.append("/isopipe_run_");
                out.append(stamp);
                Ok(out)
            },
            None => Err(ConfigError::MissingGlobal { key: String::from_str("global_output_dir") }),
        }
    }

    /// The run's output root stamped with the current local time.
    pub fn global_output_dir(&self) -> (r: Result<String, ConfigError>)
        requires
            self.wf(),
        ensures
            match lookup(self.global@, "global_output_dir"@) {
                Some(v) => r matches Ok(s) && exists|stamp: Seq<char>|
                    s@ == run_output_dir(v.path_text(), stamp),
                None => r matches Err(ConfigError::MissingGlobal { key }) && key@
                    == "global_output_dir"@,
            },
    {
        let stamp = local_minute_stamp();
        self.output_dir_at(stamp.as_str())
    }

    /// Sets the parameter table of a stage, replacing any it had.
    pub fn add_param(&mut self, step: PipelineStep, params: StepParams)
        requires
            old(self).wf(),
            params.wf(),
        ensures
            final(self).wf(),
            old(self).configured(step) ==> final(self).params@ == old(self).params@.update(
                old(self).slot(step),
                (step, params),
            ),
            !old(self).configured(step) ==> final(self).params@ == old(self).params@.push(
                (step, params),
            ),
            final(self).metadata == old(self).metadata,
            final(self).packages == old(self).packages,
            final(self).global == old(self).global,
            final(self).steps == old(self).steps,
    {
        match self.find_slot(step) {
            Some(i) => {
                self.params.remove(i);
                self.params.insert(i, (step, params));
                assert(self.params@ =~= old(self).params@.update(i as int, (step, params)));
            },
            None => {
                self.params.push((step, params));
            },
        }
    }

    /// Drops the parameter table of a stage, if it has one.
    pub fn remove_step_param(&mut self, step: PipelineStep)
        requires
            old(self).wf(),
        ensures
            final(self).wf(),
            old(self).configured(step) ==> final(self).params@ == old(self).params@.remove(
                old(self).slot(step),
            ),
            !old(self).configured(step) ==> final(self).params@ == old(self).params@,
            final(self).metadata == old(self).metadata,
            final(self).packages == old(self).packages,
            final(self).global == old(self).global,
            final(self).steps == old(self).steps,
    {
        match self.find_slot(step) {
            Some(i) => {
                self.params.remove(i);
                assert(self.wf()) by {
                    assert forall|a: int, b: int|
                        0 <= a < self.params@.len() && 0 <= b < self.params@.len() && a != b implies self.params@[a].0
                        != self.params@[b].0 by {
                        let oa = if a < i { a } else { a + 1 };
                        let ob = if b < i { b } else { b + 1 };
                        assert(self.params@[a] == old(self).params@[oa]);
                        assert(self.params@[b] == old(self).params@[ob]);
                    }
                    assert forall|a: int| 0 <= a < self.params@.len() implies (#[trigger] self.params@[a]).1.wf() by {
                        let oa = if a < i { a } else { a + 1 };
                        assert(self.params@[a] == old(self).params@[oa]);
                    }
                }
            },
            None => {},
        }
    }

    /// Removes one parameter of a stage; the stage must have a table.
    pub fn remove_param(&mut self, step: PipelineStep, key: &str) -> (r: Result<(), ConfigError>)
        requires
            old(self).wf(),
        ensures
            final(self).wf(),
            !old(self).configured(step) ==> (r matches Err(ConfigError::StepNotConfigured { step: s })
                && s == step && *final(self) == *old(self)),
            old(self).configured(step) ==> r is Ok && final(self).params@.len()
                == old(self).params@.len() && final(self).params@[old(self).slot(step)].0 == step
                && final(self).params@[old(self).slot(step)].1@ == crate::params::remove_spec(
                old(self).table(step),
                key@,
            ) && forall|j: int|
                0 <= j < old(self).params@.len() && j != old(self).slot(step) ==> final(self).params@[j] == old(self).params@[j],
            final(self).metadata == old(self).metadata,
            final(self).packages == old(self).packages,
            final(self).global == old(self).global,
            final(self).steps == old(self).steps,
    {
        match self.find_slot(step) {
            Some(i) => {
                let (s, mut table) = self.params.remove(i);
                assert(table.wf());
                table.remove(key);
                self.params.insert(i, (s, table));
                proof {
                    assert forall|j: int| 0 <= j < self.params@.len() && j != i implies self.params@[j] == old(self).params@[j] by {}
                    assert(self.wf()) by {
                        assert forall|a: int| 0 <= a < self.params@.len() implies (#[trigger] self.params@[a]).1.wf() by {
                            if a != i {
                                assert(self.params@[a] == old(self).params@[a]);
                            }
                        }
                        assert forall|a: int, b: int|
                            0 <= a < self.params@.len() && 0 <= b < self.params@.len() && a != b implies self.params@[a].0
                            != self.params@[b].0 by {
                            assert(self.params@[a].0 == old(self).params@[a].0);
                            assert(self.params@[b].0 == old(self).params@[b].0);
                        }
                    }
                }
                Ok(())
            },
            None => Err(ConfigError::StepNotConfigured { step }),
        }
    }

    /// Sets one parameter of a stage; the stage must have a table.
    pub fn add_param_value(&mut self, step: PipelineStep, key: String, value: ParamValue) -> (r:
        Result<(), ConfigError>)
        requires
            old(self).wf(),
        ensures
            final(self).wf(),
            !old(self).configured(step) ==> (r matches Err(ConfigError::StepNotConfigured { step: s })
                && s == step && *final(self) == *old(self)),
            old(self).configured(step) ==> r is Ok && final(self).params@.len()
                == old(self).params@.len() && final(self).params@[old(self).slot(step)].0 == step
                && final(self).params@[old(self).slot(step)].1@ == crate::params::insert_spec(
                old(self).table(step),
                key@,
                value,
            ) && forall|j: int|
                0 <= j < old(self).params@.len() && j != old(self).slot(step) ==> final(self).params@[j] == old(self).params@[j],
            final(self).metadata == old(self).metadata,
            final(self).packages == old(self).packages,
            final(self).global == old(self).global,
            final(self).steps == old(self).steps,
    {
        match self.find_slot(step) {
            Some(i) => {
                let (s, mut table) = self.params.remove(i);
                assert(table.wf());
                table.insert(key, value);
                self.params.insert(i, (s, table));
                proof {
                    assert forall|j: int| 0 <= j < self.params@.len() && j != i implies self.params@[j] == old(self).params@[j] by {}
                    assert(self.wf()) by {
                        assert forall|a: int| 0 <= a < self.params@.len() implies (#[trigger] self.params@[a]).1.wf() by {
                            if a != i {
                                assert(self.params@[a] == old(self).params@[a]);
                            }
                        }
                        assert forall|a: int, b: int|
                            0 <= a < self.params@.len() && 0 <= b < self.params@.len() && a != b implies self.params@[a].0
                            != self.params@[b].0 by {
                            assert(self.params@[a].0 == old(self).params@[a].0);
                            assert(self.params@[b].0 == old(self).params@[b].0);
                        }
                    }
                }
                Ok(())
            },
            None => Err(ConfigError::StepNotConfigured { step }),
        }
    }
}

impl Default for Config {
    fn default() -> (r: Self)
        ensures
            r.wf(),
            r.metadata@.len() == 0,
            r.packages@.len() == 0,
            r.global@.len() == 0,
            r.steps@.len() == 0,
            r.params@.len() == 0,
    {
        Config::new()
    }
}

/// After `aware`, the active list is the selection, every manifest entry left
/// is needed by a selected stage, and every per-stage table left belongs to a
/// selected stage.
pub proof fn lemma_aware_no_orphans(old: Config, new: Config, sel: Seq<PipelineStep>)
    requires
        aware_of(old, new, sel),
    ensures
        new.steps@ == sel,
        forall|i: int| 0 <= i < new.packages@.len() ==> package_needed(sel, #[trigger] new.packages@[i].0),
        forall|i: int| 0 <= i < new.params@.len() ==> sel.contains(#[trigger] new.params@[i].0),
{
    let kept = kept_packages(old.packages@, sel);
    let p = needed_entry(sel);
    reveal_strlit("pbccs");
    reveal_strlit("pbindex");
    reveal_strlit("isoseq");
    reveal_strlit("isotools");
    assert("pbccs"@.len() == 5 && "pbindex"@.len() == 7 && "isoseq"@.len() == 6
        && "isotools"@.len() == 8);
    broadcast use vstd::seq_lib::group_filter_ensures;
    old.packages@.filter_lemma(p);
    old.params@.filter_lemma(active_entry(sel));
    assert forall|i: int| 0 <= i < new.packages@.len() implies package_needed(sel, #[trigger] new.packages@[i].0) by {
        if has_key(kept, "pbccs"@) && !has_key(kept, "pbindex"@) {
            if i < kept.len() {
                assert(new.packages@[i] == new.packages@.take(kept.len() as int)[i]);
                assert(p(kept[i]));
            } else {
                let j = choose|j: int| 0 <= j < kept.len() && (#[trigger] kept[j]).0 == "pbccs"@;
                assert(p(kept[j]));
                let s = choose|s: int| 0 <= s < sel.len() && requires_package(#[trigger] sel[s], "pbccs"@);
                assert(requires_package(sel[s], "pbindex"@));
            }
        } else {
            assert(p(kept[i]));
        }
    }
    assert forall|i: int| 0 <= i < new.params@.len() implies sel.contains(#[trigger] new.params@[i].0) by {
        assert(active_entry(sel)(kept_params(old.params@, sel)[i]));
    }
}

} // verus!
