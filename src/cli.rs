//! Command-line request types and the resolution of a step-range request
//! into an ordered, duplicate-free list of stages.

use vstd::prelude::*;
use crate::executor::ParallelManager;
use crate::step::{catalog, step_named, PipelineStep, CATALOG_LEN};
use crate::text::{parse_usize, parse_usize_spec};

verus! {

/// Which part of a selection request a token came from.
#[derive(Clone, Copy, Debug, PartialEq, Eq, Structural)]
pub enum Field {
    From,
    To,
    Only,
    Skip,
}

/// Why a selection request was rejected.
#[derive(Clone, Debug)]
pub enum SelectionError {
    /// The token is neither a stage index nor a stage name.
    InvalidStep { token: String },
    /// The token is an index above the last stage.
    OutOfRange { field: Field },
    /// `from` comes after `to`.
    InvertedRange,
    /// `from` and `to` name the same stage.
    EqualBounds,
    /// Skipping left nothing to run.
    EmptySelection,
}

/// The abstract content of a `SelectionError`.
pub enum SelectionFault {
    InvalidStep(Seq<char>),
    OutOfRange(Field),
    InvertedRange,
    EqualBounds,
    EmptySelection,
}

impl View for SelectionError {
    type V = SelectionFault;

    open spec fn view(&self) -> SelectionFault {
        match self {
            SelectionError::InvalidStep { token } => SelectionFault::InvalidStep(token@),
            SelectionError::OutOfRange { field } => SelectionFault::OutOfRange(*field),
            SelectionError::InvertedRange => SelectionFault::InvertedRange,
            SelectionError::EqualBounds => SelectionFault::EqualBounds,
            SelectionError::EmptySelection => SelectionFault::EmptySelection,
        }
    }
}

/// A whole command line: the command and the backend to dispatch to.
#[derive(Clone, Debug)]
pub struct Args {
    pub command: SubArgs,
    pub manager: ParallelManager,
}

/// The commands.
#[derive(Clone, Debug)]
pub enum SubArgs {
    /// Run every stage.
    Run { args: RunArgs },
    /// Run a selection of stages.
    Step { args: StepArgs },
    /// Write the commands of some stages to a script.
    Write { args: WriteArgs },
}

/// Arguments of the `run` command.
#[derive(Clone, Debug)]
pub struct RunArgs {
    pub config: String,
}

/// Arguments of the `run-step` command: a range `from..=to` with optional
/// skips, or an explicit `only` list.
#[derive(Clone, Debug)]
pub struct StepArgs {
    pub config: String,
    pub from: String,
    pub to: String,
    pub only: Option<Vec<String>>,
    pub skip: Option<Vec<String>>,
    pub dry_run: bool,
    pub verbose: bool,
    pub quiet: bool,
}

/// Arguments of the `write` command.
#[derive(Clone, Debug)]
pub struct WriteArgs {
    pub config: String,
    pub cmd: Vec<String>,
}

/// The characters of each string.
pub open spec fn texts(v: Seq<String>) -> Seq<Seq<char>> {
    v.map_values(|s: String| s@)
}

/// The stage index a token denotes: an integer is taken as an index, anything
/// else as a stage name.
pub open spec fn token_index(t: Seq<char>, field: Field) -> Result<int, SelectionFault> {
    match parse_usize_spec(t) {
        Some(n) => if n == 0 {
            Err(SelectionFault::InvalidStep(t))
        } else if n > 7 {
            Err(SelectionFault::OutOfRange(field))
        } else {
            Ok(n as int)
        },
        None => match step_named(t) {
            Some(s) => Ok(s.index()),
            None => Err(SelectionFault::InvalidStep(t)),
        },
    }
}

/// Indices of a token list, in order; the first bad token gives the fault.
pub open spec fn token_indices(ts: Seq<Seq<char>>, field: Field) -> Result<Seq<int>, SelectionFault>
    decreases ts.len(),
{
    if ts.len() == 0 {
        Ok(Seq::empty())
    } else {
        match token_indices(ts.drop_last(), field) {
            Err(f) => Err(f),
            Ok(v) => match token_index(ts.last(), field) {
                Err(f) => Err(f),
                Ok(n) => Ok(v.push(n)),
            },
        }
    }
}

pub open spec fn index_listed(ix: Seq<int>) -> spec_fn(PipelineStep) -> bool {
    |s: PipelineStep| ix.contains(s.index())
}

pub open spec fn index_within(a: int, b: int, skip: Seq<int>) -> spec_fn(PipelineStep) -> bool {
    |s: PipelineStep| a <= s.index() <= b && !skip.contains(s.index())
}

/// The stages whose index is listed, in catalog order.
pub open spec fn steps_listed(ix: Seq<int>) -> Seq<PipelineStep> {
    catalog().filter(index_listed(ix))
}

/// The stages with index in `a..=b` and not skipped, in catalog order.
pub open spec fn steps_within(a: int, b: int, skip: Seq<int>) -> Seq<PipelineStep> {
    catalog().filter(index_within(a, b, skip))
}

/// What a selection request resolves to. With `only`, the range and the skips
/// are ignored. Otherwise both bounds must resolve, `from` must come strictly
/// before `to`, and something must remain after skipping.
pub open spec fn selection(
    from: Seq<char>,
    to: Seq<char>,
    only: Option<Seq<Seq<char>>>,
    skip: Option<Seq<Seq<char>>>,
) -> Result<Seq<PipelineStep>, SelectionFault> {
    match only {
        Some(list) => match token_indices(list, Field::Only) {
            Err(f) => Err(f),
            Ok(ix) => Ok(steps_listed(ix)),
        },
        None => match token_index(from, Field::From) {
            Err(f) => Err(f),
            Ok(a) => match token_index(to, Field::To) {
                Err(f) => Err(f),
                Ok(b) => if a > b {
                    Err(SelectionFault::InvertedRange)
                } else if a == b {
                    Err(SelectionFault::EqualBounds)
                } else {
                    let skips = match skip {
                        Some(list) => token_indices(list, Field::Skip),
                        None => Ok(Seq::empty()),
                    };
                    match skips {
                        Err(f) => Err(f),
                        Ok(sk) => if steps_within(a, b, sk).len() == 0 {
                            Err(SelectionFault::EmptySelection)
                        } else {
                            Ok(steps_within(a, b, sk))
                        },
                    }
                },
            },
        },
    }
}

pub open spec fn opt_texts(v: Option<Vec<String>>) -> Option<Seq<Seq<char>>> {
    match v {
        Some(list) => Some(texts(list@)),
        None => None,
    }
}

impl StepArgs {
    /// What this request resolves to.
    pub open spec fn selection(&self) -> Result<Seq<PipelineStep>, SelectionFault> {
        selection(self.from@, self.to@, opt_texts(self.only), opt_texts(self.skip))
    }

    /// Resolves the request into the stages to run, ascending by index and
    /// without duplicates.
    pub fn abs_steps(&self) -> (r: Result<Vec<PipelineStep>, SelectionError>)
        ensures
            match self.selection() {
                Ok(steps) => r matches Ok(v) && v@ == steps,
                Err(f) => r matches Err(e) && e@ == f,
            },
    {
        if let Some(only) = &self.only {
            let ix = resolve_tokens(only, Field::Only)?;
            return Ok(collect_listed(&ix));
        }
        let a = resolve_token(&self.from, Field::From)?;
        let b = resolve_token(&self.to, Field::To)?;
        if a > b {
            return Err(SelectionError::InvertedRange);
        } else if a == b {
            return Err(SelectionError::EqualBounds);
        }
        let skips: Vec<usize> = match &self.skip {
            Some(list) => resolve_tokens(list, Field::Skip)?,
            None => {
                let v: Vec<usize> = Vec::new();
                assert(ints(v@) =~= Seq::<int>::empty());
                v
            },
        };
        let steps = collect_within(a, b, &skips);
        if steps.len() == 0 {
            return Err(SelectionError::EmptySelection);
        }
        Ok(steps)
    }
}

/// Whether a selection is the entire catalog, in order.
pub fn selects_whole_catalog(steps: &Vec<PipelineStep>) -> (r: bool)
    ensures
        r == (steps@ == catalog()),
{
    if steps.len() != CATALOG_LEN {
        return false;
    }
    let mut i: usize = 0;
    while i < steps.len()
        invariant
            steps@.len() == 7,
            i <= 7,
            forall|j: int| 0 <= j < i ==> steps@[j] == catalog()[j],
        decreases 7 - i,
    {
        let want = PipelineStep::from_int(i + 1);
        match want {
            Ok(s) => {
                if steps[i] != s {
                    return false;
                }
            },
            Err(_) => {
                return false;
            },
        }
        i = i + 1;
    }
    assert(steps@ =~= catalog());
    true
}

pub open spec fn ints(v: Seq<usize>) -> Seq<int> {
    v.map_values(|x: usize| x as int)
}

fn resolve_token(t: &String, field: Field) -> (r: Result<usize, SelectionError>)
    ensures
        match token_index(t@, field) {
            Ok(n) => r == Ok::<usize, SelectionError>(n as usize),
            Err(f) => r matches Err(e) && e@ == f,
        },
{
    match parse_usize(t.as_str()) {
        Some(n) => {
            if n == 0 {
                Err(SelectionError::InvalidStep { token: t.clone() })
            } else if n > CATALOG_LEN {
                Err(SelectionError::OutOfRange { field })
            } else {
                Ok(n)
            }
        },
        None => match PipelineStep::from_str(t.as_str()) {
            Ok(s) => Ok(s.to_int()),
            Err(_) => Err(SelectionError::InvalidStep { token: t.clone() }),
        },
    }
}

proof fn lemma_fault_persists(ts: Seq<Seq<char>>, k: int, field: Field)
    requires
        0 <= k <= ts.len(),
        token_indices(ts.take(k), field) is Err,
    ensures
        token_indices(ts, field) == token_indices(ts.take(k), field),
    decreases ts.len() - k,
{
    if k < ts.len() {
        assert(ts.take(k + 1).drop_last() =~= ts.take(k));
        lemma_fault_persists(ts, k + 1, field);
    } else {
        assert(ts.take(k) =~= ts);
    }
}

fn resolve_tokens(ts: &Vec<String>, field: Field) -> (r: Result<Vec<usize>, SelectionError>)
    ensures
        match token_indices(texts(ts@), field) {
            Ok(ix) => r matches Ok(v) && ints(v@) == ix,
            Err(f) => r matches Err(e) && e@ == f,
        },
{
    let ghost all = texts(ts@);
    let mut out: Vec<usize> = Vec::new();
    let mut i: usize = 0;
    assert(all.take(0) =~= Seq::<Seq<char>>::empty());
    assert(ints(out@) =~= Seq::<int>::empty());
    while i < ts.len()
        invariant
            i <= ts@.len(),
            all == texts(ts@),
            token_indices(all.take(i as int), field) == Ok::<Seq<int>, SelectionFault>(
                ints(out@),
            ),
        decreases ts@.len() - i,
    {
        assert(all.take(i + 1).drop_last() =~= all.take(i as int));
        assert(all.take(i + 1).last() == ts@[i as int]@);
        match resolve_token(&ts[i], field) {
            Ok(n) => {
                let ghost before = out@;
                out.push(n);
                assert(ints(out@) =~= ints(before).push(n as int));
            },
            Err(e) => {
                proof {
                    lemma_fault_persists(all, i + 1, field);
                    assert(all.take(ts@.len() as int) =~= all);
                }
                return Err(e);
            },
        }
        i = i + 1;
    }
    assert(all.take(ts@.len() as int) =~= all);
    Ok(out)
}

fn contains_index(v: &Vec<usize>, x: usize) -> (r: bool)
    ensures
        r == ints(v@).contains(x as int),
{
    let mut i: usize = 0;
    while i < v.len()
        invariant
            i <= v@.len(),
            forall|j: int| 0 <= j < i ==> v@[j] != x,
        decreases v@.len() - i,
    {
        if v[i] == x {
            assert(ints(v@)[i as int] == x as int);
            return true;
        }
        i = i + 1;
    }
    assert(!ints(v@).contains(x as int)) by {
        if ints(v@).contains(x as int) {
            let j = choose|j: int| 0 <= j < ints(v@).len() && ints(v@)[j] == x as int;
            assert(v@[j] == x);
        }
    }
    false
}

fn collect_listed(ix: &Vec<usize>) -> (r: Vec<PipelineStep>)
    ensures
        r@ == steps_listed(ints(ix@)),
{
    let ghost p = index_listed(ints(ix@));
    let mut out: Vec<PipelineStep> = Vec::new();
    let mut i: usize = 1;
    assert(catalog().take(0) =~= Seq::<PipelineStep>::empty());
    proof {
        reveal(Seq::filter);
    }
    while i <= CATALOG_LEN
        invariant
            1 <= i <= 8,
            p == index_listed(ints(ix@)),
            out@ == catalog().take(i - 1).filter(p),
        decreases 8 - i,
    {
        let step = match PipelineStep::from_int(i) {
            Ok(s) => s,
            Err(_) => {
                assert(false);
                PipelineStep::Ccs
            },
        };
        proof {
            assert(catalog().take(i as int) =~= catalog().take(i - 1).push(step));
            catalog().take(i - 1).lemma_filter_push(step, p);
        }
        if contains_index(ix, i) {
            out.push(step);
        }
        i = i + 1;
    }
    assert(catalog().take(7) =~= catalog());
    out
}

fn collect_within(a: usize, b: usize, skip: &Vec<usize>) -> (r: Vec<PipelineStep>)
    ensures
        r@ == steps_within(a as int, b as int, ints(skip@)),
{
    let ghost p = index_within(a as int, b as int, ints(skip@));
    let mut out: Vec<PipelineStep> = Vec::new();
    let mut i: usize = 1;
    assert(catalog().take(0) =~= Seq::<PipelineStep>::empty());
    proof {
        reveal(Seq::filter);
    }
    while i <= CATALOG_LEN
        invariant
            1 <= i <= 8,
            p == index_within(a as int, b as int, ints(skip@)),
            out@ == catalog().take(i - 1).filter(p),
        decreases 8 - i,
    {
        let step = match PipelineStep::from_int(i) {
            Ok(s) => s,
            Err(_) => {
                assert(false);
                PipelineStep::Ccs
            },
        };
        proof {
            assert(catalog().take(i as int) =~= catalog().take(i - 1).push(step));
            catalog().take(i - 1).lemma_filter_push(step, p);
        }
        if a <= i && i <= b && !contains_index(skip, i) {
            out.push(step);
        }
        i = i + 1;
    }
    assert(catalog().take(7) =~= catalog());
    out
}

/// Strictly ascending by catalog index (hence free of duplicates).
pub open spec fn ascending(s: Seq<PipelineStep>) -> bool {
    forall|i: int, j: int| 0 <= i < j < s.len() ==> s[i].index() < s[j].index()
}

proof fn lemma_catalog_ascending()
    ensures
        ascending(catalog()),
{
}

proof fn lemma_filter_ascending(s: Seq<PipelineStep>, p: spec_fn(PipelineStep) -> bool)
    requires
        ascending(s),
    ensures
        ascending(s.filter(p)),
    decreases s.len(),
{
    reveal(Seq::filter);
    if s.len() > 0 {
        let init = s.drop_last();
        lemma_filter_ascending(init, p);
        let f = init.filter(p);
        assert forall|i: int| 0 <= i < f.len() implies f[i].index() < s.last().index() by {
            assert(f.contains(f[i]));
            init.lemma_filter_contains_rev(p, f[i]);
            let k = choose|k: int| 0 <= k < init.len() && init[k] == f[i];
            assert(s[k] == f[i]);
        }
        if p(s.last()) {
            assert(s.filter(p) == f.push(s.last()));
        }
    }
}

/// Every stage is in the catalog, at the position its index gives.
proof fn lemma_in_catalog(s: PipelineStep)
    ensures
        1 <= s.index() <= 7,
        catalog()[s.index() - 1] == s,
        catalog().contains(s),
{
    assert(catalog()[s.index() - 1] == s);
}

/// The stages of the catalog that a predicate keeps are exactly those for
/// which it holds.
proof fn lemma_catalog_filter_members(p: spec_fn(PipelineStep) -> bool, s: PipelineStep)
    ensures
        catalog().filter(p).contains(s) <==> p(s),
{
    catalog().filter_lemma(p);
    lemma_in_catalog(s);
    if catalog().filter(p).contains(s) {
        let i = choose|i: int| 0 <= i < catalog().filter(p).len() && catalog().filter(p)[i] == s;
        assert(p(catalog().filter(p)[i]));
    }
    if p(s) {
        assert(p(catalog()[s.index() - 1]));
    }
}

proof fn lemma_token_in_catalog(t: Seq<char>, field: Field)
    ensures
        token_index(t, field) matches Ok(n) ==> 1 <= n <= 7,
{
    if let Some(s) = step_named(t) {
        lemma_in_catalog(s);
    }
}

/// A range request `from < to` without skips selects exactly the stages with
/// index in `from..=to`, ascending and without duplicates.
pub proof fn lemma_range_request(from: Seq<char>, to: Seq<char>, a: int, b: int)
    requires
        token_index(from, Field::From) == Ok::<int, SelectionFault>(a),
        token_index(to, Field::To) == Ok::<int, SelectionFault>(b),
        a < b,
    ensures
        selection(from, to, None, None) matches Ok(steps) && ascending(steps) && forall|
            s: PipelineStep,
        | #[trigger] steps.contains(s) <==> a <= s.index() <= b,
{
    let p = index_within(a, b, Seq::empty());
    lemma_token_in_catalog(from, Field::From);
    let first = catalog()[a - 1];
    lemma_in_catalog(first);
    lemma_catalog_filter_members(p, first);
    assert(first.index() == a);
    assert(steps_within(a, b, Seq::empty()).len() > 0);
    lemma_catalog_ascending();
    lemma_filter_ascending(catalog(), p);
    assert forall|s: PipelineStep| #[trigger]
        steps_within(a, b, Seq::empty()).contains(s) <==> a <= s.index() <= b by {
        lemma_catalog_filter_members(p, s);
    }
}

/// A range whose two bounds denote the same stage is always rejected.
pub proof fn lemma_equal_bounds_rejected(
    from: Seq<char>,
    to: Seq<char>,
    a: int,
    skip: Option<Seq<Seq<char>>>,
)
    requires
        token_index(from, Field::From) == Ok::<int, SelectionFault>(a),
        token_index(to, Field::To) == Ok::<int, SelectionFault>(a),
    ensures
        selection(from, to, None, skip) == Err::<Seq<PipelineStep>, SelectionFault>(
            SelectionFault::EqualBounds,
        ),
{
}

/// An `only` list makes the bounds and the skips irrelevant.
pub proof fn lemma_only_ignores_range(
    list: Seq<Seq<char>>,
    from1: Seq<char>,
    to1: Seq<char>,
    skip1: Option<Seq<Seq<char>>>,
    from2: Seq<char>,
    to2: Seq<char>,
    skip2: Option<Seq<Seq<char>>>,
)
    ensures
        selection(from1, to1, Some(list), skip1) == selection(from2, to2, Some(list), skip2),
{
}

/// `only = [x, y]` selects exactly the stages `x` and `y`, in catalog order
/// whatever their order in the list, and whatever the bounds say.
pub proof fn lemma_only_pair(
    x: Seq<char>,
    y: Seq<char>,
    i: int,
    j: int,
    from: Seq<char>,
    to: Seq<char>,
    skip: Option<Seq<Seq<char>>>,
)
    requires
        token_index(x, Field::Only) == Ok::<int, SelectionFault>(i),
        token_index(y, Field::Only) == Ok::<int, SelectionFault>(j),
    ensures
        selection(from, to, Some(seq![x, y]), skip) matches Ok(steps) && ascending(steps) && forall|
            s: PipelineStep,
        | #[trigger] steps.contains(s) <==> (s.index() == i || s.index() == j),
{
    let list = seq![x, y];
    assert(list.drop_last() =~= seq![x]);
    assert(seq![x].drop_last() =~= Seq::<Seq<char>>::empty());
    let ix = seq![i, j];
    assert(token_indices(seq![x], Field::Only) == Ok::<Seq<int>, SelectionFault>(seq![i])) by {
        assert(seq![x].last() == x);
        assert(token_indices(Seq::<Seq<char>>::empty(), Field::Only) == Ok::<
            Seq<int>,
            SelectionFault,
        >(Seq::<int>::empty()));
        assert(Seq::<int>::empty().push(i) =~= seq![i]);
    }
    assert(token_indices(list, Field::Only) == Ok::<Seq<int>, SelectionFault>(ix)) by {
        assert(list.last() == y);
        assert(seq![i].push(j) =~= ix);
    }
    let p = index_listed(ix);
    lemma_catalog_ascending();
    lemma_filter_ascending(catalog(), p);
    assert forall|s: PipelineStep| #[trigger]
        steps_listed(ix).contains(s) <==> (s.index() == i || s.index() == j) by {
        lemma_catalog_filter_members(p, s);
        if s.index() == i {
            assert(ix[0] == i);
        }
        if s.index() == j {
            assert(ix[1] == j);
        }
    }
}

/// Skipping every stage of a valid range leaves nothing, which is rejected.
pub proof fn lemma_full_skip_rejected(
    from: Seq<char>,
    to: Seq<char>,
    a: int,
    b: int,
    skip: Seq<Seq<char>>,
    sk: Seq<int>,
)
    requires
        token_index(from, Field::From) == Ok::<int, SelectionFault>(a),
        token_index(to, Field::To) == Ok::<int, SelectionFault>(b),
        a < b,
        token_indices(skip, Field::Skip) == Ok::<Seq<int>, SelectionFault>(sk),
        forall|k: int| a <= k <= b ==> #[trigger] sk.contains(k),
    ensures
        selection(from, to, None, Some(skip)) == Err::<Seq<PipelineStep>, SelectionFault>(
            SelectionFault::EmptySelection,
        ),
{
    let p = index_within(a, b, sk);
    let f = catalog().filter(p);
    catalog().filter_lemma(p);
    if f.len() > 0 {
        assert(p(f[0]));
        assert(sk.contains(f[0].index()));
    }
}

} // verus!
