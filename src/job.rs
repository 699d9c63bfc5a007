//! A job: one external command line, built by appending to it.

use vstd::prelude::*;
use crate::step::PipelineStep;

verus! {

/// One command line to be run by a backend.
#[derive(Clone, Debug)]
pub struct Job {
    pub cmd: String,
}

/// The tool invocation a stage's jobs start with; empty for stages whose
/// command lines are composed in full by their stage.
pub open spec fn task_command(step: PipelineStep) -> Seq<char> {
    match step {
        PipelineStep::Ccs => "ccs"@,
        PipelineStep::Lima => "lima"@,
        PipelineStep::Refine => "isoseq refine"@,
        PipelineStep::Cluster => "isoseq cluster"@,
        PipelineStep::Minimap => "minimap2"@,
        PipelineStep::Polya => ""@,
        PipelineStep::LoadGenome => ""@,
    }
}

/// Each argument preceded by a single space.
pub open spec fn spaced(args: Seq<Seq<char>>) -> Seq<char>
    decreases args.len(),
{
    if args.len() == 0 {
        Seq::empty()
    } else {
        spaced(args.drop_last()) + " "@ + args.last()
    }
}

impl Job {
    /// An empty command line.
    pub fn new() -> (r: Self)
        ensures
            r.cmd@ == Seq::<char>::empty(),
    {
        Job { cmd: String::new() }
    }

    /// A job for a command line composed elsewhere.
    pub fn from(cmd: String) -> (r: Self)
        ensures
            r.cmd == cmd,
    {
        Job { cmd }
    }

    /// Appends the stage's tool invocation.
    pub fn task(self, step: PipelineStep) -> (r: Self)
        ensures
            r.cmd@ == self.cmd@ + task_command(step),
    {
        let mut cmd = self.cmd;
        let t = match step {
            PipelineStep::Ccs => "ccs",
            PipelineStep::Lima => "lima",
            PipelineStep::Refine => "isoseq refine",
            PipelineStep::Cluster => "isoseq cluster",
            PipelineStep::Minimap => "minimap2",
            PipelineStep::Polya => "",
            PipelineStep::LoadGenome => "",
        };
        cmd.append(t);
        Job { cmd }
    }

    /// Appends a space and one argument.
    pub fn arg(self, arg: &str) -> (r: Self)
        ensures
            r.cmd@ == self.cmd@ + " "@ + arg@,
    {
        let mut cmd = self.cmd;
        cmd.append(" ");
        cmd.append(arg);
        Job { cmd }
    }

    /// Appends each argument after a space.
    pub fn args(self, args: &[&str]) -> (r: Self)
        ensures
            r.cmd@ == self.cmd@ + spaced(args@.map_values(|a: &str| a@)),
    {
        let ghost texts = args@.map_values(|a: &str| a@);
        let ghost start = self.cmd@;
        let mut cmd = self.cmd;
        let mut i: usize = 0;
        assert(texts.take(0) =~= Seq::<Seq<char>>::empty());
        assert(cmd@ =~= start + spaced(texts.take(0)));
        while i < args.len()
            invariant
                i <= args@.len(),
                texts == args@.map_values(|a: &str| a@),
                cmd@ == start + spaced(texts.take(i as int)),
            decreases args@.len() - i,
        {
            cmd.append(" ");
            cmd.append(args[i]);
            proof {
                let t = texts.take(i + 1);
                assert(t.drop_last() =~= texts.take(i as int));
                assert(t.last() == args@[i as int]@);
                assert(cmd@ =~= start + spaced(t));
            }
            i = i + 1;
        }
        assert(texts.take(args@.len() as int) =~= texts);
        Job { cmd }
    }

    /// The command line.
    pub fn cmd(&self) -> (r: &str)
        ensures
            r@ == self.cmd@,
    {
        self.cmd.as_str()
    }
}

} // verus!
