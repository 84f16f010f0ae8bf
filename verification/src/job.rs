//! What a run is asked to do: the arguments of the command line, and the
//! jobs that follow from them.

use std::collections::VecDeque;
use vstd::prelude::*;
use crate::text::same_text;

verus! {

/// How the bytes of a source file are to be read.
#[derive(Debug, Clone, Copy, PartialEq, Eq, Structural)]
pub enum Encoding {
    Utf8,
}

/// The arguments of the command line.
#[derive(Debug, Clone)]
pub struct Args {
    pub cmd_build: bool,
    pub cmd_run: bool,
    pub cmd_raw: bool,
    pub arg_file: Vec<String>,
    pub arg_analyze: Vec<String>,
    pub flag_check: bool,
    pub flag_pass_through: bool,
    pub flag_run: bool,
    pub flag_verbose: bool,
    pub flag_version: bool,
    pub flag_lossy_decoding: bool,
    pub flag_encoding: Encoding,
}

/// An analysis that can be asked for.
#[derive(Debug, Clone, Copy, PartialEq, Eq, Structural)]
pub enum AnalyzePass {
    Style,
}

/// One step of a run.
#[derive(Debug, Clone, PartialEq, Eq)]
pub enum JobType {
    /// Check the files for errors of the language.
    Check,
    /// Run the analyses named.
    Analyze { passes: VecDeque<AnalyzePass> },
    /// Hand the files to `javac`.
    PassThrough,
    /// Run the compiled files with `java`.
    Run,
}

/// The mathematical value of a `JobType`.
pub enum JobTypeView {
    Check,
    Analyze { passes: Seq<AnalyzePass> },
    PassThrough,
    Run,
}

impl View for JobType {
    type V = JobTypeView;

    open spec fn view(&self) -> JobTypeView {
        match *self {
            JobType::Check => JobTypeView::Check,
            JobType::Analyze { passes } => JobTypeView::Analyze { passes: passes@ },
            JobType::PassThrough => JobTypeView::PassThrough,
            JobType::Run => JobTypeView::Run,
        }
    }
}

/// A run: its steps in their order, and the files it works on.
#[derive(Debug, Clone)]
pub struct Job {
    pub sub_jobs: VecDeque<JobType>,
    pub files: Vec<String>,
    pub verbose: bool,
    pub lossy_decoding: bool,
    pub encoding: Encoding,
}

/// Why no job follows from the arguments.
#[derive(Debug, Clone, PartialEq, Eq)]
pub enum JobError {
    /// There is no file to work on.
    NoFiles,
    /// These names were given as analyses, and none of them is one.
    InvalidPasses(Vec<String>),
    /// The files are to be run without having been compiled.
    RunWithoutPassThrough,
}

/// The texts of a list of strings.
pub open spec fn texts(v: Seq<String>) -> Seq<Seq<char>> {
    v.map_values(|s: String| s@)
}

/// The values of a list of steps.
pub open spec fn steps(v: Seq<JobType>) -> Seq<JobTypeView> {
    v.map_values(|j: JobType| j@)
}

/// The analysis that `name` names.
pub open spec fn pass_of(name: Seq<char>) -> Option<AnalyzePass> {
    if name == "style"@ {
        Some(AnalyzePass::Style)
    } else {
        None
    }
}

/// The analyses that the names name, in their order; a name that names
/// none is left out.
pub open spec fn passes_of(names: Seq<Seq<char>>) -> Seq<AnalyzePass>
    decreases names.len(),
{
    if names.len() == 0 {
        Seq::empty()
    } else {
        match pass_of(names.last()) {
            Some(p) => passes_of(names.drop_last()).push(p),
            None => passes_of(names.drop_last()),
        }
    }
}

/// The names that name no analysis, in their order.
pub open spec fn invalid_names(names: Seq<Seq<char>>) -> Seq<Seq<char>>
    decreases names.len(),
{
    if names.len() == 0 {
        Seq::empty()
    } else if pass_of(names.last()) is None {
        invalid_names(names.drop_last()).push(names.last())
    } else {
        invalid_names(names.drop_last())
    }
}

/// What the arguments say, as far as the jobs depend on it.
pub struct Wish {
    pub build: bool,
    pub run: bool,
    pub raw: bool,
    pub check: bool,
    pub pass_through: bool,
    pub run_flag: bool,
    pub analyze: Seq<Seq<char>>,
}

impl Args {
    /// What the arguments say, as far as the jobs depend on it.
    pub open spec fn wish(&self) -> Wish {
        Wish {
            build: self.cmd_build,
            run: self.cmd_run,
            raw: self.cmd_raw,
            check: self.flag_check,
            pass_through: self.flag_pass_through,
            run_flag: self.flag_run,
            analyze: texts(self.arg_analyze@),
        }
    }
}

impl Wish {
    /// Whether no command was given.
    pub open spec fn no_cmd(self) -> bool {
        !(self.build || self.run || self.raw)
    }

    /// Whether the files are to be checked: where that is asked for, where
    /// an analysis is asked for, and with every command but `raw`.
    pub open spec fn checks(self) -> bool {
        self.check || self.analyze.len() > 0 || self.run || self.build || self.no_cmd()
    }

    /// Whether analyses are run.
    pub open spec fn analyzes(self) -> bool {
        self.analyze.len() > 0 || self.run || self.build || self.no_cmd()
    }

    /// The names of the analyses to run: those asked for, and `style` with
    /// the commands `build` and `run`.
    pub open spec fn analyses(self) -> Seq<Seq<char>> {
        if self.run || self.build {
            self.analyze.push("style"@)
        } else {
            self.analyze
        }
    }

    /// Whether the files are handed to `javac`.
    pub open spec fn passes_through(self) -> bool {
        self.pass_through || self.run || self.build
    }

    /// Whether the compiled files are run.
    pub open spec fn runs(self) -> bool {
        self.run_flag || self.run
    }

    /// The steps of the run, if the arguments allow one: the check, the
    /// analyses, the compiler and the run, each where it is wanted.
    pub open spec fn plan(self) -> Result<Seq<JobTypeView>, Seq<Seq<char>>> {
        let a = if self.checks() {
            seq![JobTypeView::Check]
        } else {
            Seq::empty()
        };
        let b = if self.analyzes() {
            a.push(JobTypeView::Analyze { passes: passes_of(self.analyses()) })
        } else {
            a
        };
        let c = if self.passes_through() {
            b.push(JobTypeView::PassThrough)
        } else {
            b
        };
        let d = if self.runs() {
            c.push(JobTypeView::Run)
        } else {
            c
        };
        if self.analyzes() && invalid_names(self.analyses()).len() > 0 {
            Err(invalid_names(self.analyses()))
        } else {
            Ok(d)
        }
    }
}

impl Job {
    /// Adds the directory `.` to the files of the arguments where a command
    /// was given without a file.
    pub fn default_files(args: &mut Args)
        ensures
            final(args).wish() == old(args).wish(),
            final(args).flag_verbose == old(args).flag_verbose,
            final(args).flag_lossy_decoding == old(args).flag_lossy_decoding,
            final(args).flag_encoding == old(args).flag_encoding,
            texts(final(args).arg_file@) == if !old(args).wish().no_cmd() && old(
                args,
            ).arg_file@.len() == 0 {
                seq!["."@]
            } else {
                texts(old(args).arg_file@)
            },
    {
        if (args.cmd_build || args.cmd_run || args.cmd_raw) && args.arg_file.len() == 0 {
            let dot = ".".to_owned();
            args.arg_file.push(dot);
        }
    }

    /// The analyses that the names name, or the names that name none.
    fn passes(names: &Vec<String>) -> (r: Result<VecDeque<AnalyzePass>, Vec<String>>)
        ensures
            match r {
                Ok(p) => invalid_names(texts(names@)).len() == 0 && p@ == passes_of(
                    texts(names@),
                ),
                Err(bad) => texts(bad@) == invalid_names(texts(names@)) && bad@.len() > 0,
            },
    {
        let ghost all = texts(names@);
        let mut passes: VecDeque<AnalyzePass> = VecDeque::new();
        let mut bad: Vec<String> = Vec::new();
        let mut i: usize = 0;
        while i < names.len()
            invariant
                i <= names.len(),
                all == texts(names@),
                passes@ == passes_of(all.take(i as int)),
                texts(bad@) == invalid_names(all.take(i as int)),
            decreases names.len() - i,
        {
            proof {
                assert(all.take(i + 1).drop_last() =~= all.take(i as int));
            }
            if same_text(names[i].as_str(), "style") {
                passes.push_back(AnalyzePass::Style);
            } else {
                let name = names[i].clone();
                bad.push(name);
            }
            i += 1;
        }
        assert(all.take(i as int) =~= all);
        if bad.len() > 0 {
            Err(bad)
        } else {
            Ok(passes)
        }
    }

    /// The job that the arguments ask for, to be done on `files`.
    ///
    /// There is none without files, none where a name given as analysis
    /// names none, and none that runs the files without compiling them.
    pub fn from_args(args: Args, files: Vec<String>) -> (r: Result<Job, JobError>)
        ensures
            match r {
                Ok(job) => {
                    &&& files@.len() > 0
                    &&& args.wish().plan() == Ok::<Seq<JobTypeView>, Seq<Seq<char>>>(
                        steps(job.sub_jobs@),
                    )
                    &&& !args.wish().runs() || args.wish().passes_through()
                    &&& job.files == files
                    &&& job.verbose == args.flag_verbose
                    &&& job.lossy_decoding == args.flag_lossy_decoding
                    &&& job.encoding == args.flag_encoding
                },
                Err(JobError::NoFiles) => files@.len() == 0,
                Err(JobError::InvalidPasses(bad)) => files@.len() > 0 && args.wish().plan() == Err::<
                    Seq<JobTypeView>,
                    Seq<Seq<char>>,
                >(texts(bad@)),
                Err(JobError::RunWithoutPassThrough) => files@.len() > 0 && args.wish().plan() is Ok
                    && args.wish().runs() && !args.wish().passes_through(),
            },
    {
        if files.len() == 0 {
            return Err(JobError::NoFiles);
        }
        let no_cmd = !(args.cmd_build || args.cmd_run || args.cmd_raw);
        let mut sub_jobs: VecDeque<JobType> = VecDeque::new();
        assert(steps(sub_jobs@) =~= Seq::<JobTypeView>::empty());
        if args.flag_check || args.arg_analyze.len() > 0 || args.cmd_run || args.cmd_build
            || no_cmd {
            sub_jobs.push_back(JobType::Check);
            assert(steps(sub_jobs@) =~= seq![JobTypeView::Check]);
        }
        if args.arg_analyze.len() > 0 || args.cmd_run || args.cmd_build || no_cmd {
            let mut names = args.arg_analyze;
            if args.cmd_run || args.cmd_build {
                let style = "style".to_owned();
                assert(texts(names@.push(style)) =~= texts(names@).push(style@));
                names.push(style);
            }
            match Self::passes(&names) {
                Err(bad) => {
                    return Err(JobError::InvalidPasses(bad));
                },
                Ok(passes) => {
                    let step = JobType::Analyze { passes };
                    assert(steps(sub_jobs@.push(step)) =~= steps(sub_jobs@).push(step@));
                    sub_jobs.push_back(step);
                },
            }
        }
        let compiles = args.flag_pass_through || args.cmd_run || args.cmd_build;
        if compiles {
            assert(steps(sub_jobs@.push(JobType::PassThrough)) =~= steps(sub_jobs@).push(
                JobTypeView::PassThrough,
            ));
            sub_jobs.push_back(JobType::PassThrough);
        }
        if args.flag_run || args.cmd_run {
            if !compiles {
                return Err(JobError::RunWithoutPassThrough);
            }
            assert(steps(sub_jobs@.push(JobType::Run)) =~= steps(sub_jobs@).push(
                JobTypeView::Run,
            ));
            sub_jobs.push_back(JobType::Run);
        }
        Ok(
            Job {
                sub_jobs,
                files,
                verbose: args.flag_verbose,
                lossy_decoding: args.flag_lossy_decoding,
                encoding: args.flag_encoding,
            },
        )
    }
}

} // verus!
