use jswag::analyze::{check_lower_camel_case, check_names, check_upper_camel_case};
use jswag::check::{any_error, check_file, failure_messages, Error as CheckError};
use jswag::diagnostics::{RemarkKind, Report, Severity, Snippet};
use jswag::dispatch::{announce, handle, proceed, Action, Progress};
use jswag::filemap::{FileMap, Span};
use jswag::java::{failure_message, strip_file_ending, Error as JavaError, Tool};
use jswag::job::{AnalyzePass, Args, Encoding, Job, JobError, JobType};
use jswag::style::{Checker, Config, NameStyle, NameType};
use jswag::syntax::ast::Ident;
use jswag::syntax::parse::parse_compilation_unit;
use jswag::ui::{LabelStyle, MessageType, MAX_MESSAGE_LEN};
use std::collections::VecDeque;

fn args() -> Args {
    Args {
        cmd_build: false,
        cmd_run: false,
        cmd_raw: false,
        arg_file: vec![],
        arg_analyze: vec![],
        flag_check: false,
        flag_pass_through: false,
        flag_run: false,
        flag_verbose: false,
        flag_version: false,
        flag_lossy_decoding: false,
        flag_encoding: Encoding::Utf8,
    }
}

fn files() -> Vec<String> {
    vec!["A.java".to_string(), "B.java".to_string()]
}

fn style_passes() -> JobType {
    JobType::Analyze { passes: VecDeque::from(vec![AnalyzePass::Style]) }
}

fn steps(job: &Job) -> Vec<JobType> {
    job.sub_jobs.iter().cloned().collect()
}

#[test]
fn build_checks_analyzes_and_compiles() {
    let job = Job::from_args(Args { cmd_build: true, flag_verbose: true, ..args() }, files()).unwrap();
    assert_eq!(steps(&job), vec![JobType::Check, style_passes(), JobType::PassThrough]);
    assert_eq!(job.files, files());
    assert!(job.verbose);
    assert!(!job.lossy_decoding);
    assert_eq!(job.encoding, Encoding::Utf8);
}

#[test]
fn run_also_runs() {
    let job = Job::from_args(Args { cmd_run: true, flag_lossy_decoding: true, ..args() }, files()).unwrap();
    assert_eq!(
        steps(&job),
        vec![JobType::Check, style_passes(), JobType::PassThrough, JobType::Run]
    );
    assert!(job.lossy_decoding);
}

#[test]
fn without_command_the_files_are_checked() {
    let job = Job::from_args(args(), files()).unwrap();
    assert_eq!(
        steps(&job),
        vec![JobType::Check, JobType::Analyze { passes: VecDeque::new() }]
    );
}

#[test]
fn raw_does_what_the_flags_say() {
    let job = Job::from_args(Args { cmd_raw: true, ..args() }, files()).unwrap();
    assert!(steps(&job).is_empty());
    let job = Job::from_args(Args { cmd_raw: true, flag_pass_through: true, flag_run: true, ..args() }, files()).unwrap();
    assert_eq!(steps(&job), vec![JobType::PassThrough, JobType::Run]);
    let job = Job::from_args(Args { cmd_raw: true, flag_check: true, ..args() }, files()).unwrap();
    assert_eq!(steps(&job), vec![JobType::Check]);
    let job = Job::from_args(
        Args { cmd_raw: true, arg_analyze: vec!["style".into(), "style".into()], ..args() },
        files(),
    )
    .unwrap();
    assert_eq!(
        steps(&job),
        vec![
            JobType::Check,
            JobType::Analyze { passes: VecDeque::from(vec![AnalyzePass::Style, AnalyzePass::Style]) }
        ]
    );
}

#[test]
fn jobs_that_cannot_be() {
    assert_eq!(Job::from_args(Args { cmd_build: true, ..args() }, vec![]).unwrap_err(), JobError::NoFiles);
    assert_eq!(
        Job::from_args(
            Args { cmd_build: true, arg_analyze: vec!["speed".into(), "style".into(), "".into()], ..args() },
            files()
        )
        .unwrap_err(),
        JobError::InvalidPasses(vec!["speed".to_string(), "".to_string()])
    );
    assert_eq!(
        Job::from_args(Args { cmd_raw: true, flag_run: true, ..args() }, files()).unwrap_err(),
        JobError::RunWithoutPassThrough
    );
    // a missing file list is told first, a wrong analysis before a run that cannot be
    assert_eq!(
        Job::from_args(Args { cmd_raw: true, flag_run: true, arg_analyze: vec!["x".into()], ..args() }, vec![])
            .unwrap_err(),
        JobError::NoFiles
    );
    assert_eq!(
        Job::from_args(Args { cmd_raw: true, flag_run: true, arg_analyze: vec!["x".into()], ..args() }, files())
            .unwrap_err(),
        JobError::InvalidPasses(vec!["x".to_string()])
    );
}

#[test]
fn a_command_without_files_works_on_the_directory() {
    let mut a = Args { cmd_build: true, ..args() };
    Job::default_files(&mut a);
    assert_eq!(a.arg_file, vec![".".to_string()]);
    let mut a = Args { cmd_build: true, arg_file: files(), ..args() };
    Job::default_files(&mut a);
    assert_eq!(a.arg_file, files());
    let mut a = args();
    Job::default_files(&mut a);
    assert!(a.arg_file.is_empty());
}

#[test]
fn steps_in_their_order() {
    let job = Job::from_args(Args { cmd_run: true, ..args() }, files()).unwrap();
    assert_eq!(handle(&job, 0, false), Action::Check);
    assert_eq!(handle(&job, 1, true), Action::Analyze);
    assert_eq!(handle(&job, 1, false), Action::FailUnchecked);
    assert_eq!(handle(&job, 2, true), Action::PassThrough);
    assert_eq!(handle(&job, 3, true), Action::Run);
    assert_eq!(handle(&job, 4, true), Action::Done);
    assert_eq!(handle(&job, usize::MAX, false), Action::Done);
}

#[test]
fn a_verbose_job_says_what_it_starts() {
    let quiet = Job::from_args(Args { cmd_run: true, ..args() }, files()).unwrap();
    assert_eq!(announce(&quiet, Action::Check), None);
    let job = Job::from_args(Args { cmd_run: true, flag_verbose: true, ..args() }, files()).unwrap();
    assert_eq!(
        announce(&job, Action::Check).unwrap(),
        "Starting batch checking of 2 file(s) [--check]"
    );
    assert_eq!(
        announce(&job, Action::PassThrough).unwrap(),
        "Starting batch compile of 2 file(s) [--pass-through]"
    );
    assert_eq!(announce(&job, Action::Run).unwrap(), "Starting to run one of 2 file(s) [--run]");
    assert_eq!(announce(&job, Action::Analyze), None);
    assert_eq!(announce(&job, Action::Done), None);
    assert_eq!(announce(&job, Action::FailUnchecked), None);
}

#[test]
fn names_of_classes_in_files() {
    assert_eq!(strip_file_ending("Main.java"), "Main");
    assert_eq!(strip_file_ending("Main.jav"), "Main");
    assert_eq!(strip_file_ending("Main.class"), "Main.class");
    assert_eq!(strip_file_ending("Main"), "Main");
    assert_eq!(strip_file_ending(".java"), "");
    assert_eq!(strip_file_ending("java"), "java");
    assert_eq!(strip_file_ending("a.java.java"), "a.java");
    assert_eq!(strip_file_ending("a.javax"), "a.javax");
    assert_eq!(strip_file_ending("Größe.java"), "Größe");
    assert_eq!(strip_file_ending(""), "");
}

#[test]
fn failures_of_the_tools() {
    assert_eq!(Tool::Javac.name(), "javac");
    assert_eq!(Tool::Java.name(), "java");
    assert_eq!(
        failure_message(Tool::Javac, &JavaError::JavaBinaryNotFound),
        "`javac` was not found on the system. Make sure that `javac` is installed and in your \
         PATH. Aborting."
    );
    assert_eq!(
        failure_message(Tool::Java, &JavaError::JavacFailure("exit status: 1".into())),
        "`java` exited with a non-success status (exit status: 1). Aborting."
    );
    assert_eq!(
        failure_message(Tool::Javac, &JavaError::Io("broken pipe".into())),
        "an IO error occured while executing `javac`: broken pipe. Aborting."
    );
    assert_eq!(JavaError::from_io(true, "x".into()), JavaError::JavaBinaryNotFound);
    assert_eq!(JavaError::from_io(false, "x".into()), JavaError::Io("x".into()));
}

#[test]
fn labels() {
    assert_eq!(MAX_MESSAGE_LEN, 9);
    assert_eq!(MessageType::Error.label(), "Error");
    assert_eq!(MessageType::Error.padding(), "      ");
    assert_eq!(MessageType::Compiling.padding(), "  ");
    assert_eq!(MessageType::Blank.label(), "");
    assert_eq!(MessageType::Blank.padding(), "           ");
    assert_eq!(MessageType::Error.style(), LabelStyle::Error);
    assert_eq!(MessageType::Warning.style(), LabelStyle::Warning);
    assert_eq!(MessageType::Aborting.style(), LabelStyle::Aborting);
    assert_eq!(MessageType::Checking.style(), LabelStyle::Status);
    assert_eq!(MessageType::Fresh.style(), LabelStyle::Status);
    assert_eq!(MessageType::Note.style(), LabelStyle::Strong);
    assert_eq!(MessageType::Debug.style(), LabelStyle::Plain);
    for m in [
        MessageType::Error, MessageType::Warning, MessageType::Checking, MessageType::Compiling,
        MessageType::Running, MessageType::Ignoring, MessageType::Aborting, MessageType::Fresh,
        MessageType::Note, MessageType::Debug, MessageType::Blank,
    ] {
        assert_eq!(m.padding().len() + m.label().len(), MAX_MESSAGE_LEN + 2);
    }
}

#[test]
fn a_source_passes_the_check_without_errors() {
    let c = check_file("A.java".into(), "public class A { void f() {} }".into());
    assert!(c.reports.is_empty());
    assert_eq!(c.ast.unwrap().items.len(), 1);
    assert_eq!(c.fmap.filename(), "A.java");
}

#[test]
fn a_source_with_an_error_fails_the_check() {
    // a syntax error
    let c = check_file("A.java".into(), "class {}".into());
    assert_eq!(c.ast.unwrap_err(), CheckError::Unknown);
    assert_eq!(c.reports.len(), 1);
    // an error of the tokenizer, though there is a tree
    let c = check_file("A.java".into(), "class A { int x = 08; }".into());
    assert_eq!(c.ast.unwrap_err(), CheckError::Unknown);
    assert_eq!(c.reports.len(), 1);
    assert!(parse_compilation_unit(FileMap::new("A.java".into(), "class A { int x = 08; }".into()))
        .ast
        .is_some());
}

#[test]
fn errors_among_reports() {
    let span = Span { lo: 0, hi: 0 };
    assert!(!any_error(&vec![]));
    assert!(!any_error(&vec![Report::note(span, "".into()), Report::warning(span, "".into())]));
    assert!(any_error(&vec![Report::note(span, "".into()), Report::error(span, "".into())]));
    assert!(any_error(&vec![Report::error(span, "".into()), Report::note(span, "".into())]));
}

#[test]
fn failures_of_the_check() {
    let lines = failure_messages("A.java", &CheckError::NotFound);
    assert_eq!(lines.len(), 1);
    assert_eq!(lines[0].kind, MessageType::Error);
    assert_eq!(lines[0].text, "File not found: A.java");
    let lines = failure_messages("A.java", &CheckError::Io("denied".into()));
    assert_eq!(lines.len(), 1);
    assert_eq!(lines[0].text, "IO error: denied");
    let lines = failure_messages("A.java", &CheckError::Utf8("bad byte".into()));
    assert_eq!(lines.len(), 2);
    assert_eq!(lines[0].kind, MessageType::Error);
    assert_eq!(lines[0].text, "File 'A.java' doesn't contain valid UTF-8 (bad byte)");
    assert_eq!(lines[1].kind, MessageType::Note);
    assert_eq!(
        lines[1].text,
        "Convert your file into valid UTF-8 or use the flag `--lossy-decoding`"
    );
    assert!(failure_messages("A.java", &CheckError::Unknown).is_empty());
}

#[test]
fn styles_of_names() {
    let conf = Config::default();
    assert_eq!(conf.get(NameType::Class), NameStyle::UpperCamelCase);
    assert_eq!(conf.get(NameType::Method), NameStyle::LowerCamelCase);
    assert_eq!(conf.get(NameType::StaticMethod), NameStyle::LowerCamelCase);
    let conf = Config {
        class_s: NameStyle::SnakeCase,
        method_s: NameStyle::UpperSnakeCase,
        static_method_s: NameStyle::CapsSnakeCase,
    };
    assert_eq!(conf.get(NameType::Class), NameStyle::SnakeCase);
    assert_eq!(conf.get(NameType::Method), NameStyle::UpperSnakeCase);
    assert_eq!(conf.get(NameType::StaticMethod), NameStyle::CapsSnakeCase);
    assert_eq!(NameStyle::LowerCamelCase.as_str(), "lowerCamelCase");
    assert_eq!(NameStyle::UpperCamelCase.as_str(), "UpperCamelCase");
    assert_eq!(NameStyle::SnakeCase.as_str(), "snake_case");
    assert_eq!(NameStyle::UpperSnakeCase.as_str(), "Upper_Snake_Case");
    assert_eq!(NameStyle::CapsSnakeCase.as_str(), "CAPS_SNAKE_CASE");
    assert_eq!(NameType::StaticMethod.as_str(), "StaticMethod");
}

#[test]
fn notes_on_the_names_of_a_unit() {
    let parsed = parse_compilation_unit(FileMap::new(
        "A.java".into(),
        "import x.Y; class A { void f() {} static void g() {} int h; } class B {}".into(),
    ));
    let cu = parsed.ast.unwrap();
    let notes = Checker::new(Config::default()).check(&cu);
    let messages: Vec<&str> = notes.iter().map(|r| r.message.as_str()).collect();
    assert_eq!(
        messages,
        vec![
            "This is a 'Class' name and needs to be 'UpperCamelCase' :-)",
            "This is a 'Method' name and needs to be 'lowerCamelCase' :-)",
            "This is a 'StaticMethod' name and needs to be 'lowerCamelCase' :-)",
            "This is a 'Class' name and needs to be 'UpperCamelCase' :-)",
        ]
    );
    assert!(notes.iter().all(|r| r.severity == Severity::Note && r.remarks.is_empty()));
    assert_eq!(notes[0].span, Span { lo: 18, hi: 19 });
    assert_eq!(notes[1].span, Span { lo: 27, hi: 28 });
    assert_eq!(notes[2].span, Span { lo: 46, hi: 47 });
}

fn ident(name: &str) -> Ident {
    Ident { name: name.into(), span: Span { lo: 3, hi: 5 } }
}

fn suggestion(r: &Report) -> &str {
    assert_eq!(r.severity, Severity::Warning);
    assert_eq!(r.span, Span { lo: 3, hi: 5 });
    assert_eq!(r.remarks.len(), 1);
    assert_eq!(r.remarks[0].kind, RemarkKind::Note);
    assert_eq!(r.remarks[0].message, "Consider changing the name like shown here");
    match &r.remarks[0].snippet {
        Snippet::Replace(span, with) => {
            assert_eq!(*span, Span { lo: 3, hi: 5 });
            with
        }
        other => panic!("no replacement: {:?}", other),
    }
}

#[test]
fn names_in_upper_camel_case() {
    assert!(check_upper_camel_case(&ident("MyClass"), "type name").is_none());
    assert!(check_upper_camel_case(&ident("A"), "type name").is_none());
    assert!(check_upper_camel_case(&ident(""), "type name").is_none());
    assert!(check_upper_camel_case(&ident("Ärger"), "type name").is_none());
    let r = check_upper_camel_case(&ident("myClass"), "type name").unwrap();
    assert_eq!(r.message, "This type name should be written in 'UpperCamelCase'");
    assert_eq!(suggestion(&r), "MyClass");
    let r = check_upper_camel_case(&ident("my_small_class"), "thing").unwrap();
    assert_eq!(r.message, "This thing should be written in 'UpperCamelCase'");
    assert_eq!(suggestion(&r), "MySmallClass");
    // a character that is not in lowercase leaves the uppercase one due
    assert_eq!(suggestion(&check_upper_camel_case(&ident("My_class"), "t").unwrap()), "MYClass");
    assert_eq!(suggestion(&check_upper_camel_case(&ident("X_y"), "t").unwrap()), "XY");
    assert_eq!(suggestion(&check_upper_camel_case(&ident("_"), "t").unwrap()), "");
    assert_eq!(suggestion(&check_upper_camel_case(&ident("über_mut"), "t").unwrap()), "ÜberMut");
    // `ß` has no single character in uppercase and stays
    assert_eq!(suggestion(&check_upper_camel_case(&ident("ß_x"), "t").unwrap()), "ßX");
    // an uppercase character does not take the place of the one that is due
    assert_eq!(suggestion(&check_upper_camel_case(&ident("a_Bc"), "t").unwrap()), "ABC");
}

#[test]
fn names_in_lower_camel_case() {
    assert!(check_lower_camel_case(&ident("myMethod"), "method name").is_none());
    assert!(check_lower_camel_case(&ident("f"), "method name").is_none());
    assert!(check_lower_camel_case(&ident(""), "method name").is_none());
    let r = check_lower_camel_case(&ident("MyMethod"), "method name").unwrap();
    assert_eq!(r.message, "This method name should be written in 'lowerCamelCase'");
    assert_eq!(suggestion(&r), "myMethod");
    assert_eq!(suggestion(&check_lower_camel_case(&ident("my_method"), "m").unwrap()), "myMethod");
    assert_eq!(suggestion(&check_lower_camel_case(&ident("My_method_x"), "m").unwrap()), "myMethodX");
    assert_eq!(suggestion(&check_lower_camel_case(&ident("Ärger"), "m").unwrap()), "ärger");
    // the first character is set in lowercase, whatever it is
    assert_eq!(suggestion(&check_lower_camel_case(&ident("_x"), "m").unwrap()), "_x");
    assert_eq!(suggestion(&check_lower_camel_case(&ident("x__y"), "m").unwrap()), "xY");
}

#[test]
fn warnings_on_the_names_of_a_unit() {
    let parsed = parse_compilation_unit(FileMap::new(
        "A.java".into(),
        "import x.y; class my_class { void Do_it() {} void fine() {} } class Fine { void F() {} }".into(),
    ));
    let cu = parsed.ast.unwrap();
    let warnings = check_names(&cu);
    let messages: Vec<&str> = warnings.iter().map(|r| r.message.as_str()).collect();
    assert_eq!(
        messages,
        vec![
            "This type name should be written in 'UpperCamelCase'",
            "This method name should be written in 'lowerCamelCase'",
            "This method name should be written in 'lowerCamelCase'",
        ]
    );
    assert_eq!(warnings[0].span, Span { lo: 18, hi: 26 });
    match &warnings[0].remarks[0].snippet {
        Snippet::Replace(_, with) => assert_eq!(with, "MyClass"),
        other => panic!("no replacement: {:?}", other),
    }
    match &warnings[1].remarks[0].snippet {
        Snippet::Replace(_, with) => assert_eq!(with, "doIt"),
        other => panic!("no replacement: {:?}", other),
    }
    match &warnings[2].remarks[0].snippet {
        Snippet::Replace(_, with) => assert_eq!(with, "f"),
        other => panic!("no replacement: {:?}", other),
    }
}

fn run(job: &Job, outcomes: &[bool]) -> (Result<(), ()>, Vec<Action>) {
    let mut state = Progress { at: 0, checked: false };
    let mut started = Vec::new();
    loop {
        let action = handle(job, state.at, state.checked);
        if action == Action::Done {
            return (Ok(()), started);
        }
        started.push(action);
        let succeeded = action != Action::FailUnchecked && outcomes[state.at];
        match proceed(job, state.at, state.checked, succeeded) {
            Some(next) => state = next,
            None => return (Err(()), started),
        }
    }
}

#[test]
fn a_run_ends_with_the_first_step_that_fails() {
    let job = Job::from_args(Args { cmd_run: true, ..args() }, files()).unwrap();
    let all = vec![Action::Check, Action::Analyze, Action::PassThrough, Action::Run];
    assert_eq!(run(&job, &[true, true, true, true]), (Ok(()), all.clone()));
    assert_eq!(run(&job, &[true, true, true, false]), (Err(()), all.clone()));
    assert_eq!(run(&job, &[true, true, false, true]), (Err(()), all[..3].to_vec()));
    assert_eq!(run(&job, &[true, false, true, true]), (Err(()), all[..2].to_vec()));
    assert_eq!(run(&job, &[false, true, true, true]), (Err(()), all[..1].to_vec()));
    let empty = Job::from_args(Args { cmd_raw: true, ..args() }, files()).unwrap();
    assert_eq!(run(&empty, &[]), (Ok(()), vec![]));
}

#[test]
fn an_analysis_without_a_check_fails_the_run() {
    let mut job = Job::from_args(Args { cmd_build: true, ..args() }, files()).unwrap();
    job.sub_jobs.pop_front();
    assert_eq!(run(&job, &[true, true]), (Err(()), vec![Action::FailUnchecked]));
    assert_eq!(proceed(&job, 0, false, true), None);
    assert_eq!(proceed(&job, 0, true, true), Some(Progress { at: 1, checked: true }));
    assert_eq!(proceed(&job, 1, true, true), Some(Progress { at: 2, checked: true }));
    assert_eq!(proceed(&job, 1, false, false), None);
    assert_eq!(proceed(&job, 2, true, true), None);
    let job = Job::from_args(Args { cmd_build: true, ..args() }, files()).unwrap();
    assert_eq!(proceed(&job, 0, false, true), Some(Progress { at: 1, checked: true }));
    assert_eq!(proceed(&job, 0, false, false), None);
}
