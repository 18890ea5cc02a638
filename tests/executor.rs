use shell::builtins::{builtin_of, cd_target, check_pwd_args, echo_line, is_builtin, Builtin, CdTarget};
use shell::command::Command;
use shell::error::GenericError;
use shell::forker::Forker;
use shell::parser::parse;
use shell::pipeline::{fan_of, plan_stage, Dispatch, Fan, Pipeline, PipelineStep, Sink, Source};
use shell::redirect::{MergeStep, Merger, SpreadStep, Spreader};
use std::cell::RefCell;

fn strings(v: &[&str]) -> Vec<String> {
    v.iter().map(|s| s.to_string()).collect()
}

fn command(args: &[&str], files_in: &[&str], files_out: &[&str]) -> Command {
    Command { args: strings(args), files_in: strings(files_in), files_out: strings(files_out) }
}

fn error_text(e: &GenericError) -> String {
    e.message()
}

#[test]
fn builtin_names() {
    assert!(is_builtin("exit"));
    assert!(is_builtin("echo"));
    assert!(is_builtin("cd"));
    assert!(is_builtin("pwd"));
    assert!(!is_builtin("ls"));
    assert!(!is_builtin("ech"));
    assert!(!is_builtin("echoo"));
    assert!(!is_builtin(""));
    assert_eq!(builtin_of("cd"), Some(Builtin::Cd));
    assert_eq!(builtin_of("exit"), Some(Builtin::Exit));
}

#[test]
fn echo_joins_with_spaces() {
    assert_eq!(echo_line(&strings(&["echo", "a", "b", "c"])), "a b c\n");
    assert_eq!(echo_line(&strings(&["echo"])), "\n");
    assert_eq!(echo_line(&strings(&["echo", "a b", ""])), "a b \n");
}

#[test]
fn cd_argument_contract() {
    assert!(matches!(cd_target(&strings(&["cd"])), Ok(CdTarget::Home)));
    match cd_target(&strings(&["cd", "/tmp"])) {
        Ok(CdTarget::Path(p)) => assert_eq!(p, "/tmp"),
        _ => panic!("expected a path"),
    }
    match cd_target(&strings(&["cd", "a", "b"])) {
        Err(e) => assert_eq!(error_text(&e), "too many arguments"),
        Ok(_) => panic!("expected an error"),
    }
}

#[test]
fn pwd_argument_contract() {
    assert!(check_pwd_args(&strings(&["pwd"])).is_ok());
    match check_pwd_args(&strings(&["pwd", "x"])) {
        Err(e) => assert_eq!(error_text(&e), "too many arguments"),
        Ok(_) => panic!("expected an error"),
    }
}

#[test]
fn generic_error_text() {
    let e: GenericError = String::from("boom").into();
    assert_eq!(e.message(), "boom");
    let io = std::io::Error::new(std::io::ErrorKind::Other, "disk gone");
    let e: GenericError = io.into();
    assert!(matches!(e, GenericError::IOError(_)));
    assert_eq!(e.message(), "disk gone");
}

#[test]
fn fan_by_count() {
    assert_eq!(fan_of(0), Fan::Inherit);
    assert_eq!(fan_of(1), Fan::Direct);
    assert_eq!(fan_of(2), Fan::Helper);
    assert_eq!(fan_of(5), Fan::Helper);
}

fn source_paths(v: &[Source]) -> Vec<Option<String>> {
    v.iter()
        .map(|s| match s {
            Source::PreviousStage => None,
            Source::File(p) => Some(p.clone()),
        })
        .collect()
}

fn sink_paths(v: &[Sink]) -> Vec<Option<String>> {
    v.iter()
        .map(|s| match s {
            Sink::NextStage => None,
            Sink::File(p) => Some(p.clone()),
        })
        .collect()
}

#[test]
fn plan_single_builtin_runs_in_process() {
    let plan = plan_stage(0, 1, &command(&["cd", "x"], &[], &[]));
    assert_eq!(plan.dispatch, Dispatch::InProcess(Builtin::Cd));
    assert!(plan.sources.is_empty());
    assert!(plan.sinks.is_empty());
}

#[test]
fn plan_builtin_in_pipeline_forks() {
    let plan = plan_stage(0, 2, &command(&["exit"], &[], &[]));
    assert_eq!(plan.dispatch, Dispatch::Forked);
    assert_eq!(sink_paths(&plan.sinks), vec![None]);
}

#[test]
fn plan_external_and_empty() {
    assert_eq!(plan_stage(0, 1, &command(&["ls"], &[], &[])).dispatch, Dispatch::Forked);
    assert_eq!(plan_stage(0, 1, &command(&[], &["a"], &[])).dispatch, Dispatch::Skip);
}

#[test]
fn plan_middle_stage_wiring() {
    let plan = plan_stage(1, 3, &command(&["sort"], &["a", "b"], &["c"]));
    assert_eq!(
        source_paths(&plan.sources),
        vec![None, Some("a".to_string()), Some("b".to_string())]
    );
    assert_eq!(sink_paths(&plan.sinks), vec![None, Some("c".to_string())]);
    assert_eq!(fan_of(plan.sources.len()), Fan::Helper);
    assert_eq!(fan_of(plan.sinks.len()), Fan::Helper);
}

#[test]
fn plan_last_stage_has_no_outgoing_pipe() {
    let plan = plan_stage(2, 3, &command(&["wc"], &[], &["x", "y"]));
    assert_eq!(source_paths(&plan.sources), vec![None]);
    assert_eq!(sink_paths(&plan.sinks), vec![Some("x".to_string()), Some("y".to_string())]);
}

#[test]
fn session_runs_stages_in_order() {
    let mut p = Pipeline::new(2);
    assert_eq!(p.next_step(), PipelineStep::RunStage(0));
    p.stage_done(Dispatch::Forked);
    assert_eq!(p.next_step(), PipelineStep::RunStage(1));
    p.stage_done(Dispatch::Forked);
    assert_eq!(p.next_step(), PipelineStep::Drain);
    assert!(matches!(p.finish(), Ok(false)));
}

#[test]
fn session_exit_in_process_ends_session() {
    let mut p = Pipeline::new(1);
    p.stage_done(Dispatch::InProcess(Builtin::Exit));
    assert_eq!(p.next_step(), PipelineStep::Drain);
    assert!(matches!(p.finish(), Ok(true)));
}

#[test]
fn session_exit_in_pipeline_does_not_end_session() {
    let cmds = parse("exit | echo x\n").unwrap_or_else(|_| panic!("parse failed"));
    let mut p = Pipeline::new(cmds.len());
    let mut i = 0;
    while let PipelineStep::RunStage(k) = p.next_step() {
        assert_eq!(k, i);
        let plan = plan_stage(k, cmds.len(), &cmds[k]);
        p.stage_done(plan.dispatch);
        i += 1;
    }
    assert_eq!(i, 2);
    assert!(matches!(p.finish(), Ok(false)));
}

#[test]
fn session_fatal_failure_stops_stages() {
    let mut p = Pipeline::new(3);
    p.stage_done(Dispatch::Forked);
    p.stage_failed(String::from("fork: failed to fork").into());
    assert_eq!(p.next_step(), PipelineStep::Drain);
    match p.finish() {
        Err(e) => assert_eq!(e.message(), "fork: failed to fork"),
        Ok(_) => panic!("expected the failure"),
    }
}

#[test]
fn registry_is_empty_after_wait_all() {
    let mut f = Forker::new();
    assert_eq!(f.len(), 0);
    for pid in [11, 12, 13, 14, 15] {
        f.track(pid);
    }
    assert_eq!(f.len(), 5);
    let waited = RefCell::new(Vec::new());
    f.wait_all(|pid| waited.borrow_mut().push(pid));
    assert_eq!(f.len(), 0);
    assert_eq!(waited.into_inner(), vec![15, 14, 13, 12, 11]);
    assert_eq!(f.take_next(), None);
}

#[test]
fn registry_take_next() {
    let mut f = Forker::new();
    f.track(3);
    f.track(4);
    assert_eq!(f.take_next(), Some(4));
    assert_eq!(f.take_next(), Some(3));
    assert_eq!(f.take_next(), None);
}

/// Runs the merge decisions over in-memory sources read `block` bytes at a time.
fn run_merge(sources: &[&[u8]], block: usize) -> Vec<u8> {
    let mut m = Merger::new(sources.len());
    let mut pos = vec![0usize; sources.len()];
    let mut sink = Vec::new();
    loop {
        match m.next_step() {
            MergeStep::ReadFrom(i) => {
                let end = (pos[i] + block).min(sources[i].len());
                let chunk = &sources[i][pos[i]..end];
                pos[i] = end;
                if m.on_read(chunk) {
                    sink.extend_from_slice(chunk);
                }
            }
            MergeStep::Done => return sink,
        }
    }
}

#[test]
fn merge_stops_after_failure() {
    let mut m = Merger::new(3);
    assert_eq!(m.next_step(), MergeStep::ReadFrom(0));
    assert!(m.on_read(b"ab"));
    m.on_failure();
    assert_eq!(m.next_step(), MergeStep::Done);
}

#[test]
fn generic_error_from_str() {
    let e: GenericError = "no such file".into();
    assert!(matches!(e, GenericError::OtherError(_)));
    assert_eq!(e.message(), "no such file");
}

#[test]
fn merge_concatenates_in_order() {
    assert_eq!(run_merge(&[b"abc", b"", b"defgh", b"i"], 2), b"abcdefghi".to_vec());
    assert_eq!(run_merge(&[b"", b""], 4), Vec::<u8>::new());
    assert_eq!(run_merge(&[], 4), Vec::<u8>::new());
    assert_eq!(run_merge(&[b"one\n", b"two\n"], 4096), b"one\ntwo\n".to_vec());
}

/// Runs the spread decisions over an in-memory source; writes to the sinks
/// listed in `broken` fail.
fn run_spread(source: &[u8], n: usize, block: usize, broken: &[usize]) -> Vec<Vec<u8>> {
    let mut s = Spreader::new(n);
    let mut sinks = vec![Vec::new(); n];
    let mut pos = 0;
    let mut chunk: &[u8] = &[];
    loop {
        match s.next_step() {
            SpreadStep::Read => {
                let end = (pos + block).min(source.len());
                chunk = &source[pos..end];
                pos = end;
                s.on_read(chunk);
            }
            SpreadStep::WriteTo(k) => {
                if broken.contains(&k) {
                    s.on_written(false);
                } else {
                    sinks[k].extend_from_slice(chunk);
                    s.on_written(true);
                }
            }
            SpreadStep::Done => return sinks,
        }
    }
}

#[test]
fn spread_copies_to_every_sink() {
    let data = b"the quick brown fox\n";
    for n in [0usize, 1, 3] {
        let sinks = run_spread(data, n, 3, &[]);
        assert_eq!(sinks.len(), n);
        for s in sinks {
            assert_eq!(s, data.to_vec());
        }
    }
}

#[test]
fn spread_continues_past_failed_sink() {
    let data = b"abcdef";
    let sinks = run_spread(data, 3, 4, &[1]);
    assert_eq!(sinks[0], data.to_vec());
    assert!(sinks[1].is_empty());
    assert_eq!(sinks[2], data.to_vec());
}

#[test]
fn spread_of_empty_source() {
    let sinks = run_spread(b"", 2, 8, &[]);
    assert_eq!(sinks, vec![Vec::<u8>::new(), Vec::new()]);
}

#[test]
fn echo_to_file_is_planned_in_process() {
    let cmds = parse("echo hi > out.txt\n").unwrap_or_else(|_| panic!("parse failed"));
    assert_eq!(cmds.len(), 1);
    let plan = plan_stage(0, 1, &cmds[0]);
    assert_eq!(plan.dispatch, Dispatch::InProcess(Builtin::Echo));
    assert!(plan.sources.is_empty());
    assert_eq!(sink_paths(&plan.sinks), vec![Some("out.txt".to_string())]);
    assert_eq!(fan_of(plan.sinks.len()), Fan::Direct);
    assert_eq!(echo_line(&cmds[0].args), "hi\n");
    let reader = plan_stage(0, 1, &command(&["cat"], &["out.txt"], &[]));
    assert_eq!(reader.dispatch, Dispatch::Forked);
    assert_eq!(source_paths(&reader.sources), vec![Some("out.txt".to_string())]);
}
