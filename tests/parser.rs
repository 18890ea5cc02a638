use shell::command::Command;
use shell::error::{ParseError, PipeSide};
use shell::parser::parse;

fn strings(v: &[&str]) -> Vec<String> {
    v.iter().map(|s| s.to_string()).collect()
}

fn parse_ok(line: &str) -> Vec<Command> {
    match parse(line) {
        Ok(cmds) => cmds,
        Err(e) => panic!("unexpected error {:?}", e),
    }
}

fn parse_err(line: &str) -> ParseError {
    match parse(line) {
        Ok(cmds) => panic!("unexpected success with {} stages", cmds.len()),
        Err(e) => e,
    }
}

#[test]
fn plain_arguments() {
    let cmds = parse_ok("echo a b c\n");
    assert_eq!(cmds.len(), 1);
    assert_eq!(cmds[0].args, strings(&["echo", "a", "b", "c"]));
    assert!(cmds[0].files_in.is_empty());
    assert!(cmds[0].files_out.is_empty());
}

#[test]
fn repeated_output_redirection_keeps_order() {
    let cmds = parse_ok("cmd > a > b\n");
    assert_eq!(cmds.len(), 1);
    assert_eq!(cmds[0].args, strings(&["cmd"]));
    assert_eq!(cmds[0].files_out, strings(&["a", "b"]));
    assert!(cmds[0].files_in.is_empty());
}

#[test]
fn empty_segment_between_pipes() {
    assert_eq!(parse_err("a | | b\n"), ParseError::EmptyPipeSegment(PipeSide::Before));
}

#[test]
fn single_quotes_group_a_token() {
    let cmds = parse_ok("echo 'a b' c\n");
    assert_eq!(cmds.len(), 1);
    assert_eq!(cmds[0].args, strings(&["echo", "a b", "c"]));
}

#[test]
fn unterminated_quote() {
    assert_eq!(parse_err("echo 'a\n"), ParseError::UnclosedQuote);
    assert_eq!(parse_err("echo \"a\n"), ParseError::UnclosedQuote);
}

#[test]
fn double_quotes_keep_specials_literal() {
    let cmds = parse_ok("echo \"a | b > c 'd'\"\n");
    assert_eq!(cmds.len(), 1);
    assert_eq!(cmds[0].args, strings(&["echo", "a | b > c 'd'"]));
}

#[test]
fn blank_line_gives_no_stage() {
    assert!(parse_ok("\n").is_empty());
    assert!(parse_ok("   \n").is_empty());
    assert!(parse_ok("").is_empty());
}

#[test]
fn pipeline_of_three_stages() {
    let cmds = parse_ok("cat < in.txt | sort | uniq > out.txt\n");
    assert_eq!(cmds.len(), 3);
    assert_eq!(cmds[0].args, strings(&["cat"]));
    assert_eq!(cmds[0].files_in, strings(&["in.txt"]));
    assert_eq!(cmds[1].args, strings(&["sort"]));
    assert_eq!(cmds[2].args, strings(&["uniq"]));
    assert_eq!(cmds[2].files_out, strings(&["out.txt"]));
}

#[test]
fn trailing_pipe() {
    assert_eq!(parse_err("ls |\n"), ParseError::EmptyPipeSegment(PipeSide::After));
    assert_eq!(parse_err("ls | \n"), ParseError::EmptyPipeSegment(PipeSide::After));
}

#[test]
fn leading_pipe() {
    assert_eq!(parse_err("| ls\n"), ParseError::EmptyPipeSegment(PipeSide::Before));
}

#[test]
fn missing_paths() {
    assert_eq!(parse_err("cat <\n"), ParseError::MissingPath);
    assert_eq!(parse_err("cat >> a\n"), ParseError::MissingPath);
    assert_eq!(parse_err("cat < > a\n"), ParseError::MissingPath);
    assert_eq!(parse_err("cat > | wc\n"), ParseError::MissingPath);
}

#[test]
fn mixed_redirections_without_spaces() {
    let cmds = parse_ok("cat<a<b>c\n");
    assert_eq!(cmds.len(), 1);
    assert_eq!(cmds[0].args, strings(&["cat"]));
    assert_eq!(cmds[0].files_in, strings(&["a", "b"]));
    assert_eq!(cmds[0].files_out, strings(&["c"]));
}

#[test]
fn word_after_path_is_an_argument() {
    let cmds = parse_ok("echo hi > out.txt there\n");
    assert_eq!(cmds[0].args, strings(&["echo", "hi", "there"]));
    assert_eq!(cmds[0].files_out, strings(&["out.txt"]));
}

#[test]
fn stage_with_only_redirections() {
    let cmds = parse_ok("< a\n");
    assert_eq!(cmds.len(), 1);
    assert!(cmds[0].args.is_empty());
    assert_eq!(cmds[0].files_in, strings(&["a"]));
}

#[test]
fn line_ends_at_first_newline() {
    let cmds = parse_ok("ls -l\nrm x\n");
    assert_eq!(cmds.len(), 1);
    assert_eq!(cmds[0].args, strings(&["ls", "-l"]));
}

#[test]
fn quoted_empty_string_is_dropped() {
    let cmds = parse_ok("echo '' x\n");
    assert_eq!(cmds[0].args, strings(&["echo", "x"]));
}

#[test]
fn parse_error_messages() {
    assert_eq!(ParseError::UnclosedQuote.message(), "unclosed quotes");
    assert_eq!(ParseError::MissingPath.message(), "no file path provided");
    assert_eq!(
        ParseError::EmptyPipeSegment(PipeSide::Before).message(),
        "no command is provided before the pipe"
    );
    assert_eq!(
        ParseError::EmptyPipeSegment(PipeSide::After).message(),
        "no command is provided after the pipe"
    );
}
