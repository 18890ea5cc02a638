use vstd::prelude::*;

use crate::command::{
    commands_view, lemma_commands_view_push, lemma_strings_view_push, strings_view, Command,
    CommandView,
};
use crate::error::{ParseError, PipeSide};

verus! {

/// Whether the characters being read stand inside quotes.
#[derive(Clone, Copy, Debug, PartialEq, Eq, Structural)]
pub enum QuoteState {
    Unquoted,
    InSingleQuote,
    InDoubleQuote,
}

/// Which list a finished token goes to.
#[derive(Clone, Copy, Debug, PartialEq, Eq, Structural)]
pub enum RedirectState {
    Arguments,
    CollectingInput,
    CollectingOutput,
}

/// The state of the tokenizer after a prefix of a line.
pub struct ParseState {
    pub quote: QuoteState,
    pub redirect: RedirectState,
    pub token: Seq<char>,
    pub args: Seq<Seq<char>>,
    pub files_in: Seq<Seq<char>>,
    pub files_out: Seq<Seq<char>>,
    pub stages: Seq<CommandView>,
}

pub open spec fn initial_state() -> ParseState {
    ParseState {
        quote: QuoteState::Unquoted,
        redirect: RedirectState::Arguments,
        token: Seq::empty(),
        args: Seq::empty(),
        files_in: Seq::empty(),
        files_out: Seq::empty(),
        stages: Seq::empty(),
    }
}

pub open spec fn stage_is_empty(s: ParseState) -> bool {
    s.args.len() == 0 && s.files_in.len() == 0 && s.files_out.len() == 0
}

pub open spec fn current_stage(s: ParseState) -> CommandView {
    CommandView { args: s.args, files_in: s.files_in, files_out: s.files_out }
}

/// A pending token becomes an argument; an empty one is dropped.
pub open spec fn flush_argument(s: ParseState) -> ParseState {
    if s.token.len() == 0 {
        s
    } else {
        ParseState { args: s.args.push(s.token), token: Seq::empty(), ..s }
    }
}

/// The pending token becomes a path of the given direction.
pub open spec fn push_path(s: ParseState, dir: RedirectState) -> ParseState {
    if dir is CollectingInput {
        ParseState { files_in: s.files_in.push(s.token), token: Seq::empty(), ..s }
    } else {
        ParseState { files_out: s.files_out.push(s.token), token: Seq::empty(), ..s }
    }
}

/// The pending token becomes a path; it must not be empty.
pub open spec fn flush_path(s: ParseState, dir: RedirectState) -> Result<ParseState, ParseError> {
    if s.token.len() == 0 {
        Err(ParseError::MissingPath)
    } else {
        Ok(push_path(s, dir))
    }
}

/// The flush made by a pipe operator and by the end of the line.
pub open spec fn flush_pending(s: ParseState) -> Result<ParseState, ParseError> {
    match s.redirect {
        RedirectState::Arguments => Ok(flush_argument(s)),
        dir => flush_path(s, dir),
    }
}

/// The flush made by a space: a finished path also ends the redirection.
pub open spec fn flush_at_space(s: ParseState) -> ParseState {
    match s.redirect {
        RedirectState::Arguments => flush_argument(s),
        dir => if s.token.len() == 0 {
            s
        } else {
            ParseState { redirect: RedirectState::Arguments, ..push_path(s, dir) }
        },
    }
}

/// `<` (towards `CollectingInput`) or `>` (towards `CollectingOutput`).
pub open spec fn redirect_operator(s: ParseState, dir: RedirectState) -> Result<
    ParseState,
    ParseError,
> {
    match s.redirect {
        RedirectState::Arguments => Ok(ParseState { redirect: dir, ..flush_argument(s) }),
        cur => match flush_path(s, cur) {
            Ok(t) => Ok(ParseState { redirect: dir, ..t }),
            Err(e) => Err(e),
        },
    }
}

pub open spec fn close_stage(s: ParseState) -> ParseState {
    ParseState {
        redirect: RedirectState::Arguments,
        args: Seq::empty(),
        files_in: Seq::empty(),
        files_out: Seq::empty(),
        stages: s.stages.push(current_stage(s)),
        ..s
    }
}

pub open spec fn pipe_operator(s: ParseState) -> Result<ParseState, ParseError> {
    match flush_pending(s) {
        Ok(t) => if stage_is_empty(t) {
            Err(ParseError::EmptyPipeSegment(PipeSide::Before))
        } else {
            Ok(close_stage(t))
        },
        Err(e) => Err(e),
    }
}

pub open spec fn push_char(s: ParseState, c: char) -> ParseState {
    ParseState { token: s.token.push(c), ..s }
}

/// One transition of the tokenizer on a character of the line.
pub open spec fn step(s: ParseState, c: char) -> Result<ParseState, ParseError> {
    match s.quote {
        QuoteState::InSingleQuote => if c == '\'' {
            Ok(ParseState { quote: QuoteState::Unquoted, ..s })
        } else {
            Ok(push_char(s, c))
        },
        QuoteState::InDoubleQuote => if c == '"' {
            Ok(ParseState { quote: QuoteState::Unquoted, ..s })
        } else {
            Ok(push_char(s, c))
        },
        QuoteState::Unquoted => if c == '\'' {
            Ok(ParseState { quote: QuoteState::InSingleQuote, ..s })
        } else if c == '"' {
            Ok(ParseState { quote: QuoteState::InDoubleQuote, ..s })
        } else if c == '<' {
            redirect_operator(s, RedirectState::CollectingInput)
        } else if c == '>' {
            redirect_operator(s, RedirectState::CollectingOutput)
        } else if c == '|' {
            pipe_operator(s)
        } else if c == ' ' {
            Ok(flush_at_space(s))
        } else {
            Ok(push_char(s, c))
        },
    }
}

/// The tokenizer run over a sequence of characters, stopping at the first error.
pub open spec fn run(chars: Seq<char>) -> Result<ParseState, ParseError>
    decreases chars.len(),
{
    if chars.len() == 0 {
        Ok(initial_state())
    } else {
        match run(chars.drop_last()) {
            Ok(s) => step(s, chars.last()),
            Err(e) => Err(e),
        }
    }
}

/// What the end of the line does to the state.
pub open spec fn finish(s: ParseState) -> Result<Seq<CommandView>, ParseError> {
    if !(s.quote is Unquoted) {
        Err(ParseError::UnclosedQuote)
    } else {
        match flush_pending(s) {
            Ok(t) => if !stage_is_empty(t) {
                Ok(t.stages.push(current_stage(t)))
            } else if t.stages.len() > 0 {
                Err(ParseError::EmptyPipeSegment(PipeSide::After))
            } else {
                Ok(Seq::empty())
            },
            Err(e) => Err(e),
        }
    }
}

/// The number of characters before the first newline.
pub open spec fn line_len(chars: Seq<char>) -> nat
    decreases chars.len(),
{
    if chars.len() == 0 || chars[0] == '\n' {
        0
    } else {
        1 + line_len(chars.drop_first())
    }
}

/// The stages that a line describes: the text up to its first newline, run
/// through the tokenizer, then ended.
pub open spec fn parse_spec(chars: Seq<char>) -> Result<Seq<CommandView>, ParseError> {
    match run(chars.take(line_len(chars) as int)) {
        Ok(s) => finish(s),
        Err(e) => Err(e),
    }
}

proof fn lemma_line_len(chars: Seq<char>, i: int)
    requires
        0 <= i <= chars.len(),
        forall|j: int| 0 <= j < i ==> chars[j] != '\n',
    ensures
        i <= line_len(chars),
        i == chars.len() || chars[i] == '\n' ==> line_len(chars) == i,
    decreases i,
{
    if i > 0 {
        let rest = chars.drop_first();
        assert forall|j: int| 0 <= j < i - 1 implies rest[j] != '\n' by {
            assert(rest[j] == chars[j + 1]);
        }
        lemma_line_len(rest, i - 1);
    }
}

proof fn lemma_line_len_bounded(chars: Seq<char>)
    ensures
        line_len(chars) <= chars.len(),
    decreases chars.len(),
{
    if chars.len() > 0 && chars[0] != '\n' {
        lemma_line_len_bounded(chars.drop_first());
    }
}

proof fn lemma_run_error_stays(chars: Seq<char>, k: int, m: int)
    requires
        0 <= k <= m <= chars.len(),
        run(chars.take(k)) is Err,
    ensures
        run(chars.take(m)) == run(chars.take(k)),
    decreases m,
{
    if m > k {
        lemma_run_error_stays(chars, k, m - 1);
        assert(chars.take(m).drop_last() =~= chars.take(m - 1));
    }
}

pub open spec fn command_is_empty(c: CommandView) -> bool {
    c.args.len() == 0 && c.files_in.len() == 0 && c.files_out.len() == 0
}

pub open spec fn all_stages_nonempty(stages: Seq<CommandView>) -> bool {
    forall|k: int| 0 <= k < stages.len() ==> !command_is_empty(#[trigger] stages[k])
}

proof fn lemma_run_stages_nonempty(chars: Seq<char>)
    ensures
        run(chars) is Ok ==> all_stages_nonempty(run(chars)->Ok_0.stages),
    decreases chars.len(),
{
    if chars.len() > 0 {
        lemma_run_stages_nonempty(chars.drop_last());
        if let Ok(s) = run(chars.drop_last()) {
            if let Ok(t) = step(s, chars.last()) {
                assert forall|k: int| 0 <= k < t.stages.len() implies !command_is_empty(
                    #[trigger] t.stages[k],
                ) by {
                    if k < s.stages.len() {
                        assert(t.stages[k] == s.stages[k]);
                    }
                }
            }
        }
    }
}

/// A line never yields an empty stage: every stage returned has a command
/// name or a redirection, and a blank line yields no stage at all.
pub proof fn lemma_parse_stages_nonempty(chars: Seq<char>)
    ensures
        parse_spec(chars) is Ok ==> all_stages_nonempty(parse_spec(chars)->Ok_0),
{
    let line = chars.take(line_len(chars) as int);
    lemma_run_stages_nonempty(line);
    if let Ok(s) = run(line) {
        if let Ok(v) = finish(s) {
            assert forall|k: int| 0 <= k < v.len() implies !command_is_empty(#[trigger] v[k]) by {
                if k < s.stages.len() {
                    assert(v[k] == s.stages[k]);
                }
            }
        }
    }
}

/// Relies on `String::push`: appends one character.
#[verifier::external_body]
fn push_char_to(s: &mut String, c: char)
    ensures
        final(s)@ == old(s)@.push(c),
{
    s.push(c)
}

/// The tokenizer's state between two characters of a line.
struct Tokenizer {
    quote: QuoteState,
    redirect: RedirectState,
    token: String,
    args: Vec<String>,
    files_in: Vec<String>,
    files_out: Vec<String>,
    stages: Vec<Command>,
}

impl View for Tokenizer {
    type V = ParseState;

    closed spec fn view(&self) -> ParseState {
        ParseState {
            quote: self.quote,
            redirect: self.redirect,
            token: self.token@,
            args: strings_view(self.args@),
            files_in: strings_view(self.files_in@),
            files_out: strings_view(self.files_out@),
            stages: commands_view(self.stages@),
        }
    }
}

/// `r` is the executable outcome of a transition whose meaning is `expected`,
/// and `after` the state it left when it succeeded.
pub open spec fn outcome_matches(
    r: Result<(), ParseError>,
    after: ParseState,
    expected: Result<ParseState, ParseError>,
) -> bool {
    match expected {
        Ok(t) => r is Ok && after == t,
        Err(e) => r == Err::<(), ParseError>(e),
    }
}

impl Tokenizer {
    fn new() -> (t: Tokenizer)
        ensures
            t@ == initial_state(),
    {
        let t = Tokenizer {
            quote: QuoteState::Unquoted,
            redirect: RedirectState::Arguments,
            token: String::new(),
            args: Vec::new(),
            files_in: Vec::new(),
            files_out: Vec::new(),
            stages: Vec::new(),
        };
        assert(t@.args =~= Seq::empty());
        assert(t@.files_in =~= Seq::empty());
        assert(t@.files_out =~= Seq::empty());
        assert(t@.stages =~= Seq::empty());
        t
    }

    fn take_token(&mut self) -> (tok: String)
        ensures
            tok@ == old(self)@.token,
            final(self)@ == (ParseState { token: Seq::empty(), ..old(self)@ }),
    {
        let mut tok = String::new();
        core::mem::swap(&mut tok, &mut self.token);
        tok
    }

    fn flush_argument(&mut self)
        ensures
            final(self)@ == flush_argument(old(self)@),
    {
        if !self.token.as_str().is_empty() {
            let tok = self.take_token();
            proof {
                lemma_strings_view_push(self.args@, tok);
            }
            self.args.push(tok);
        }
    }

    fn push_path(&mut self, dir: RedirectState)
        ensures
            final(self)@ == push_path(old(self)@, dir),
    {
        let tok = self.take_token();
        match dir {
            RedirectState::CollectingInput => {
                proof {
                    lemma_strings_view_push(self.files_in@, tok);
                }
                self.files_in.push(tok);
            },
            _ => {
                proof {
                    lemma_strings_view_push(self.files_out@, tok);
                }
                self.files_out.push(tok);
            },
        }
    }

    fn flush_path(&mut self, dir: RedirectState) -> (r: Result<(), ParseError>)
        ensures
            outcome_matches(r, final(self)@, flush_path(old(self)@, dir)),
    {
        if self.token.as_str().is_empty() {
            Err(ParseError::MissingPath)
        } else {
            self.push_path(dir);
            Ok(())
        }
    }

    fn flush_pending(&mut self) -> (r: Result<(), ParseError>)
        ensures
            outcome_matches(r, final(self)@, flush_pending(old(self)@)),
    {
        match self.redirect {
            RedirectState::Arguments => {
                self.flush_argument();
                Ok(())
            },
            dir => self.flush_path(dir),
        }
    }

    fn flush_at_space(&mut self)
        ensures
            final(self)@ == flush_at_space(old(self)@),
    {
        match self.redirect {
            RedirectState::Arguments => self.flush_argument(),
            dir => {
                if !self.token.as_str().is_empty() {
                    self.push_path(dir);
                    self.redirect = RedirectState::Arguments;
                }
            },
        }
    }

    fn redirect_operator(&mut self, dir: RedirectState) -> (r: Result<(), ParseError>)
        ensures
            outcome_matches(r, final(self)@, redirect_operator(old(self)@, dir)),
    {
        match self.redirect {
            RedirectState::Arguments => self.flush_argument(),
            cur => {
                let r = self.flush_path(cur);
                if r.is_err() {
                    return r;
                }
            },
        }
        self.redirect = dir;
        Ok(())
    }

    fn stage_is_empty(&self) -> (b: bool)
        ensures
            b == stage_is_empty(self@),
    {
        self.args.len() == 0 && self.files_in.len() == 0 && self.files_out.len() == 0
    }

    fn take_stage(&mut self) -> (c: Command)
        ensures
            c@ == current_stage(old(self)@),
            final(self)@ == (ParseState {
                args: Seq::empty(),
                files_in: Seq::empty(),
                files_out: Seq::empty(),
                ..old(self)@
            }),
    {
        let mut args = Vec::new();
        let mut files_in = Vec::new();
        let mut files_out = Vec::new();
        core::mem::swap(&mut args, &mut self.args);
        core::mem::swap(&mut files_in, &mut self.files_in);
        core::mem::swap(&mut files_out, &mut self.files_out);
        assert(self@.args =~= Seq::empty());
        assert(self@.files_in =~= Seq::empty());
        assert(self@.files_out =~= Seq::empty());
        Command { args, files_in, files_out }
    }

    fn pipe_operator(&mut self) -> (r: Result<(), ParseError>)
        ensures
            outcome_matches(r, final(self)@, pipe_operator(old(self)@)),
    {
        let r = self.flush_pending();
        if r.is_err() {
            return r;
        }
        if self.stage_is_empty() {
            return Err(ParseError::EmptyPipeSegment(PipeSide::Before));
        }
        let stage = self.take_stage();
        proof {
            lemma_commands_view_push(self.stages@, stage);
        }
        self.stages.push(stage);
        self.redirect = RedirectState::Arguments;
        Ok(())
    }

    fn step(&mut self, c: char) -> (r: Result<(), ParseError>)
        ensures
            outcome_matches(r, final(self)@, step(old(self)@, c)),
    {
        match self.quote {
            QuoteState::InSingleQuote => {
                if c == '\'' {
                    self.quote = QuoteState::Unquoted;
                } else {
                    push_char_to(&mut self.token, c);
                }
                Ok(())
            },
            QuoteState::InDoubleQuote => {
                if c == '"' {
                    self.quote = QuoteState::Unquoted;
                } else {
                    push_char_to(&mut self.token, c);
                }
                Ok(())
            },
            QuoteState::Unquoted => {
                if c == '\'' {
                    self.quote = QuoteState::InSingleQuote;
                    Ok(())
                } else if c == '"' {
                    self.quote = QuoteState::InDoubleQuote;
                    Ok(())
                } else if c == '<' {
                    self.redirect_operator(RedirectState::CollectingInput)
                } else if c == '>' {
                    self.redirect_operator(RedirectState::CollectingOutput)
                } else if c == '|' {
                    self.pipe_operator()
                } else if c == ' ' {
                    self.flush_at_space();
                    Ok(())
                } else {
                    push_char_to(&mut self.token, c);
                    Ok(())
                }
            },
        }
    }

    fn finish(self) -> (r: Result<Vec<Command>, ParseError>)
        ensures
            match finish(self@) {
                Ok(v) => r is Ok && commands_view(r->Ok_0@) == v,
                Err(e) => r == Err::<Vec<Command>, ParseError>(e),
            },
    {
        let mut t = self;
        if t.quote != QuoteState::Unquoted {
            return Err(ParseError::UnclosedQuote);
        }
        let r = t.flush_pending();
        if let Err(e) = r {
            return Err(e);
        }
        if !t.stage_is_empty() {
            let stage = t.take_stage();
            proof {
                lemma_commands_view_push(t.stages@, stage);
            }
            t.stages.push(stage);
            Ok(t.stages)
        } else if t.stages.len() > 0 {
            Err(ParseError::EmptyPipeSegment(PipeSide::After))
        } else {
            Ok(t.stages)
        }
    }
}

/// Splits one input line into its pipeline stages.
///
/// The line ends at its first newline, or at the end of the text. Quotes
/// group characters into one token and keep `<`, `>`, `|` and spaces
/// literal; `<` and `>` collect input and output paths; `|` ends a stage.
/// A blank line gives no stage at all.
pub fn parse(cmd_line: &str) -> (r: Result<Vec<Command>, ParseError>)
    ensures
        match parse_spec(cmd_line@) {
            Ok(v) => r is Ok && commands_view(r->Ok_0@) == v,
            Err(e) => r == Err::<Vec<Command>, ParseError>(e),
        },
{
    let n = cmd_line.unicode_len();
    let ghost chars = cmd_line@;
    let mut t = Tokenizer::new();
    let mut i: usize = 0;
    while i < n && cmd_line.get_char(i) != '\n'
        invariant
            n == chars.len(),
            chars == cmd_line@,
            0 <= i <= n,
            forall|j: int| 0 <= j < i ==> chars[j] != '\n',
            run(chars.take(i as int)) == Ok::<ParseState, ParseError>(t@),
        decreases n - i,
    {
        let c = cmd_line.get_char(i);
        let r = t.step(c);
        assert(chars.take(i + 1).drop_last() =~= chars.take(i as int));
        if let Err(e) = r {
            proof {
                lemma_line_len(chars, i + 1);
                lemma_line_len_bounded(chars);
                lemma_run_error_stays(chars, i + 1, line_len(chars) as int);
            }
            return Err(e);
        }
        i += 1;
    }
    proof {
        lemma_line_len(chars, i as int);
    }
    t.finish()
}

} // verus!
