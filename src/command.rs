use vstd::prelude::*;

verus! {

/// One pipeline stage: its argument list (the command name first) and the
/// paths of its input sources and output destinations, each in the order
/// they were written.
pub struct Command {
    pub args: Vec<String>,
    pub files_in: Vec<String>,
    pub files_out: Vec<String>,
}

/// The mathematical content of a `Command`.
pub struct CommandView {
    pub args: Seq<Seq<char>>,
    pub files_in: Seq<Seq<char>>,
    pub files_out: Seq<Seq<char>>,
}

pub open spec fn strings_view(v: Seq<String>) -> Seq<Seq<char>> {
    v.map_values(|s: String| s@)
}

pub open spec fn commands_view(v: Seq<Command>) -> Seq<CommandView> {
    v.map_values(|c: Command| c@)
}

impl View for Command {
    type V = CommandView;

    open spec fn view(&self) -> CommandView {
        CommandView {
            args: strings_view(self.args@),
            files_in: strings_view(self.files_in@),
            files_out: strings_view(self.files_out@),
        }
    }
}

pub proof fn lemma_strings_view_push(v: Seq<String>, s: String)
    ensures
        strings_view(v.push(s)) == strings_view(v).push(s@),
{
    assert(strings_view(v.push(s)) =~= strings_view(v).push(s@));
}

pub proof fn lemma_commands_view_push(v: Seq<Command>, c: Command)
    ensures
        commands_view(v.push(c)) == commands_view(v).push(c@),
{
    assert(commands_view(v.push(c)) =~= commands_view(v).push(c@));
}

} // verus!
