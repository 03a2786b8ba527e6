//! Parsing of raw input into commands, and the service owning the shared
//! terminal state with its bounded output log.
use vstd::prelude::*;
use crate::entities::{Command, TerminalState, TerminalMode, OUTPUT_CAP};
use crate::repositories::CommandRepository;
use crate::text::split_ws;

verus! {

/// The view of each string in a sequence.
pub open spec fn views(s: Seq<String>) -> Seq<Seq<char>> {
    s.map_values(|x: String| x@)
}

/// What appending to the bounded output log does: the line goes at the end
/// and the oldest line leaves once the log would exceed the cap.
pub open spec fn ring_push(s: Seq<Seq<char>>, line: Seq<char>, cap: nat) -> Seq<Seq<char>> {
    if s.len() + 1 > cap {
        s.push(line).drop_first()
    } else {
        s.push(line)
    }
}

/// Appending many lines in order.
pub open spec fn ring_push_all(s: Seq<Seq<char>>, lines: Seq<Seq<char>>, cap: nat) -> Seq<
    Seq<char>,
>
    decreases lines.len(),
{
    if lines.len() == 0 {
        s
    } else {
        ring_push(ring_push_all(s, lines.drop_last(), cap), lines.last(), cap)
    }
}

/// Parsing and dispatching of commands through a repository.
pub struct CommandService<R> where R: CommandRepository {
    repository: R,
}

impl<R> CommandService<R> where R: CommandRepository {
    pub fn new(repository: R) -> (r: CommandService<R>) {
        CommandService { repository }
    }

    /// Hands the command to the repository; what comes back is the
    /// repository's to decide.
    pub fn execute_command(&self, command: &Command) -> Result<Command, String> {
        self.repository.execute_command(command)
    }

    /// Splits the input on whitespace: the first word is the command name,
    /// the rest are its arguments; blank input parses to the empty command.
    pub fn parse_command(&self, input: &str) -> (r: Command)
        ensures
            split_ws(input@).len() == 0 ==> r.name@ == Seq::<char>::empty() && r.args@.len() == 0,
            split_ws(input@).len() > 0 ==> r.name@ == split_ws(input@)[0] && views(r.args@)
                == split_ws(input@).drop_first(),
            r.output@ == Seq::<char>::empty(),
            r.exit_code == 0,
    {
        let mut parts = crate::text::split_whitespace(input);
        if parts.len() == 0 {
            Command::new(String::new(), Vec::new())
        } else {
            let name = parts.remove(0);
            proof {
                assert(name@ == split_ws(input@)[0]);
                assert(views(parts@) =~= split_ws(input@).drop_first());
            }
            Command::new(name, parts)
        }
    }
}

/// The owner of the shared terminal state.
pub struct TerminalService {
    state: TerminalState,
}

impl TerminalService {
    /// What the service's state is.
    pub closed spec fn state_view(self) -> TerminalState {
        self.state
    }

    /// A fresh session.
    pub fn new() -> (r: TerminalService)
        ensures
            r.state_view().command_buffer@ == Seq::<char>::empty(),
            r.state_view().cursor_position == 0,
            r.state_view().command_history@ == Seq::<String>::empty(),
            r.state_view().history_index == 0,
            r.state_view().output_lines@ == Seq::<String>::empty(),
            r.state_view().mode == TerminalMode::Matrix,
            r.state_view().should_exit == false,
            r.state_view().wf(),
    {
        let state = TerminalState::default();
        TerminalService { state }
    }

    pub fn get_state(&self) -> (r: &TerminalState)
        ensures
            *r == self.state_view(),
    {
        &self.state
    }

    pub fn get_state_mut(&mut self) -> (r: &mut TerminalState)
        ensures
            *r == old(self).state_view(),
            final(self).state_view() == *final(r),
    {
        &mut self.state
    }

    /// Switches between the animated and the plain command mode.
    pub fn switch_mode(&mut self, mode: TerminalMode)
        ensures
            final(self).state_view() == (TerminalState { mode, ..old(self).state_view() }),
    {
        self.state.mode = mode;
    }

    /// Appends one line to the output log, evicting the oldest line once
    /// the log is full.
    pub fn add_output_line(&mut self, line: String)
        requires
            old(self).state_view().wf(),
        ensures
            final(self).state_view().wf(),
            views(final(self).state_view().output_lines@) == ring_push(
                views(old(self).state_view().output_lines@),
                line@,
                OUTPUT_CAP as nat,
            ),
            final(self).state_view() == (TerminalState {
                output_lines: final(self).state_view().output_lines,
                ..old(self).state_view()
            }),
    {
        self.state.output_lines.push(line);
        if self.state.output_lines.len() > OUTPUT_CAP {
            self.state.output_lines.remove(0);
            proof {
                assert(views(self.state.output_lines@) =~= views(
                    old(self).state.output_lines@,
                ).push(line@).drop_first());
            }
        } else {
            proof {
                assert(views(self.state.output_lines@) =~= views(
                    old(self).state.output_lines@,
                ).push(line@));
            }
        }
    }

    /// Empties the output log.
    pub fn clear_output(&mut self)
        ensures
            final(self).state_view().output_lines@ == Seq::<String>::empty(),
            final(self).state_view() == (TerminalState {
                output_lines: final(self).state_view().output_lines,
                ..old(self).state_view()
            }),
    {
        self.state.output_lines.clear();
    }

    /// Whether the session has been marked for termination.
    pub fn should_exit(&self) -> (r: bool)
        ensures
            r == self.state_view().should_exit,
    {
        self.state.should_exit
    }
}

} // verus!
