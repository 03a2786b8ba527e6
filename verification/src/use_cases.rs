//! The session's use cases: running a submitted line through the pipeline,
//! and feeding editor events into the terminal state.
use vstd::prelude::*;
use crate::entities::{Command, TerminalState, TerminalMode, HISTORY_RING_CAP, OUTPUT_CAP, all_spaces};
use crate::services::{CommandService, TerminalService, views, ring_push, ring_push_all};
use crate::repositories::CommandRepository;
use crate::exit_commands::ExitCommandsUseCase;
use crate::texts::PromptText;
use crate::text::{str_eq, split_lines, lines_of};

verus! {

/// Runs submitted lines: parse, record, dispatch, and fold the outcome into
/// the output log and the termination flag.
pub struct ExecuteCommandUseCase<R> where R: CommandRepository {
    command_service: CommandService<R>,
    terminal_service: TerminalService,
}

impl<R> ExecuteCommandUseCase<R> where R: CommandRepository {
    /// The terminal state this use case owns.
    pub closed spec fn state_view(self) -> TerminalState {
        self.terminal_service.state_view()
    }

    pub open spec fn wf(self) -> bool {
        self.state_view().wf()
    }

    pub fn new(command_service: CommandService<R>, terminal_service: TerminalService) -> (r:
        ExecuteCommandUseCase<R>)
        ensures
            r.state_view() == terminal_service.state_view(),
    {
        ExecuteCommandUseCase { command_service, terminal_service }
    }

    /// Parses and runs one submitted line. The line lands in the submitted
    /// ring (unless blank) and the prompt echo lands in the output log; then
    /// the result decides: `clear` empties the log, `exit`/`quit` sets the
    /// termination flag, anything else appends its output line by line, and
    /// a dispatch error leaves the log at the echo alone.
    pub fn execute(&mut self, input: &str, current_dir: &str) -> (r: Result<Command, String>)
        requires
            old(self).wf(),
        ensures
            final(self).wf(),
            ({
                let st0 = old(self).state_view();
                let st1 = final(self).state_view();
                let echoed = ring_push(
                    views(st0.output_lines@),
                    current_dir@ + ":~$ "@ + input@,
                    OUTPUT_CAP as nat,
                );
                &&& st1.command_buffer == st0.command_buffer
                &&& st1.cursor_position == st0.cursor_position
                &&& st1.mode == st0.mode
                &&& (all_spaces(input@) ==> st1.command_history == st0.command_history)
                &&& (!all_spaces(input@) ==> views(st1.command_history@) == (if views(
                    st0.command_history@,
                ).len() < HISTORY_RING_CAP {
                    views(st0.command_history@).push(input@)
                } else {
                    views(st0.command_history@).drop_first().push(input@)
                }))
                &&& (match r {
                    Result::Err(_) => views(st1.output_lines@) == echoed && st1.should_exit
                        == st0.should_exit,
                    Result::Ok(res) => if res.name@ == "clear"@ {
                        views(st1.output_lines@) == Seq::<Seq<char>>::empty() && st1.should_exit
                            == st0.should_exit
                    } else if res.name@ == "exit"@ || res.name@ == "quit"@ {
                        views(st1.output_lines@) == echoed && st1.should_exit == true
                    } else {
                        views(st1.output_lines@) == ring_push_all(
                            echoed,
                            lines_of(res.output@),
                            OUTPUT_CAP as nat,
                        ) && st1.should_exit == st0.should_exit
                    },
                })
            }),
    {
        let command = self.command_service.parse_command(input);
        let st = self.terminal_service.get_state_mut();
        st.add_to_history(input.to_owned());
        proof {
            if !all_spaces(input@) {
                if views(old(self).state_view().command_history@).len() < HISTORY_RING_CAP {
                    assert(views(st.command_history@) =~= views(
                        old(self).state_view().command_history@,
                    ).push(input@));
                } else {
                    assert(views(st.command_history@) =~= views(
                        old(self).state_view().command_history@,
                    ).drop_first().push(input@));
                }
            }
        }
        let ghost hist1 = self.state_view().command_history;
        let prompt_line = PromptText::format_full_prompt(current_dir, input);
        self.terminal_service.add_output_line(prompt_line);
        let result = self.command_service.execute_command(&command);
        let res = match result {
            Ok(res) => res,
            Err(e) => {
                return Err(e);
            },
        };
        if str_eq(res.name.as_str(), "clear") {
            self.terminal_service.clear_output();
            proof {
                assert(views(self.state_view().output_lines@) =~= Seq::<Seq<char>>::empty());
            }
        } else {
            let exit_use_case = ExitCommandsUseCase::new();
            if exit_use_case.is_exit_command(res.name.as_str()) {
                let st2 = self.terminal_service.get_state_mut();
                st2.should_exit = true;
            } else {
                let ghost echoed = views(self.state_view().output_lines@);
                let lines = split_lines(res.output.as_str());
                let n = lines.len();
                let mut i: usize = 0;
                while i < n
                    invariant
                        i <= n,
                        n == lines@.len(),
                        lines@.map_values(|t: String| t@) == lines_of(res.output@),
                        self.wf(),
                        views(self.state_view().output_lines@) == ring_push_all(
                            echoed,
                            lines_of(res.output@).take(i as int),
                            OUTPUT_CAP as nat,
                        ),
                        self.state_view().command_buffer == old(self).state_view().command_buffer,
                        self.state_view().cursor_position == old(
                            self,
                        ).state_view().cursor_position,
                        self.state_view().mode == old(self).state_view().mode,
                        self.state_view().should_exit == old(self).state_view().should_exit,
                        self.state_view().command_history == hist1,
                    decreases n - i,
                {
                    proof {
                        assert(lines_of(res.output@).take(i + 1 as int).drop_last() =~= lines_of(
                            res.output@,
                        ).take(i as int));
                        assert(lines_of(res.output@).take(i + 1 as int).last() == lines@[
                        i as int]@);
                    }
                    let line = lines[i].clone();
                    self.terminal_service.add_output_line(line);
                    i = i + 1;
                }
                proof {
                    assert(lines_of(res.output@).take(n as int) =~= lines_of(res.output@));
                }
            }
        }
        Ok(res)
    }

    /// Whether the session has been marked for termination.
    pub fn should_exit(&self) -> (r: bool)
        ensures
            r == self.state_view().should_exit,
    {
        self.terminal_service.should_exit()
    }
}

/// Feeds editor events into the terminal state.
pub struct HandleInputUseCase {
    terminal_service: TerminalService,
}

impl HandleInputUseCase {
    /// The terminal state this use case owns.
    pub closed spec fn state_view(self) -> TerminalState {
        self.terminal_service.state_view()
    }

    pub open spec fn wf(self) -> bool {
        self.state_view().wf()
    }

    pub fn new(terminal_service: TerminalService) -> (r: HandleInputUseCase)
        ensures
            r.state_view() == terminal_service.state_view(),
    {
        HandleInputUseCase { terminal_service }
    }

    /// Appends one line to the output log.
    pub fn add_output_line(&mut self, line: String)
        requires
            old(self).wf(),
        ensures
            final(self).wf(),
            views(final(self).state_view().output_lines@) == ring_push(
                views(old(self).state_view().output_lines@),
                line@,
                OUTPUT_CAP as nat,
            ),
            final(self).state_view() == (TerminalState {
                output_lines: final(self).state_view().output_lines,
                ..old(self).state_view()
            }),
    {
        self.terminal_service.add_output_line(line);
    }

    /// Empties the buffer and parks the cursor.
    pub fn clear_buffer(&mut self)
        requires
            old(self).wf(),
        ensures
            final(self).wf(),
            final(self).state_view().command_buffer@ == Seq::<char>::empty(),
            final(self).state_view().cursor_position == 0,
            final(self).state_view() == (TerminalState {
                command_buffer: final(self).state_view().command_buffer,
                cursor_position: 0,
                ..old(self).state_view()
            }),
    {
        let st = self.terminal_service.get_state_mut();
        st.clear_buffer();
    }

    /// Types one character at the cursor.
    pub fn handle_key_press(&mut self, ch: char)
        requires
            old(self).wf(),
            old(self).state_view().command_buffer@.len() < usize::MAX,
        ensures
            final(self).wf(),
            final(self).state_view().command_buffer@ == old(
                self,
            ).state_view().command_buffer@.take(old(self).state_view().cursor_position as int).push(
                ch,
            ) + old(self).state_view().command_buffer@.skip(
                old(self).state_view().cursor_position as int,
            ),
            final(self).state_view().cursor_position == old(self).state_view().cursor_position + 1,
            final(self).state_view() == (TerminalState {
                command_buffer: final(self).state_view().command_buffer,
                cursor_position: final(self).state_view().cursor_position,
                ..old(self).state_view()
            }),
    {
        let st = self.terminal_service.get_state_mut();
        st.insert_char(ch);
    }

    /// Deletes the character before the cursor, if any.
    pub fn handle_backspace(&mut self)
        requires
            old(self).wf(),
        ensures
            final(self).wf(),
            old(self).state_view().cursor_position == 0 ==> final(self).state_view() == old(
                self,
            ).state_view(),
            old(self).state_view().cursor_position > 0 ==> final(self).state_view().command_buffer@
                == old(self).state_view().command_buffer@.take(
                old(self).state_view().cursor_position - 1,
            ) + old(self).state_view().command_buffer@.skip(
                old(self).state_view().cursor_position as int,
            ) && final(self).state_view().cursor_position == old(self).state_view().cursor_position
                - 1,
            final(self).state_view() == (TerminalState {
                command_buffer: final(self).state_view().command_buffer,
                cursor_position: final(self).state_view().cursor_position,
                ..old(self).state_view()
            }),
    {
        let st = self.terminal_service.get_state_mut();
        st.delete_char();
    }

    /// Moves the cursor one place left, stopping at the start.
    pub fn handle_arrow_left(&mut self)
        requires
            old(self).wf(),
        ensures
            final(self).wf(),
            final(self).state_view().cursor_position == (if old(self).state_view().cursor_position
                > 0 {
                old(self).state_view().cursor_position - 1
            } else {
                0int
            }),
            final(self).state_view() == (TerminalState {
                cursor_position: final(self).state_view().cursor_position,
                ..old(self).state_view()
            }),
    {
        let st = self.terminal_service.get_state_mut();
        if st.cursor_position > 0 {
            st.cursor_position = st.cursor_position - 1;
        }
    }

    /// Moves the cursor one place right, stopping at the end.
    pub fn handle_arrow_right(&mut self)
        requires
            old(self).wf(),
        ensures
            final(self).wf(),
            final(self).state_view().cursor_position == (if old(self).state_view().cursor_position
                < old(self).state_view().command_buffer@.len() {
                old(self).state_view().cursor_position + 1
            } else {
                old(self).state_view().cursor_position as int
            }),
            final(self).state_view() == (TerminalState {
                cursor_position: final(self).state_view().cursor_position,
                ..old(self).state_view()
            }),
    {
        let st = self.terminal_service.get_state_mut();
        if st.cursor_position < st.command_buffer.as_str().unicode_len() {
            st.cursor_position = st.cursor_position + 1;
        }
    }

    /// Sends the cursor to the start of the buffer.
    pub fn handle_home(&mut self)
        requires
            old(self).wf(),
        ensures
            final(self).wf(),
            final(self).state_view().cursor_position == 0,
            final(self).state_view() == (TerminalState {
                cursor_position: 0,
                ..old(self).state_view()
            }),
    {
        let st = self.terminal_service.get_state_mut();
        st.cursor_position = 0;
    }

    /// Sends the cursor past the last character.
    pub fn handle_end(&mut self)
        requires
            old(self).wf(),
        ensures
            final(self).wf(),
            final(self).state_view().cursor_position == old(
                self,
            ).state_view().command_buffer@.len(),
            final(self).state_view() == (TerminalState {
                cursor_position: final(self).state_view().cursor_position,
                ..old(self).state_view()
            }),
    {
        let st = self.terminal_service.get_state_mut();
        st.cursor_position = st.command_buffer.as_str().unicode_len();
    }

    /// The buffer as text.
    pub fn get_command_buffer(&self) -> (r: String)
        ensures
            r@ == self.state_view().command_buffer@,
    {
        self.terminal_service.get_state().command_buffer.clone()
    }

    /// A copy of the output log.
    pub fn get_output_lines(&self) -> (r: Vec<String>)
        ensures
            r@ == self.state_view().output_lines@,
    {
        let st = self.terminal_service.get_state();
        let n = st.output_lines.len();
        let mut r: Vec<String> = Vec::new();
        let mut i: usize = 0;
        while i < n
            invariant
                i <= n,
                n == st.output_lines@.len(),
                r@ == st.output_lines@.take(i as int),
            decreases n - i,
        {
            r.push(st.output_lines[i].clone());
            proof {
                assert(st.output_lines@.take(i + 1 as int) =~= st.output_lines@.take(
                    i as int,
                ).push(st.output_lines@[i as int]));
            }
            i = i + 1;
        }
        proof {
            assert(st.output_lines@.take(n as int) =~= st.output_lines@);
        }
        r
    }

    /// Where the cursor stands.
    pub fn get_cursor_position(&self) -> (r: usize)
        ensures
            r == self.state_view().cursor_position,
    {
        self.terminal_service.get_state().cursor_position
    }

    /// Which mode the terminal is in.
    pub fn get_current_mode(&self) -> (r: TerminalMode)
        ensures
            r == self.state_view().mode,
    {
        self.terminal_service.get_state().mode
    }

    /// Puts the terminal in the plain command mode.
    pub fn switch_to_command_mode(&mut self)
        ensures
            final(self).state_view() == (TerminalState {
                mode: TerminalMode::Command,
                ..old(self).state_view()
            }),
    {
        let st = self.terminal_service.get_state_mut();
        st.mode = TerminalMode::Command;
    }

    /// Puts the terminal in the animated mode.
    pub fn switch_to_matrix_mode(&mut self)
        ensures
            final(self).state_view() == (TerminalState {
                mode: TerminalMode::Matrix,
                ..old(self).state_view()
            }),
    {
        let st = self.terminal_service.get_state_mut();
        st.mode = TerminalMode::Matrix;
    }
}

} // verus!
