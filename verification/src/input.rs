//! The session front end: editor events come in, submitted lines run
//! through the pipeline, and every execution lands in the ledger exactly
//! once.
use vstd::prelude::*;
use crate::entities::{Command, TerminalState, all_spaces, OUTPUT_CAP};
use crate::use_cases::{ExecuteCommandUseCase, HandleInputUseCase};
use crate::history_commands::{
    HistoryCommandsUseCase,
    HistoryCommandParser,
    HistoryCommand,
    is_history_command_text,
    history_reply,
};
use crate::history::{CommandEntry, ledger_push};
use crate::repositories::CommandRepository;
use crate::services::{views, ring_push_all};
use crate::texts::ErrorMessages;
use crate::text::{trim_sp, lines_of, split_lines};

verus! {

/// The capacity of the session's execution ledger.
pub const SESSION_LEDGER_CAP: usize = 100;

/// The characters the editor accepts: printable ASCII.
pub open spec fn printable_ascii(c: char) -> bool {
    32 <= (c as u32) && (c as u32) < 127
}

/// The acceptance filter as one predicate value.
pub open spec fn printable_pred() -> spec_fn(char) -> bool {
    |c: char| printable_ascii(c)
}

/// The session front end.
pub struct InputHandler<R> where R: CommandRepository {
    input_handler: HandleInputUseCase,
    command_executor: ExecuteCommandUseCase<R>,
    history_commands: HistoryCommandsUseCase,
    last_input_time_ms: u64,
    input_buffer: String,
    input_buffer_dirty: bool,
}

impl<R> InputHandler<R> where R: CommandRepository {
    /// The editor's terminal state.
    pub closed spec fn editor_view(self) -> TerminalState {
        self.input_handler.state_view()
    }

    /// The pipeline's terminal state, where the termination flag lives.
    pub closed spec fn executor_view(self) -> TerminalState {
        self.command_executor.state_view()
    }

    /// The execution ledger.
    pub closed spec fn ledger_view(self) -> Seq<CommandEntry> {
        self.history_commands.history_view()
    }

    pub closed spec fn ledger_capacity(self) -> nat {
        self.history_commands.history_capacity()
    }

    /// When the last keystroke was accepted, in host milliseconds.
    pub closed spec fn last_input_view(self) -> u64 {
        self.last_input_time_ms
    }

    pub open spec fn wf(self) -> bool {
        &&& self.editor_view().wf()
        &&& self.executor_view().wf()
        &&& self.ledger_view().len() <= self.ledger_capacity()
        &&& self.ledger_capacity() >= 1
    }

    pub fn new(input_handler: HandleInputUseCase, command_executor: ExecuteCommandUseCase<R>) -> (r:
        InputHandler<R>)
        requires
            input_handler.wf(),
            command_executor.wf(),
        ensures
            r.wf(),
            r.editor_view() == input_handler.state_view(),
            r.executor_view() == command_executor.state_view(),
            r.ledger_view() == Seq::<CommandEntry>::empty(),
            r.last_input_view() == 0,
    {
        InputHandler {
            input_handler,
            command_executor,
            history_commands: HistoryCommandsUseCase::new(SESSION_LEDGER_CAP),
            last_input_time_ms: 0,
            input_buffer: String::new(),
            input_buffer_dirty: true,
        }
    }

    /// Types the printable ASCII characters of the text into the editor at
    /// the cursor, in order, and stamps the keystroke time; every other
    /// character of the text is dropped.
    pub fn handle_text_input(&mut self, text: &str, now_ms: u64)
        requires
            old(self).wf(),
            old(self).editor_view().command_buffer@.len() + text@.len() < usize::MAX,
        ensures
            final(self).wf(),
            final(self).executor_view() == old(self).executor_view(),
            final(self).ledger_view() == old(self).ledger_view(),
            ({
                let buf0 = old(self).editor_view().command_buffer@;
                let cur0 = old(self).editor_view().cursor_position as int;
                let typed = text@.filter(printable_pred());
                &&& final(self).editor_view().command_buffer@ == buf0.take(cur0) + typed
                    + buf0.skip(cur0)
                &&& final(self).editor_view().cursor_position == cur0 + typed.len()
                &&& final(self).editor_view() == (TerminalState {
                    command_buffer: final(self).editor_view().command_buffer,
                    cursor_position: final(self).editor_view().cursor_position,
                    ..old(self).editor_view()
                })
            }),
    {
        let ghost buf0 = old(self).editor_view().command_buffer@;
        let ghost cur0 = old(self).editor_view().cursor_position as int;
        let ghost p = printable_pred();
        let n = text.unicode_len();
        let mut i: usize = 0;
        proof {
            reveal(Seq::filter);
            assert(text@.take(0).filter(p) =~= Seq::<char>::empty());
            assert(self.editor_view().command_buffer@ =~= buf0.take(cur0) + text@.take(0).filter(
                p,
            ) + buf0.skip(cur0));
        }
        while i < n
            invariant
                i <= n,
                n == text@.len(),
                p == printable_pred(),
                buf0 == old(self).editor_view().command_buffer@,
                cur0 == old(self).editor_view().cursor_position,
                0 <= cur0 <= buf0.len(),
                buf0.len() + n < usize::MAX,
                self.wf(),
                self.editor_view().command_buffer@ == buf0.take(cur0) + text@.take(
                    i as int,
                ).filter(p) + buf0.skip(cur0),
                self.editor_view().cursor_position == cur0 + text@.take(i as int).filter(p).len(),
                self.editor_view() == (TerminalState {
                    command_buffer: self.editor_view().command_buffer,
                    cursor_position: self.editor_view().cursor_position,
                    ..old(self).editor_view()
                }),
                self.executor_view() == old(self).executor_view(),
                self.ledger_view() == old(self).ledger_view(),
                self.ledger_capacity() == old(self).ledger_capacity(),
            decreases n - i,
        {
            proof {
                reveal(Seq::filter);
                text@.take(i as int).lemma_filter_len(p);
                assert(text@.take(i + 1 as int).drop_last() =~= text@.take(i as int));
                assert(text@.take(i + 1 as int).last() == text@[i as int]);
            }
            let ch = text.get_char(i);
            let code = ch as u32;
            if code >= 32 && code < 127 {
                let ghost cur_len = text@.take(i as int).filter(p).len();
                self.input_handler.handle_key_press(ch);
                proof {
                    let before = buf0.take(cur0) + text@.take(i as int).filter(p) + buf0.skip(
                        cur0,
                    );
                    assert(before.take(cur0 + cur_len) =~= buf0.take(cur0) + text@.take(
                        i as int,
                    ).filter(p));
                    assert(before.skip(cur0 + cur_len) =~= buf0.skip(cur0));
                    assert(self.editor_view().command_buffer@ =~= buf0.take(cur0) + text@.take(
                        i + 1 as int,
                    ).filter(p) + buf0.skip(cur0));
                }
                crate::text::push_char(&mut self.input_buffer, ch);
                self.input_buffer_dirty = true;
                self.last_input_time_ms = now_ms;
            } else {
                proof {
                    assert(text@.take(i + 1 as int).filter(p) == text@.take(i as int).filter(p));
                }
            }
            i = i + 1;
        }
        proof {
            assert(text@.take(n as int) =~= text@);
        }
    }

    /// One backspace, stamped: the character before the cursor goes, or
    /// nothing does at the start of the line.
    pub fn handle_backspace(&mut self, now_ms: u64)
        requires
            old(self).wf(),
        ensures
            final(self).wf(),
            final(self).executor_view() == old(self).executor_view(),
            final(self).ledger_view() == old(self).ledger_view(),
            final(self).last_input_view() == now_ms,
            ({
                let buf0 = old(self).editor_view().command_buffer@;
                let cur0 = old(self).editor_view().cursor_position as int;
                &&& (cur0 == 0 ==> final(self).editor_view().command_buffer@ == buf0
                    && final(self).editor_view().cursor_position == 0)
                &&& (cur0 > 0 ==> final(self).editor_view().command_buffer@ == buf0.take(cur0 - 1)
                    + buf0.skip(cur0) && final(self).editor_view().cursor_position == cur0 - 1)
            }),
    {
        self.input_handler.handle_backspace();
        self.input_buffer_dirty = true;
        self.last_input_time_ms = now_ms;
    }

    /// Runs a history command if the buffer holds one; says whether it did.
    /// The command's reply lands line by line in the editor's output log.
    pub fn handle_history_commands(&mut self, command: &str) -> (r: bool)
        requires
            old(self).wf(),
        ensures
            final(self).wf(),
            final(self).last_input_view() == old(self).last_input_view(),
            r == is_history_command_text(trim_sp(command@)),
            !r ==> *final(self) == *old(self),
            final(self).executor_view() == old(self).executor_view(),
            final(self).ledger_view() == old(self).ledger_view() || final(self).ledger_view()
                == Seq::<CommandEntry>::empty(),
            r ==> views(final(self).editor_view().output_lines@) == ring_push_all(
                views(old(self).editor_view().output_lines@),
                history_reply(trim_sp(command@), old(self).ledger_view()),
                OUTPUT_CAP as nat,
            ),
            r ==> final(self).editor_view() == (TerminalState {
                output_lines: final(self).editor_view().output_lines,
                ..old(self).editor_view()
            }),
    {
        let ghost reply = history_reply(trim_sp(command@), old(self).ledger_view());
        let parsed = HistoryCommandParser::parse_command(command);
        match parsed {
            HistoryCommand::NotHistoryCommand => false,
            other => {
                let ghost parsed_g = other;
                let output_lines = other.execute(&mut self.history_commands);
                proof {
                    if parsed_g matches HistoryCommand::Invalid(m) {
                        assert(output_lines@.map_values(|s: String| s@) =~= seq![
                            "Error: "@ + "Formato inválido para history -n"@,
                        ]);
                        assert("Error: "@ + "Formato inválido para history -n"@
                            =~= "Error: Formato inválido para history -n"@) by {
                            reveal_strlit("Error: ");
                            reveal_strlit("Formato inválido para history -n");
                            reveal_strlit("Error: Formato inválido para history -n");
                        }
                    }
                    assert(output_lines@.map_values(|s: String| s@) == reply);
                }
                let n = output_lines.len();
                let mut i: usize = 0;
                proof {
                    assert(views(self.editor_view().output_lines@) =~= ring_push_all(
                        views(old(self).editor_view().output_lines@),
                        reply.take(0),
                        OUTPUT_CAP as nat,
                    ));
                }
                while i < n
                    invariant
                        i <= n,
                        n == output_lines@.len(),
                        output_lines@.map_values(|s: String| s@) == reply,
                        self.wf(),
                        self.last_input_view() == old(self).last_input_view(),
                        self.executor_view() == old(self).executor_view(),
                        self.ledger_view() == old(self).ledger_view() || self.ledger_view()
                            == Seq::<CommandEntry>::empty(),
                        self.ledger_capacity() == old(self).ledger_capacity(),
                        views(self.editor_view().output_lines@) == ring_push_all(
                            views(old(self).editor_view().output_lines@),
                            reply.take(i as int),
                            OUTPUT_CAP as nat,
                        ),
                        self.editor_view() == (TerminalState {
                            output_lines: self.editor_view().output_lines,
                            ..old(self).editor_view()
                        }),
                    decreases n - i,
                {
                    proof {
                        assert(reply.take(i + 1 as int).drop_last() =~= reply.take(i as int));
                        assert(reply.take(i + 1 as int).last() == output_lines@[i as int]@);
                    }
                    self.input_handler.add_output_line(output_lines[i].clone());
                    i = i + 1;
                }
                proof {
                    assert(reply.take(n as int) =~= reply);
                }
                true
            },
        }
    }

    /// Runs one submitted command through the pipeline. Whatever happens,
    /// exactly one entry lands at the end of the ledger, carrying the
    /// command text: marked successful with the captured output exactly
    /// when the command finished with a zero code, and failed with the
    /// error text attached otherwise. An `exit` or `quit` that completes
    /// marks the session for termination. The editor's buffer ends empty.
    pub fn execute_command(&mut self, command: &str, current_dir: &str) -> (r: Result<
        Command,
        String,
    >)
        requires
            old(self).wf(),
        ensures
            final(self).wf(),
            final(self).last_input_view() == old(self).last_input_view(),
            final(self).ledger_view().len() >= 1,
            ({
                let e = final(self).ledger_view().last();
                &&& final(self).ledger_view() == ledger_push(
                    old(self).ledger_view(),
                    e,
                    old(self).ledger_capacity(),
                )
                &&& e.command@ == command@
                &&& (match r {
                    Result::Ok(res) => {
                        &&& e.success == (res.exit_code == 0)
                        &&& (res.exit_code == 0 ==> e.error_message is None)
                        &&& (res.exit_code != 0 ==> e.error_message == Option::Some(res.output))
                        &&& (res.exit_code == 0 && res.output@.len() > 0 ==> views(e.output@)
                            == lines_of(res.output@))
                        &&& (res.exit_code != 0 ==> e.output@.len() == 0)
                    },
                    Result::Err(err) => {
                        &&& e.success == false
                        &&& e.error_message == Option::Some(err)
                        &&& e.output@.len() == 0
                    },
                })
            }),
            (r matches Ok(res) && (res.name@ == "exit"@ || res.name@ == "quit"@)
                ==> final(self).executor_view().should_exit == true),
            final(self).editor_view().command_buffer@ == Seq::<char>::empty(),
            final(self).editor_view().cursor_position == 0,
    {
        let ghost cap = old(self).ledger_capacity();
        let ghost ledger0 = old(self).ledger_view();
        let result = self.command_executor.execute(command, current_dir);
        match &result {
            Ok(command_result) => {
                if command_result.exit_code == 0 {
                    let output_lines: Vec<String> = if command_result.output.as_str().unicode_len()
                        > 0 {
                        split_lines(command_result.output.as_str())
                    } else {
                        let mut v: Vec<String> = Vec::new();
                        v.push(
                            crate::history::CommandHistoryText::format_command_success(command),
                        );
                        v
                    };
                    let cmd_s = command.to_owned();
                    let ghost out_v = output_lines;
                    self.history_commands.add_command_entry(cmd_s, output_lines, true, None);
                    proof {
                        let t0 = choose|t: u64|
                            self.history_commands.history_view() == ledger_push(
                                ledger0,
                                (CommandEntry {
                                    command: cmd_s,
                                    output: out_v,
                                    timestamp: t,
                                    success: true,
                                    error_message: Option::None,
                                }),
                                cap,
                            );
                        let e = CommandEntry {
                            command: cmd_s,
                            output: out_v,
                            timestamp: t0,
                            success: true,
                            error_message: Option::None,
                        };
                        lemma_push_last(ledger0, e, cap);
                    }
                } else {
                    let cmd_s = command.to_owned();
                    let err_s = command_result.output.clone();
                    let empty_out: Vec<String> = Vec::new();
                    let ghost out_v = empty_out;
                    self.history_commands.add_command_entry(cmd_s, empty_out, false, Some(err_s));
                    proof {
                        let t0 = choose|t: u64|
                            self.history_commands.history_view() == ledger_push(
                                ledger0,
                                (CommandEntry {
                                    command: cmd_s,
                                    output: out_v,
                                    timestamp: t,
                                    success: false,
                                    error_message: Option::Some(err_s),
                                }),
                                cap,
                            );
                        let e = CommandEntry {
                            command: cmd_s,
                            output: out_v,
                            timestamp: t0,
                            success: false,
                            error_message: Option::Some(err_s),
                        };
                        lemma_push_last(ledger0, e, cap);
                    }
                }
            },
            Err(e) => {
                let cmd_s = command.to_owned();
                let err_s = e.clone();
                let empty_out: Vec<String> = Vec::new();
                let ghost out_v = empty_out;
                self.history_commands.add_command_entry(cmd_s, empty_out, false, Some(err_s));
                proof {
                    let t0 = choose|t: u64|
                        self.history_commands.history_view() == ledger_push(
                            ledger0,
                            (CommandEntry {
                                command: cmd_s,
                                output: out_v,
                                timestamp: t,
                                success: false,
                                error_message: Option::Some(err_s),
                            }),
                            cap,
                        );
                    let e2 = CommandEntry {
                        command: cmd_s,
                        output: out_v,
                        timestamp: t0,
                        success: false,
                        error_message: Option::Some(err_s),
                    };
                    lemma_push_last(ledger0, e2, cap);
                }
                self.input_handler.add_output_line(ErrorMessages::format_error(e.as_str()));
            },
        }
        proof {
            reveal_strlit("clear");
            reveal_strlit("exit");
            reveal_strlit("quit");
            assert("exit"@.len() == 4);
            assert("clear"@.len() == 5);
            assert("exit"@ != "clear"@);
            assert("quit"@ != "clear"@);
            match &result {
                Result::Ok(res) => {
                    if res.name@ == "exit"@ || res.name@ == "quit"@ {
                        assert(self.executor_view().should_exit == true);
                    }
                },
                Result::Err(_) => {},
            }
        }
        self.clear_input();
        result
    }

    /// Submits the buffer, stamping the keystroke: a blank line does
    /// nothing more, a history command is answered in place, anything else
    /// runs through the pipeline; in the latter two cases the buffer is
    /// cleared.
    pub fn handle_enter_key(&mut self, current_dir: &str, now_ms: u64) -> (r: Option<
        Result<Command, String>,
    >)
        requires
            old(self).wf(),
        ensures
            final(self).wf(),
            final(self).last_input_view() == now_ms,
            ({
                let buf = old(self).editor_view().command_buffer@;
                &&& (all_spaces(buf) ==> r is None && final(self).editor_view() == old(
                    self,
                ).editor_view() && final(self).executor_view() == old(self).executor_view()
                    && final(self).ledger_view() == old(self).ledger_view())
                &&& (!all_spaces(buf) && !is_history_command_text(trim_sp(buf)) ==> r is Some)
                &&& (!all_spaces(buf) && is_history_command_text(trim_sp(buf)) ==> (r is None
                    && final(self).editor_view().command_buffer@ == Seq::<char>::empty() && views(
                    final(self).editor_view().output_lines@,
                ) == ring_push_all(
                    views(old(self).editor_view().output_lines@),
                    history_reply(trim_sp(buf), old(self).ledger_view()),
                    OUTPUT_CAP as nat,
                )))
            }),
            r is Some ==> final(self).editor_view().command_buffer@ == Seq::<char>::empty(),
            r is Some ==> final(self).ledger_view().len() >= 1 && final(self).ledger_view()
                == ledger_push(
                old(self).ledger_view(),
                final(self).ledger_view().last(),
                old(self).ledger_capacity(),
            ) && final(self).ledger_view().last().command@ == old(
                self,
            ).editor_view().command_buffer@,
    {
        self.last_input_time_ms = now_ms;
        let command = self.input_handler.get_command_buffer();
        if crate::entities::is_blank(command.as_str()) {
            return None;
        }
        if self.handle_history_commands(command.as_str()) {
            self.clear_input();
            None
        } else {
            Some(self.execute_command(command.as_str(), current_dir))
        }
    }

    fn clear_input(&mut self)
        requires
            old(self).wf(),
        ensures
            final(self).wf(),
            final(self).editor_view().command_buffer@ == Seq::<char>::empty(),
            final(self).editor_view().cursor_position == 0,
            final(self).editor_view() == (TerminalState {
                command_buffer: final(self).editor_view().command_buffer,
                cursor_position: 0,
                ..old(self).editor_view()
            }),
            final(self).executor_view() == old(self).executor_view(),
            final(self).ledger_view() == old(self).ledger_view(),
            final(self).ledger_capacity() == old(self).ledger_capacity(),
            final(self).last_input_view() == old(self).last_input_view(),
    {
        self.input_handler.clear_buffer();
        self.input_buffer = String::new();
        self.input_buffer_dirty = true;
    }

    /// When the last keystroke was accepted.
    pub fn get_last_input_time(&self) -> (r: u64)
        ensures
            r == self.last_input_view(),
    {
        self.last_input_time_ms
    }

    /// Whether the pipeline has marked the session for termination.
    pub fn should_exit(&self) -> (r: bool)
        ensures
            r == self.executor_view().should_exit,
    {
        self.command_executor.should_exit()
    }

    pub fn get_input_handler(&self) -> (r: &HandleInputUseCase)
        ensures
            r.state_view() == self.editor_view(),
    {
        &self.input_handler
    }

    pub fn get_input_handler_mut(&mut self) -> (r: &mut HandleInputUseCase)
        ensures
            r.state_view() == old(self).editor_view(),
            final(self).editor_view() == final(r).state_view(),
            final(self).executor_view() == old(self).executor_view(),
            final(self).ledger_view() == old(self).ledger_view(),
    {
        &mut self.input_handler
    }

    pub fn get_history_commands(&self) -> (r: &HistoryCommandsUseCase)
        ensures
            r.history_view() == self.ledger_view(),
            r.history_capacity() == self.ledger_capacity(),
    {
        &self.history_commands
    }
}

/// The entry just pushed stands at the end of the ledger, whether or not
/// an eviction happened, as long as the ledger has any capacity.
proof fn lemma_push_last(s: Seq<CommandEntry>, e: CommandEntry, cap: nat)
    requires
        cap >= 1,
    ensures
        ledger_push(s, e, cap).len() >= 1,
        ledger_push(s, e, cap).last() == e,
{
    if s.len() + 1 > cap {
        assert(s.len() >= 1);
        assert(s.push(e).drop_first().len() == s.len());
        assert(s.push(e).drop_first().last() == s.push(e).last());
    } else {
        assert(s.push(e).last() == e);
    }
}

} // verus!
