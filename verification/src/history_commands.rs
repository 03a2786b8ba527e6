//! The history builtin: its commands, their parser, and the use case that
//! runs them against the ledger.
use vstd::prelude::*;
use crate::history::{
    CommandHistory,
    CommandEntry,
    HistoryStats,
    CommandHistoryText,
    ledger_push,
    count_success,
    entry_lines,
    history_lines,
    search_pred,
};
use crate::text::{
    split_ws,
    split_whitespace,
    str_eq,
    trim_sp,
    trim_exec,
    spec_starts_with,
    starts_with_str,
    parse_usize,
    all_digits,
    digits_val,
    dec_str,
};

verus! {

/// The lines of a run of entries, one after the other, with no separators.
pub open spec fn entry_lines_cat(s: Seq<CommandEntry>) -> Seq<Seq<char>>
    decreases s.len(),
{
    if s.len() == 0 {
        seq![]
    } else {
        entry_lines_cat(s.drop_last()) + entry_lines(s.last())
    }
}

/// The statistics block for a ledger's entries.
pub open spec fn stats_lines(s: Seq<CommandEntry>) -> Seq<Seq<char>> {
    let rate: nat = if s.len() == 0 {
        0
    } else {
        count_success(s) * 1000 / s.len()
    };
    seq![
        "📊 Estadísticas del Historial:"@,
        "  Total de comandos: "@ + dec_str(s.len()),
        "  Comandos exitosos: "@ + dec_str(count_success(s)) + " ✅"@,
        "  Comandos fallidos: "@ + dec_str((s.len() - count_success(s)) as nat) + " ❌"@,
        "  Tasa de éxito: "@ + dec_str(rate / 10) + "."@ + dec_str(rate % 10) + "%"@,
    ]
}

/// The reply to showing the whole ledger.
pub open spec fn full_reply(entries: Seq<CommandEntry>) -> Seq<Seq<char>> {
    if history_lines(entries).len() == 0 {
        seq!["📭 No hay comandos en el historial"@]
    } else {
        seq!["📜 Historial de Comandos:"@] + history_lines(entries)
    }
}

/// The reply to showing the last `count` entries.
pub open spec fn recent_reply(entries: Seq<CommandEntry>, count: nat) -> Seq<Seq<char>> {
    let window = entries.skip(
        if count <= entries.len() {
            entries.len() - count
        } else {
            0
        },
    );
    if history_lines(window).len() == 0 {
        seq!["📭 No hay comandos en el historial"@]
    } else {
        seq!["📜 Historial de Comandos:"@] + history_lines(window)
    }
}

/// The reply to a search.
pub open spec fn search_reply(entries: Seq<CommandEntry>, pattern: Seq<char>) -> Seq<Seq<char>> {
    if pattern.len() == 0 {
        seq!["Uso: history -g <patrón>"@]
    } else if entries.filter(search_pred(pattern)).len() == 0 {
        seq!["🔍 No se encontraron comandos que coincidan con '"@ + pattern + "'"@]
    } else {
        seq!["🔍 Resultados para '"@ + pattern + "':"@] + entry_lines_cat(
            entries.filter(search_pred(pattern)),
        )
    }
}

/// Whether the trimmed text is one of the history builtin's forms.
pub open spec fn is_history_command_text(t: Seq<char>) -> bool {
    t == "history"@ || t == "hist"@ || t == "history -c"@ || t == "hist -c"@ || t == "history -s"@
        || t == "hist -s"@ || spec_starts_with(t, "history -g "@) || spec_starts_with(
        t,
        "hist -g "@,
    ) || spec_starts_with(t, "history -n "@) || spec_starts_with(t, "hist -n "@)
}

/// What the history builtin answers for the trimmed text `t` against a
/// ledger holding `entries`; text that is no history command answers
/// nothing.
pub open spec fn history_reply(t: Seq<char>, entries: Seq<CommandEntry>) -> Seq<Seq<char>> {
    if t == "history"@ || t == "hist"@ {
        full_reply(entries)
    } else if t == "history -c"@ || t == "hist -c"@ {
        seq!["🗑️ Historial limpiado"@]
    } else if t == "history -s"@ || t == "hist -s"@ {
        stats_lines(entries)
    } else if spec_starts_with(t, "history -g "@) || spec_starts_with(t, "hist -g "@) {
        search_reply(entries, third_token(t))
    } else if spec_starts_with(t, "history -n "@) || spec_starts_with(t, "hist -n "@) {
        if split_ws(t).len() > 2 && all_digits(split_ws(t)[2]) && split_ws(t)[2].len() > 0
            && digits_val(split_ws(t)[2]) <= usize::MAX {
            recent_reply(entries, digits_val(split_ws(t)[2]))
        } else {
            seq!["Error: Formato inválido para history -n"@]
        }
    } else {
        seq![]
    }
}

/// Runs history commands against an owned ledger.
pub struct HistoryCommandsUseCase {
    command_history: CommandHistory,
}

impl HistoryCommandsUseCase {
    /// What the owned ledger holds.
    pub closed spec fn history_view(self) -> Seq<CommandEntry> {
        self.command_history.entries_view()
    }

    /// The ledger's capacity.
    pub closed spec fn history_capacity(self) -> nat {
        self.command_history.capacity()
    }

    pub open spec fn wf(self) -> bool {
        self.history_view().len() <= self.history_capacity()
    }

    /// A use case over an empty ledger of the given capacity.
    pub fn new(max_entries: usize) -> (r: HistoryCommandsUseCase)
        ensures
            r.history_view() == Seq::<CommandEntry>::empty(),
            r.history_capacity() == max_entries,
            r.wf(),
    {
        HistoryCommandsUseCase { command_history: CommandHistory::new(max_entries) }
    }

    pub fn get_history(&self) -> (r: &CommandHistory)
        ensures
            r.entries_view() == self.history_view(),
            r.capacity() == self.history_capacity(),
    {
        &self.command_history
    }

    pub fn get_history_mut(&mut self) -> (r: &mut CommandHistory)
        ensures
            r.entries_view() == old(self).history_view(),
            r.capacity() == old(self).history_capacity(),
            final(self).history_view() == final(r).entries_view(),
            final(self).history_capacity() == final(r).capacity(),
    {
        &mut self.command_history
    }

    /// The whole ledger rendered, or the empty notice; a header tops any
    /// non-empty rendering.
    pub fn show_full_history(&self) -> (r: Vec<String>)
        ensures
            r@.map_values(|s: String| s@) == full_reply(self.history_view()),
    {
        let history_lines_v = self.command_history.format_full_history();
        if history_lines_v.len() == 0 {
            let mut r: Vec<String> = Vec::new();
            r.push(CommandHistoryText::format_empty_history());
            proof {
                assert(r@.map_values(|s: String| s@) =~= seq!["📭 No hay comandos en el historial"@]);
            }
            r
        } else {
            let mut r: Vec<String> = Vec::new();
            r.push(CommandHistoryText::format_history_header());
            let mut rest = history_lines_v;
            r.append(&mut rest);
            proof {
                assert(r@.map_values(|s: String| s@) =~= seq!["📜 Historial de Comandos:"@]
                    + history_lines(self.history_view()));
            }
            r
        }
    }

    /// The last `count` entries rendered, or the empty notice.
    pub fn show_recent_history(&self, count: usize) -> (r: Vec<String>)
        ensures
            r@.map_values(|s: String| s@) == recent_reply(self.history_view(), count as nat),
    {
        let history_lines_v = self.command_history.format_recent_history(count);
        if history_lines_v.len() == 0 {
            let mut r: Vec<String> = Vec::new();
            r.push(CommandHistoryText::format_empty_history());
            proof {
                assert(r@.map_values(|s: String| s@) =~= seq!["📭 No hay comandos en el historial"@]);
            }
            r
        } else {
            let ghost rest_view = history_lines_v@.map_values(|s: String| s@);
            let mut r: Vec<String> = Vec::new();
            r.push(CommandHistoryText::format_history_header());
            let mut rest = history_lines_v;
            r.append(&mut rest);
            proof {
                assert(r@.map_values(|s: String| s@) =~= seq!["📜 Historial de Comandos:"@] + rest_view);
            }
            r
        }
    }

    /// Empties the ledger and says so.
    pub fn clear_history(&mut self) -> (r: Vec<String>)
        ensures
            final(self).history_view() == Seq::<CommandEntry>::empty(),
            final(self).history_capacity() == old(self).history_capacity(),
            final(self).wf(),
            r@.len() == 1 && r@[0]@ == "🗑️ Historial limpiado"@,
    {
        self.command_history.clear();
        let mut r: Vec<String> = Vec::new();
        r.push(String::from_str("🗑️ Historial limpiado"));
        r
    }

    /// The counters rendered.
    pub fn show_statistics(&self) -> (r: Vec<String>)
        ensures
            r@.map_values(|s: String| s@) == stats_lines(self.history_view()),
    {
        let stats = self.command_history.get_stats();
        let r = stats.format_stats();
        proof {
            assert(r@.map_values(|s: String| s@) =~= stats_lines(self.history_view()));
        }
        r
    }

    /// Renders the entries matching a pattern; an empty pattern is answered
    /// with the usage line, a fruitless search with the no-results notice.
    pub fn search_commands(&self, pattern: &str) -> (r: Vec<String>)
        ensures
            r@.map_values(|s: String| s@) == search_reply(self.history_view(), pattern@),
    {
        if pattern.unicode_len() == 0 {
            let mut r: Vec<String> = Vec::new();
            r.push(String::from_str("Uso: history -g <patrón>"));
            proof {
                assert(r@.map_values(|s: String| s@) =~= seq!["Uso: history -g <patrón>"@]);
            }
            return r;
        }
        let results = self.command_history.search_commands(pattern);
        let ghost found = self.history_view().filter(search_pred(pattern@));
        if results.len() == 0 {
            let mut r: Vec<String> = Vec::new();
            r.push(CommandHistoryText::format_no_search_results(pattern));
            proof {
                assert(r@.map_values(|s: String| s@) =~= seq![
                    "🔍 No se encontraron comandos que coincidan con '"@ + pattern@ + "'"@,
                ]);
            }
            r
        } else {
            let mut r: Vec<String> = Vec::new();
            let mut head = String::from_str("🔍 Resultados para '");
            head.append(pattern);
            head.append("':");
            r.push(head);
            let n = results.len();
            let mut i: usize = 0;
            while i < n
                invariant
                    i <= n,
                    n == results@.len(),
                    results@.map_values(|e: &CommandEntry| *e) == found,
                    r@.len() >= 1,
                    r@[0]@ == "🔍 Resultados para '"@ + pattern@ + "':"@,
                    r@.skip(1).map_values(|s: String| s@) == entry_lines_cat(
                        found.take(i as int),
                    ),
                decreases n - i,
            {
                proof {
                    assert(found.take(i + 1 as int).drop_last() =~= found.take(i as int));
                    assert(found.take(i + 1 as int).last() == found[i as int]);
                    assert(results@.map_values(|e: &CommandEntry| *e)[i as int] == found[
                        i as int]);
                }
                let ghost before_r = r@;
                let mut block = self.command_history.format_entry(results[i]);
                let ghost block_view = block@.map_values(|s: String| s@);
                r.append(&mut block);
                proof {
                    assert(r@.skip(1).map_values(|s: String| s@) =~= before_r.skip(1).map_values(
                        |s: String| s@,
                    ) + block_view);
                    assert(r@[0] == before_r[0]);
                }
                i = i + 1;
            }
            proof {
                assert(found.take(n as int) =~= found);
                assert(r@.map_values(|s: String| s@) =~= seq!["🔍 Resultados para '"@ + pattern@ + "':"@]
                    + entry_lines_cat(found));
            }
            r
        }
    }

    /// Records one execution in the ledger.
    pub fn add_command_entry(
        &mut self,
        command: String,
        output: Vec<String>,
        success: bool,
        error_message: Option<String>,
    )
        ensures
            exists|t: u64|
                final(self).history_view() == ledger_push(
                    old(self).history_view(),
                    (CommandEntry { command, output, timestamp: t, success, error_message }),
                    old(self).history_capacity(),
                ),
            final(self).history_capacity() == old(self).history_capacity(),
            old(self).wf() ==> final(self).wf(),
    {
        self.command_history.add_entry(command, output, success, error_message);
        proof {
            let t0 = choose|t: u64|
                self.command_history.entries_view() == ledger_push(
                    old(self).command_history.entries_view(),
                    (CommandEntry { command, output, timestamp: t, success, error_message }),
                    old(self).command_history.capacity(),
                );
            assert(self.history_view() == ledger_push(
                old(self).history_view(),
                (CommandEntry { command, output, timestamp: t0, success, error_message }),
                old(self).history_capacity(),
            ));
        }
    }

    /// The ledger's counters.
    pub fn get_history_stats(&self) -> (r: HistoryStats)
        ensures
            r.total_commands == self.history_view().len(),
            r.successful_commands == count_success(self.history_view()),
            r.failed_commands == self.history_view().len() - count_success(self.history_view()),
            self.history_view().len() == 0 ==> r.success_rate_tenths == 0,
            self.history_view().len() > 0 ==> r.success_rate_tenths as nat == count_success(
                self.history_view(),
            ) * 1000 / self.history_view().len(),
    {
        self.command_history.get_stats()
    }
}

/// The history commands, parsed.
#[derive(Debug, Clone)]
pub enum HistoryCommand {
    ShowFull,
    ShowRecent(usize),
    Clear,
    ShowStats,
    Search(String),
    Invalid(String),
    NotHistoryCommand,
}

/// The third whitespace token of the trimmed text, empty when there is none.
pub open spec fn third_token(t: Seq<char>) -> Seq<char> {
    if split_ws(t).len() > 2 {
        split_ws(t)[2]
    } else {
        Seq::empty()
    }
}

/// Reads a history command out of raw text.
pub struct HistoryCommandParser;

impl HistoryCommandParser {
    /// Trims the text and reads it: `history`/`hist` alone shows the whole
    /// ledger; `-c` clears; `-s` shows statistics; `-g <pattern>` searches;
    /// `-n <count>` shows a recent window and rejects a count that is not a
    /// number; anything else is not a history command.
    pub fn parse_command(command: &str) -> (r: HistoryCommand)
        ensures
            ({
                let t = trim_sp(command@);
                if t == "history"@ || t == "hist"@ {
                    r is ShowFull
                } else if t == "history -c"@ || t == "hist -c"@ {
                    r is Clear
                } else if t == "history -s"@ || t == "hist -s"@ {
                    r is ShowStats
                } else if spec_starts_with(t, "history -g "@) || spec_starts_with(t, "hist -g "@) {
                    r matches HistoryCommand::Search(p) && p@ == third_token(t)
                } else if spec_starts_with(t, "history -n "@) || spec_starts_with(
                    t,
                    "hist -n "@,
                ) {
                    if split_ws(t).len() > 2 && all_digits(split_ws(t)[2]) && split_ws(t)[2].len()
                        > 0 && digits_val(split_ws(t)[2]) <= usize::MAX {
                        r matches HistoryCommand::ShowRecent(c) && c as nat == digits_val(
                            split_ws(t)[2],
                        )
                    } else {
                        r matches HistoryCommand::Invalid(m) && m@
                            == "Formato inválido para history -n"@
                    }
                } else {
                    r is NotHistoryCommand
                }
            }),
    {
        let trimmed = trim_exec(command);
        let t = trimmed.as_str();
        if str_eq(t, "history") || str_eq(t, "hist") {
            HistoryCommand::ShowFull
        } else if str_eq(t, "history -c") || str_eq(t, "hist -c") {
            HistoryCommand::Clear
        } else if str_eq(t, "history -s") || str_eq(t, "hist -s") {
            HistoryCommand::ShowStats
        } else if starts_with_str(t, "history -g ") || starts_with_str(t, "hist -g ") {
            let toks = split_whitespace(t);
            let pattern = if toks.len() > 2 {
                let p = toks[2].clone();
                proof {
                    assert(toks@.map_values(|x: String| x@)[2] == split_ws(trimmed@)[2]);
                }
                p
            } else {
                String::new()
            };
            HistoryCommand::Search(pattern)
        } else if starts_with_str(t, "history -n ") || starts_with_str(t, "hist -n ") {
            let toks = split_whitespace(t);
            if toks.len() > 2 {
                proof {
                    assert(toks@.map_values(|x: String| x@)[2] == split_ws(trimmed@)[2]);
                }
                match parse_usize(toks[2].as_str()) {
                    Some(count) => HistoryCommand::ShowRecent(count),
                    None => HistoryCommand::Invalid(
                        String::from_str("Formato inválido para history -n"),
                    ),
                }
            } else {
                HistoryCommand::Invalid(String::from_str("Formato inválido para history -n"))
            }
        } else {
            HistoryCommand::NotHistoryCommand
        }
    }

    /// Whether the text is a history command at all.
    pub fn is_history_command(command: &str) -> (r: bool)
        ensures
            r == is_history_command_text(trim_sp(command@)),
    {
        let trimmed = trim_exec(command);
        let t = trimmed.as_str();
        str_eq(t, "history") || str_eq(t, "hist") || str_eq(t, "history -c") || str_eq(
            t,
            "hist -c",
        ) || str_eq(t, "history -s") || str_eq(t, "hist -s") || starts_with_str(t, "history -g ")
            || starts_with_str(t, "hist -g ") || starts_with_str(t, "history -n ")
            || starts_with_str(t, "hist -n ")
    }
}

impl HistoryCommand {
    /// Runs the parsed command against the use case; an invalid command
    /// reports its message, other text produces nothing.
    pub fn execute(self, use_case: &mut HistoryCommandsUseCase) -> (r: Vec<String>)
        ensures
            self is ShowFull ==> *final(use_case) == *old(use_case) && r@.map_values(
                |s: String| s@,
            ) == full_reply(old(use_case).history_view()),
            (self matches HistoryCommand::ShowRecent(c) ==> *final(use_case) == *old(use_case)
                && r@.map_values(|s: String| s@) == recent_reply(
                old(use_case).history_view(),
                c as nat,
            )),
            self is ShowStats ==> *final(use_case) == *old(use_case) && r@.map_values(
                |s: String| s@,
            ) == stats_lines(old(use_case).history_view()),
            (self matches HistoryCommand::Search(p) ==> *final(use_case) == *old(use_case)
                && r@.map_values(|s: String| s@) == search_reply(
                old(use_case).history_view(),
                p@,
            )),
            self is Clear ==> final(use_case).history_view() == Seq::<CommandEntry>::empty()
                && final(use_case).history_capacity() == old(use_case).history_capacity()
                && r@.map_values(|s: String| s@) == seq!["🗑️ Historial limpiado"@],
            (self matches HistoryCommand::Invalid(m) ==> *final(use_case) == *old(use_case)
                && r@.len() == 1 && r@[0]@ == "Error: "@ + m@ && r@.map_values(|s: String| s@)
                == seq!["Error: "@ + m@]),
            self is NotHistoryCommand ==> (*final(use_case) == *old(use_case) && r@.len() == 0),
    {
        match self {
            HistoryCommand::ShowFull => use_case.show_full_history(),
            HistoryCommand::ShowRecent(count) => use_case.show_recent_history(count),
            HistoryCommand::Clear => use_case.clear_history(),
            HistoryCommand::ShowStats => use_case.show_statistics(),
            HistoryCommand::Search(pattern) => use_case.search_commands(pattern.as_str()),
            HistoryCommand::Invalid(message) => {
                let mut e = String::from_str("Error: ");
                e.append(message.as_str());
                let mut r: Vec<String> = Vec::new();
                r.push(e);
                r
            },
            HistoryCommand::NotHistoryCommand => Vec::new(),
        }
    }
}

/// A place history could be saved to and loaded from.
pub trait HistoryCommandRepository {
    fn save_history(&self, history: &CommandHistory) -> Result<(), String>;

    fn load_history(&self) -> Result<CommandHistory, String>;

    fn history_exists(&self) -> bool;
}

/// The in-memory stand-in: nothing is persisted.
pub struct InMemoryHistoryRepository {
    history: Option<CommandHistory>,
}

impl InMemoryHistoryRepository {
    pub fn new() -> (r: InMemoryHistoryRepository) {
        InMemoryHistoryRepository { history: None }
    }
}

impl HistoryCommandRepository for InMemoryHistoryRepository {
    fn save_history(&self, history: &CommandHistory) -> Result<(), String> {
        Ok(())
    }

    fn load_history(&self) -> Result<CommandHistory, String> {
        match &self.history {
            Some(history) => Ok(history.clone()),
            None => Ok(CommandHistory::new(100)),
        }
    }

    fn history_exists(&self) -> bool {
        match &self.history {
            Some(_) => true,
            None => false,
        }
    }
}

} // verus!
