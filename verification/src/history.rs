//! The history ledger: a bounded, append-only ring of executed commands,
//! with search, statistics, recent-window retrieval and text rendering.
use vstd::prelude::*;
use crate::text::{spec_lower, spec_contains, lower_str, contains_str, u64_to_string, dec_str};
use crate::clock::now_unix_seconds;

verus! {

/// One recorded command execution; never changed once recorded.
#[derive(Debug, Clone)]
pub struct CommandEntry {
    pub command: String,
    pub output: Vec<String>,
    pub timestamp: u64,
    pub success: bool,
    pub error_message: Option<String>,
}

/// What appending to a bounded ledger does: the entry goes at the end, and
/// the oldest entry leaves whenever the result would exceed the capacity.
pub open spec fn ledger_push(s: Seq<CommandEntry>, e: CommandEntry, cap: nat) -> Seq<
    CommandEntry,
> {
    if s.len() + 1 > cap {
        s.push(e).drop_first()
    } else {
        s.push(e)
    }
}

/// The result of appending every entry of `es`, in order, to a ledger that
/// starts as `s`.
pub open spec fn ledger_push_all(s: Seq<CommandEntry>, es: Seq<CommandEntry>, cap: nat) -> Seq<
    CommandEntry,
>
    decreases es.len(),
{
    if es.len() == 0 {
        s
    } else {
        ledger_push(ledger_push_all(s, es.drop_last(), cap), es.last(), cap)
    }
}

/// Law: a ledger built from scratch holds exactly the most recent window of
/// what was appended — everything when it fits the capacity, otherwise the
/// last `cap` entries.
pub proof fn lemma_ledger_window(es: Seq<CommandEntry>, cap: nat)
    ensures
        ledger_push_all(Seq::empty(), es, cap) == (if es.len() <= cap {
            es
        } else {
            es.skip(es.len() - cap)
        }),
        ledger_push_all(Seq::empty(), es, cap).len() <= cap || es.len() <= cap,
    decreases es.len(),
{
    if es.len() == 0 {
        assert(ledger_push_all(Seq::empty(), es, cap) =~= es);
    } else {
        lemma_ledger_window(es.drop_last(), cap);
        let prev = ledger_push_all(Seq::<CommandEntry>::empty(), es.drop_last(), cap);
        if es.len() <= cap {
            assert(prev == es.drop_last());
            assert(prev.push(es.last()) =~= es);
        } else if es.len() == cap + 1 {
            assert(prev == es.drop_last());
            assert(prev.push(es.last()) =~= es);
            assert(es.drop_first() =~= es.skip(es.len() - cap));
        } else {
            assert(prev == es.drop_last().skip(es.len() - 1 - cap));
            assert(prev.len() == cap);
            if cap == 0 {
                assert(prev.push(es.last()).drop_first() =~= es.skip(es.len() - cap));
            } else {
                assert(prev.push(es.last()).drop_first() =~= es.skip(es.len() - cap));
            }
        }
    }
}

/// Law: after capacity + 1 insertions into an empty ledger, the first
/// entry inserted is gone and the newest stands at the end, with the ledger
/// exactly full.
pub proof fn lemma_ledger_eviction(es: Seq<CommandEntry>, cap: nat)
    requires
        cap >= 1,
        es.len() == cap + 1,
    ensures
        ledger_push_all(Seq::empty(), es, cap) == es.drop_first(),
        ledger_push_all(Seq::empty(), es, cap).last() == es.last(),
        ledger_push_all(Seq::empty(), es, cap).len() == cap,
{
    lemma_ledger_window(es, cap);
    assert(es.skip(1) =~= es.drop_first());
}

/// How many entries of `s` are marked successful.
pub open spec fn count_success(s: Seq<CommandEntry>) -> nat
    decreases s.len(),
{
    if s.len() == 0 {
        0
    } else {
        count_success(s.drop_last()) + (if s.last().success {
            1nat
        } else {
            0nat
        })
    }
}

pub proof fn lemma_count_success_bound(s: Seq<CommandEntry>)
    ensures
        count_success(s) <= s.len(),
    decreases s.len(),
{
    if s.len() > 0 {
        lemma_count_success_bound(s.drop_last());
    }
}

/// An entry matches a search pattern when its command text contains the
/// pattern, comparing case-insensitively.
pub open spec fn entry_matches(e: CommandEntry, pattern: Seq<char>) -> bool {
    spec_contains(spec_lower(e.command@), spec_lower(pattern))
}

/// The search filter as a function value, so that contracts and proofs
/// speak of one and the same predicate.
pub open spec fn search_pred(pattern: Seq<char>) -> spec_fn(CommandEntry) -> bool {
    |e: CommandEntry| entry_matches(e, pattern)
}

/// The header line of a rendered entry: the timestamp in brackets, a
/// success or failure tag, then the command.
pub open spec fn entry_header(e: CommandEntry) -> Seq<char> {
    "["@ + dec_str(e.timestamp as nat) + "] "@ + (if e.success {
        "✅"@
    } else {
        "❌"@
    }) + " "@ + e.command@
}

/// All lines of a rendered entry: the header, each output line indented,
/// and the error message when there is one.
pub open spec fn entry_lines(e: CommandEntry) -> Seq<Seq<char>> {
    seq![entry_header(e)] + e.output@.map_values(|o: String| "  "@ + o@) + (
    match e.error_message {
        Option::Some(m) => seq!["  Error: "@ + m@],
        Option::None => seq![],
    })
}

/// The rendering of a run of entries: each entry's lines followed by one
/// blank separator line.
pub open spec fn history_lines(s: Seq<CommandEntry>) -> Seq<Seq<char>>
    decreases s.len(),
{
    if s.len() == 0 {
        seq![]
    } else {
        history_lines(s.drop_last()) + entry_lines(s.last()) + seq![Seq::<char>::empty()]
    }
}

/// The bounded ledger itself.
#[derive(Clone)]
pub struct CommandHistory {
    entries: Vec<CommandEntry>,
    max_entries: usize,
}

impl CommandHistory {
    /// What the ledger holds, oldest first.
    pub closed spec fn entries_view(self) -> Seq<CommandEntry> {
        self.entries@
    }

    /// The capacity fixed at construction.
    pub closed spec fn capacity(self) -> nat {
        self.max_entries as nat
    }

    /// The ledger never holds more than its capacity.
    pub open spec fn wf(self) -> bool {
        self.entries_view().len() <= self.capacity()
    }

    /// An empty ledger with the given capacity.
    pub fn new(max_entries: usize) -> (r: CommandHistory)
        ensures
            r.entries_view() == Seq::<CommandEntry>::empty(),
            r.capacity() == max_entries,
            r.wf(),
    {
        CommandHistory { entries: Vec::new(), max_entries }
    }

    /// Records one execution, stamped with the current clock, evicting the
    /// oldest entry when the ledger is full. A ledger within its capacity
    /// stays within it.
    pub fn add_entry(
        &mut self,
        command: String,
        output: Vec<String>,
        success: bool,
        error_message: Option<String>,
    )
        ensures
            exists|t: u64|
                final(self).entries_view() == ledger_push(
                    old(self).entries_view(),
                    (CommandEntry { command, output, timestamp: t, success, error_message }),
                    old(self).capacity(),
                ),
            final(self).capacity() == old(self).capacity(),
            old(self).wf() ==> final(self).wf(),
    {
        let timestamp = now_unix_seconds();
        let entry = CommandEntry { command, output, timestamp, success, error_message };
        self.entries.push(entry);
        if self.entries.len() > self.max_entries {
            self.entries.remove(0);
            proof {
                assert(self.entries@ =~= old(self).entries@.push(
                    CommandEntry { command, output, timestamp, success, error_message },
                ).drop_first());
            }
        }
        proof {
            assert(self.entries_view() == ledger_push(
                old(self).entries_view(),
                (CommandEntry { command, output, timestamp, success, error_message }),
                old(self).capacity(),
            ));
        }
    }

    /// All entries, oldest first.
    pub fn get_entries(&self) -> (r: &Vec<CommandEntry>)
        ensures
            r@ == self.entries_view(),
    {
        &self.entries
    }

    /// The last `count` entries (all of them when fewer), oldest of the
    /// window first.
    pub fn get_last_entries(&self, count: usize) -> (r: Vec<&CommandEntry>)
        ensures
            r@.map_values(|e: &CommandEntry| *e) == self.entries_view().skip(
                if count <= self.entries_view().len() {
                    self.entries_view().len() - count
                } else {
                    0
                },
            ),
    {
        let len = self.entries.len();
        let start = if count <= len {
            len - count
        } else {
            0
        };
        let mut r: Vec<&CommandEntry> = Vec::new();
        let mut i = start;
        while i < len
            invariant
                start <= i <= len,
                len == self.entries@.len(),
                r@.len() == i - start,
                forall|k: int| 0 <= k < r@.len() ==> r@[k] == self.entries@[start + k],
            decreases len - i,
        {
            r.push(&self.entries[i]);
            i = i + 1;
        }
        proof {
            assert(r@.map_values(|e: &CommandEntry| *e) =~= self.entries@.skip(start as int));
        }
        r
    }

    /// The most recent command text, if any entry exists.
    pub fn get_last_command(&self) -> (r: Option<&str>)
        ensures
            match r {
                Some(s) => self.entries_view().len() > 0 && s@
                    == self.entries_view().last().command@,
                None => self.entries_view().len() == 0,
            },
    {
        if self.entries.len() == 0 {
            None
        } else {
            Some(self.entries[self.entries.len() - 1].command.as_str())
        }
    }

    /// Every entry whose command contains the pattern, case-insensitively;
    /// an empty pattern matches nothing, so that a search cannot flood the
    /// output with the whole ledger.
    pub fn search_commands(&self, pattern: &str) -> (r: Vec<&CommandEntry>)
        ensures
            pattern@.len() == 0 ==> r@.len() == 0,
            pattern@.len() > 0 ==> r@.map_values(|e: &CommandEntry| *e)
                == self.entries_view().filter(search_pred(pattern@)),
    {
        let mut r: Vec<&CommandEntry> = Vec::new();
        if pattern.unicode_len() == 0 {
            return r;
        }
        let low_pat = lower_str(pattern);
        let len = self.entries.len();
        let mut i: usize = 0;
        while i < len
            invariant
                i <= len,
                len == self.entries@.len(),
                low_pat@ == spec_lower(pattern@),
                r@.map_values(|e: &CommandEntry| *e) == self.entries@.take(i as int).filter(
                    search_pred(pattern@),
                ),
            decreases len - i,
        {
            let low_cmd = lower_str(self.entries[i].command.as_str());
            if contains_str(low_cmd.as_str(), low_pat.as_str()) {
                r.push(&self.entries[i]);
            }
            proof {
                reveal(Seq::filter);
                let pred = search_pred(pattern@);
                assert(self.entries@.take(i + 1 as int).drop_last() =~= self.entries@.take(
                    i as int,
                ));
                assert(self.entries@.take(i + 1 as int).last() == self.entries@[i as int]);
                assert(pred(self.entries@[i as int]) == entry_matches(
                    self.entries@[i as int],
                    pattern@,
                ));
                if entry_matches(self.entries@[i as int], pattern@) {
                    assert(r@.map_values(|e: &CommandEntry| *e) =~= self.entries@.take(
                        i as int,
                    ).filter(pred).push(self.entries@[i as int]));
                } else {
                    assert(self.entries@.take(i + 1 as int).filter(pred) == self.entries@.take(
                        i as int,
                    ).filter(pred));
                }
            }
            i = i + 1;
        }
        proof {
            assert(self.entries@.take(len as int) =~= self.entries@);
        }
        r
    }

    /// Empties the ledger unconditionally.
    pub fn clear(&mut self)
        ensures
            final(self).entries_view() == Seq::<CommandEntry>::empty(),
            final(self).capacity() == old(self).capacity(),
            final(self).wf(),
    {
        self.entries.clear();
    }

    /// Counts total, successful and failed entries; the rate is in tenths
    /// of a percent, zero on an empty ledger.
    pub fn get_stats(&self) -> (r: HistoryStats)
        ensures
            r.total_commands == self.entries_view().len(),
            r.successful_commands == count_success(self.entries_view()),
            r.failed_commands == self.entries_view().len() - count_success(self.entries_view()),
            self.entries_view().len() == 0 ==> r.success_rate_tenths == 0,
            self.entries_view().len() > 0 ==> r.success_rate_tenths as nat == count_success(
                self.entries_view(),
            ) * 1000 / self.entries_view().len(),
    {
        let len = self.entries.len();
        let mut successful: usize = 0;
        let mut i: usize = 0;
        proof {
            lemma_count_success_bound(self.entries@);
        }
        while i < len
            invariant
                i <= len,
                len == self.entries@.len(),
                successful as nat == count_success(self.entries@.take(i as int)),
                successful <= i,
            decreases len - i,
        {
            proof {
                assert(self.entries@.take(i + 1 as int).drop_last() =~= self.entries@.take(
                    i as int,
                ));
                assert(self.entries@.take(i + 1 as int).last() == self.entries@[i as int]);
            }
            if self.entries[i].success {
                successful = successful + 1;
            }
            i = i + 1;
        }
        proof {
            assert(self.entries@.take(len as int) =~= self.entries@);
        }
        let rate: u64 = if len > 0 {
            let wide: u128 = (successful as u128) * 1000 / (len as u128);
            proof {
                assert((successful as int) * 1000 / (len as int) <= 1000) by (nonlinear_arith)
                    requires
                        0 < len,
                        successful <= len,
                ;
            }
            wide as u64
        } else {
            0
        };
        HistoryStats {
            total_commands: len,
            successful_commands: successful,
            failed_commands: len - successful,
            success_rate_tenths: rate,
        }
    }

    /// Renders one entry as display lines.
    pub fn format_entry(&self, entry: &CommandEntry) -> (r: Vec<String>)
        ensures
            r@.map_values(|s: String| s@) == entry_lines(*entry),
    {
        let mut lines: Vec<String> = Vec::new();
        let mut header = String::from_str("[");
        header.append(u64_to_string(entry.timestamp).as_str());
        header.append("] ");
        if entry.success {
            header.append("✅");
        } else {
            header.append("❌");
        }
        header.append(" ");
        header.append(entry.command.as_str());
        lines.push(header);
        let n = entry.output.len();
        let mut i: usize = 0;
        while i < n
            invariant
                i <= n,
                n == entry.output@.len(),
                lines@.len() == 1 + i,
                lines@[0]@ == entry_header(*entry),
                forall|k: int|
                    0 <= k < i ==> lines@[k + 1]@ == "  "@ + #[trigger] entry.output@[k]@,
            decreases n - i,
        {
            let mut line = String::from_str("  ");
            line.append(entry.output[i].as_str());
            lines.push(line);
            i = i + 1;
        }
        match &entry.error_message {
            Some(err) => {
                let mut line = String::from_str("  Error: ");
                line.append(err.as_str());
                lines.push(line);
            },
            None => {},
        }
        proof {
            assert(lines@.map_values(|s: String| s@) =~= entry_lines(*entry));
        }
        lines
    }

    /// Renders the whole ledger, a blank line after each entry.
    pub fn format_full_history(&self) -> (r: Vec<String>)
        ensures
            r@.map_values(|s: String| s@) == history_lines(self.entries_view()),
    {
        let len = self.entries.len();
        let mut all: Vec<String> = Vec::new();
        let mut i: usize = 0;
        while i < len
            invariant
                i <= len,
                len == self.entries@.len(),
                all@.map_values(|s: String| s@) == history_lines(self.entries@.take(i as int)),
            decreases len - i,
        {
            proof {
                assert(self.entries@.take(i + 1 as int).drop_last() =~= self.entries@.take(
                    i as int,
                ));
                assert(self.entries@.take(i + 1 as int).last() == self.entries@[i as int]);
            }
            let mut entry_block = self.format_entry(&self.entries[i]);
            all.append(&mut entry_block);
            all.push(String::new());
            proof {
                assert(all@.map_values(|s: String| s@) =~= history_lines(
                    self.entries@.take(i + 1 as int),
                ));
            }
            i = i + 1;
        }
        proof {
            assert(self.entries@.take(len as int) =~= self.entries@);
        }
        all
    }

    /// Renders the last `count` entries, a blank line after each.
    pub fn format_recent_history(&self, count: usize) -> (r: Vec<String>)
        ensures
            r@.map_values(|s: String| s@) == history_lines(
                self.entries_view().skip(
                    if count <= self.entries_view().len() {
                        self.entries_view().len() - count
                    } else {
                        0
                    },
                ),
            ),
    {
        let len = self.entries.len();
        let start = if count <= len {
            len - count
        } else {
            0
        };
        let ghost window = self.entries@.skip(start as int);
        let mut all: Vec<String> = Vec::new();
        let mut i = start;
        while i < len
            invariant
                start <= i <= len,
                len == self.entries@.len(),
                window == self.entries@.skip(start as int),
                all@.map_values(|s: String| s@) == history_lines(window.take(i - start)),
            decreases len - i,
        {
            proof {
                assert(window.take(i + 1 - start).drop_last() =~= window.take(i - start));
                assert(window.take(i + 1 - start).last() == self.entries@[i as int]);
            }
            let mut entry_block = self.format_entry(&self.entries[i]);
            all.append(&mut entry_block);
            all.push(String::new());
            proof {
                assert(all@.map_values(|s: String| s@) =~= history_lines(
                    window.take(i + 1 - start),
                ));
            }
            i = i + 1;
        }
        proof {
            assert(window.take(len - start) =~= window);
        }
        all
    }
}

/// Counts over the ledger; the rate is in tenths of a percent, truncated.
#[derive(Debug, Clone)]
pub struct HistoryStats {
    pub total_commands: usize,
    pub successful_commands: usize,
    pub failed_commands: usize,
    pub success_rate_tenths: u64,
}

impl HistoryStats {
    /// Renders the counters as display lines, the rate with one decimal.
    pub fn format_stats(&self) -> (r: Vec<String>)
        ensures
            r@.map_values(|s: String| s@) == seq![
                "📊 Estadísticas del Historial:"@,
                "  Total de comandos: "@ + dec_str(self.total_commands as nat),
                "  Comandos exitosos: "@ + dec_str(self.successful_commands as nat) + " ✅"@,
                "  Comandos fallidos: "@ + dec_str(self.failed_commands as nat) + " ❌"@,
                "  Tasa de éxito: "@ + dec_str((self.success_rate_tenths / 10) as nat) + "."@
                    + dec_str((self.success_rate_tenths % 10) as nat) + "%"@,
            ],
    {
        let mut r: Vec<String> = Vec::new();
        r.push(String::from_str("📊 Estadísticas del Historial:"));
        let mut total = String::from_str("  Total de comandos: ");
        total.append(u64_to_string(self.total_commands as u64).as_str());
        r.push(total);
        let mut good = String::from_str("  Comandos exitosos: ");
        good.append(u64_to_string(self.successful_commands as u64).as_str());
        good.append(" ✅");
        r.push(good);
        let mut bad = String::from_str("  Comandos fallidos: ");
        bad.append(u64_to_string(self.failed_commands as u64).as_str());
        bad.append(" ❌");
        r.push(bad);
        let mut rate = String::from_str("  Tasa de éxito: ");
        rate.append(u64_to_string(self.success_rate_tenths / 10).as_str());
        rate.append(".");
        rate.append(u64_to_string(self.success_rate_tenths % 10).as_str());
        rate.append("%");
        r.push(rate);
        proof {
            assert(r@.map_values(|s: String| s@) =~= seq![
                "📊 Estadísticas del Historial:"@,
                "  Total de comandos: "@ + dec_str(self.total_commands as nat),
                "  Comandos exitosos: "@ + dec_str(self.successful_commands as nat) + " ✅"@,
                "  Comandos fallidos: "@ + dec_str(self.failed_commands as nat) + " ❌"@,
                "  Tasa de éxito: "@ + dec_str((self.success_rate_tenths / 10) as nat) + "."@
                    + dec_str((self.success_rate_tenths % 10) as nat) + "%"@,
            ]);
        }
        r
    }
}

/// Canned wording for history displays.
pub struct CommandHistoryText;

impl CommandHistoryText {
    /// A plain note that a command ran.
    pub fn format_command_executed(command: &str) -> (r: String)
        ensures
            r@ == "Comando ejecutado: "@ + command@,
    {
        let mut r = String::from_str("Comando ejecutado: ");
        r.append(command);
        r
    }

    /// A success note for a command.
    pub fn format_command_success(command: &str) -> (r: String)
        ensures
            r@ == "✅ "@ + command@ + " - Ejecutado exitosamente"@,
    {
        let mut r = String::from_str("✅ ");
        r.append(command);
        r.append(" - Ejecutado exitosamente");
        r
    }

    /// A failure note for a command, with the error appended.
    pub fn format_command_failed(command: &str, error: &str) -> (r: String)
        ensures
            r@ == "❌ "@ + command@ + " - Error: "@ + error@,
    {
        let mut r = String::from_str("❌ ");
        r.append(command);
        r.append(" - Error: ");
        r.append(error);
        r
    }

    /// The heading over a rendered history.
    pub fn format_history_header() -> (r: String)
        ensures
            r@ == "📜 Historial de Comandos:"@,
    {
        String::from_str("📜 Historial de Comandos:")
    }

    /// A horizontal rule between entries.
    pub fn format_entry_separator() -> (r: String)
        ensures
            r@.len() == 50,
            forall|k: int| 0 <= k < 50 ==> r@[k] == '─',
    {
        let mut r = String::new();
        let mut i: usize = 0;
        while i < 50
            invariant
                i <= 50,
                r@.len() == i,
                forall|k: int| 0 <= k < i ==> r@[k] == '─',
            decreases 50 - i,
        {
            crate::text::push_char(&mut r, '─');
            i = i + 1;
        }
        r
    }

    /// The message shown when the ledger is empty.
    pub fn format_empty_history() -> (r: String)
        ensures
            r@ == "📭 No hay comandos en el historial"@,
    {
        String::from_str("📭 No hay comandos en el historial")
    }

    /// The message shown when a search found nothing.
    pub fn format_no_search_results(pattern: &str) -> (r: String)
        ensures
            r@ == "🔍 No se encontraron comandos que coincidan con '"@ + pattern@ + "'"@,
    {
        let mut r = String::from_str("🔍 No se encontraron comandos que coincidan con '");
        r.append(pattern);
        r.append("'");
        r
    }
}

} // verus!
