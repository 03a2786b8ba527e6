use termirust::history::{CommandHistory, CommandHistoryText};
use termirust::history_commands::{
    HistoryCommandsUseCase, HistoryCommandParser, HistoryCommand,
};

fn add(h: &mut CommandHistory, cmd: &str, ok: bool) {
    h.add_entry(cmd.to_string(), vec![], ok, None);
}

#[test]
fn ledger_never_exceeds_capacity() {
    let mut h = CommandHistory::new(3);
    for i in 0..10 {
        add(&mut h, &format!("cmd{}", i), true);
        assert!(h.get_entries().len() <= 3);
    }
}

#[test]
fn capacity_plus_one_insertions_evict_the_oldest() {
    let mut h = CommandHistory::new(3);
    add(&mut h, "first", true);
    add(&mut h, "second", true);
    add(&mut h, "third", true);
    add(&mut h, "fourth", true);
    let entries = h.get_entries();
    assert_eq!(entries.len(), 3);
    assert!(entries.iter().all(|e| e.command != "first"));
    assert_eq!(entries[entries.len() - 1].command, "fourth");
}

#[test]
fn stats_on_empty_ledger_are_all_zero() {
    let h = CommandHistory::new(10);
    let stats = h.get_stats();
    assert_eq!(stats.total_commands, 0);
    assert_eq!(stats.successful_commands, 0);
    assert_eq!(stats.failed_commands, 0);
    assert_eq!(stats.success_rate_tenths, 0);
}

#[test]
fn stats_rate_is_exactly_thousand_n_over_total() {
    let mut h = CommandHistory::new(10);
    add(&mut h, "a", true);
    add(&mut h, "b", true);
    add(&mut h, "c", true);
    add(&mut h, "d", false);
    let stats = h.get_stats();
    assert_eq!(stats.total_commands, 4);
    assert_eq!(stats.successful_commands, 3);
    assert_eq!(stats.failed_commands, 1);
    // 1000 * 3 / 4 = 750 tenths of a percent, that is 75.0%.
    assert_eq!(stats.success_rate_tenths, 750);
}

#[test]
fn search_is_case_insensitive_substring_match() {
    let mut h = CommandHistory::new(10);
    add(&mut h, "List Files", true);
    let by_lower = h.search_commands("list");
    assert_eq!(by_lower.len(), 1);
    assert_eq!(by_lower[0].command, "List Files");
    let by_upper = h.search_commands("FILES");
    assert_eq!(by_upper.len(), 1);
    let nothing = h.search_commands("zzz");
    assert_eq!(nothing.len(), 0);
}

#[test]
fn empty_pattern_matches_nothing() {
    let mut h = CommandHistory::new(10);
    add(&mut h, "anything", true);
    assert_eq!(h.search_commands("").len(), 0);
}

#[test]
fn last_entries_window_is_in_order() {
    let mut h = CommandHistory::new(10);
    add(&mut h, "one", true);
    add(&mut h, "two", true);
    add(&mut h, "three", true);
    let last_two = h.get_last_entries(2);
    assert_eq!(last_two.len(), 2);
    assert_eq!(last_two[0].command, "two");
    assert_eq!(last_two[1].command, "three");
    let all = h.get_last_entries(99);
    assert_eq!(all.len(), 3);
    assert_eq!(all[0].command, "one");
}

#[test]
fn last_command_and_clear() {
    let mut h = CommandHistory::new(10);
    assert!(h.get_last_command().is_none());
    add(&mut h, "pwd", true);
    assert_eq!(h.get_last_command(), Some("pwd"));
    h.clear();
    assert!(h.get_last_command().is_none());
    assert_eq!(h.get_entries().len(), 0);
}

#[test]
fn entry_timestamps_come_from_the_clock() {
    let mut h = CommandHistory::new(10);
    add(&mut h, "now", true);
    // A wall clock reading taken after the epoch by a wide margin.
    assert!(h.get_entries()[0].timestamp > 1_000_000_000);
}

#[test]
fn format_entry_layout() {
    let mut h = CommandHistory::new(10);
    h.add_entry(
        "build".to_string(),
        vec!["done".to_string()],
        false,
        Some("boom".to_string()),
    );
    let entries = h.get_entries().clone();
    let lines = h.format_entry(&entries[0]);
    assert_eq!(lines.len(), 3);
    assert!(lines[0].contains("❌ build"));
    assert_eq!(lines[1], "  done");
    assert_eq!(lines[2], "  Error: boom");
}

#[test]
fn full_history_has_blank_separators() {
    let mut h = CommandHistory::new(10);
    add(&mut h, "a", true);
    add(&mut h, "b", false);
    let lines = h.format_full_history();
    assert_eq!(lines.len(), 4);
    assert_eq!(lines[1], "");
    assert_eq!(lines[3], "");
}

#[test]
fn stats_formatting_has_one_decimal() {
    let mut h = CommandHistory::new(10);
    add(&mut h, "a", true);
    add(&mut h, "b", false);
    add(&mut h, "c", false);
    let lines = h.get_stats().format_stats();
    assert_eq!(lines[0], "📊 Estadísticas del Historial:");
    assert_eq!(lines[1], "  Total de comandos: 3");
    assert_eq!(lines[2], "  Comandos exitosos: 1 ✅");
    assert_eq!(lines[3], "  Comandos fallidos: 2 ❌");
    // 1000 / 3 = 333 tenths, rendered 33.3%.
    assert_eq!(lines[4], "  Tasa de éxito: 33.3%");
}

#[test]
fn canned_history_texts() {
    assert_eq!(
        CommandHistoryText::format_command_executed("ls"),
        "Comando ejecutado: ls"
    );
    assert_eq!(
        CommandHistoryText::format_command_success("ls"),
        "✅ ls - Ejecutado exitosamente"
    );
    assert_eq!(
        CommandHistoryText::format_command_failed("ls", "no"),
        "❌ ls - Error: no"
    );
    assert_eq!(CommandHistoryText::format_history_header(), "📜 Historial de Comandos:");
    assert_eq!(CommandHistoryText::format_empty_history(), "📭 No hay comandos en el historial");
    assert_eq!(
        CommandHistoryText::format_no_search_results("abc"),
        "🔍 No se encontraron comandos que coincidan con 'abc'"
    );
    let separator = CommandHistoryText::format_entry_separator();
    assert_eq!(separator.chars().count(), 50);
    assert!(separator.chars().all(|c| c == '─'));
}

#[test]
fn history_parser_recognises_each_shape() {
    assert!(matches!(
        HistoryCommandParser::parse_command("history"),
        HistoryCommand::ShowFull
    ));
    assert!(matches!(
        HistoryCommandParser::parse_command("  hist  "),
        HistoryCommand::ShowFull
    ));
    assert!(matches!(
        HistoryCommandParser::parse_command("history -c"),
        HistoryCommand::Clear
    ));
    assert!(matches!(
        HistoryCommandParser::parse_command("hist -s"),
        HistoryCommand::ShowStats
    ));
    match HistoryCommandParser::parse_command("history -g build") {
        HistoryCommand::Search(p) => assert_eq!(p, "build"),
        other => panic!("expected a search, got {:?}", other),
    }
    match HistoryCommandParser::parse_command("history -n 7") {
        HistoryCommand::ShowRecent(n) => assert_eq!(n, 7),
        other => panic!("expected a recent window, got {:?}", other),
    }
    assert!(matches!(
        HistoryCommandParser::parse_command("history -n seven"),
        HistoryCommand::Invalid(_)
    ));
    assert!(matches!(
        HistoryCommandParser::parse_command("ls"),
        HistoryCommand::NotHistoryCommand
    ));
}

#[test]
fn history_use_case_round_trip() {
    let mut uc = HistoryCommandsUseCase::new(10);
    let empty = uc.show_full_history();
    assert_eq!(empty, vec!["📭 No hay comandos en el historial".to_string()]);
    uc.add_command_entry("ls".to_string(), vec!["a".to_string()], true, None);
    let full = uc.show_full_history();
    assert_eq!(full[0], "📜 Historial de Comandos:");
    assert!(full[1].contains("✅ ls"));
    let usage = uc.search_commands("");
    assert_eq!(usage, vec!["Uso: history -g <patrón>".to_string()]);
    let hits = uc.search_commands("LS");
    assert_eq!(hits[0], "🔍 Resultados para 'LS':");
    let cleared = uc.clear_history();
    assert_eq!(cleared, vec!["🗑️ Historial limpiado".to_string()]);
    assert_eq!(uc.get_history().get_entries().len(), 0);
}
