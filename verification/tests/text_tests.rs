use termirust::text::{
    split_whitespace, split_lines, parse_usize, lower_str, contains_str, starts_with_str,
    str_eq, u64_to_string, i64_to_string, repeat_char, join_strings, trim_exec,
};
use termirust::order::lex_le_exec;
use termirust::entities::is_blank;
use termirust::texts::{WelcomeMessages, ErrorMessages, DebugMessages, PromptText};
use termirust::exit_commands::{ExitCommandsUseCase, ExitResult, ExitCommandInfo};
use termirust::exit_display::ExitDisplayComponent;

#[test]
fn whitespace_splitting() {
    let toks = split_whitespace("  one  two\tthree \n");
    assert_eq!(toks, vec!["one".to_string(), "two".to_string(), "three".to_string()]);
    assert!(split_whitespace("   ").is_empty());
    assert!(split_whitespace("").is_empty());
}

#[test]
fn line_splitting_matches_std() {
    let mine = split_lines("a\nb\n\nc\n");
    let std_lines: Vec<String> = "a\nb\n\nc\n".lines().map(|s| s.to_string()).collect();
    assert_eq!(mine, std_lines);
    assert!(split_lines("").is_empty());
    assert_eq!(split_lines("solo"), vec!["solo".to_string()]);
}

#[test]
fn number_parsing() {
    assert_eq!(parse_usize("0"), Some(0));
    assert_eq!(parse_usize("12345"), Some(12345));
    assert_eq!(parse_usize(""), None);
    assert_eq!(parse_usize("12a"), None);
    assert_eq!(parse_usize("-3"), None);
    assert_eq!(parse_usize("99999999999999999999999999"), None);
}

#[test]
fn case_folding_and_search() {
    assert_eq!(lower_str("AbC xYz"), "abc xyz");
    assert!(contains_str("List Files", "t F"));
    assert!(!contains_str("short", "longer than it"));
    assert!(contains_str("anything", ""));
    assert!(starts_with_str("history -g x", "history -g "));
    assert!(!starts_with_str("histo", "history"));
    assert!(str_eq("same", "same"));
    assert!(!str_eq("same", "sane"));
}

#[test]
fn decimal_rendering() {
    assert_eq!(u64_to_string(0), "0");
    assert_eq!(u64_to_string(907), "907");
    assert_eq!(u64_to_string(u64::MAX), u64::MAX.to_string());
    assert_eq!(i64_to_string(-42), "-42");
    assert_eq!(i64_to_string(7), "7");
    assert_eq!(i64_to_string(i64::MIN), i64::MIN.to_string());
}

#[test]
fn repetition_join_and_trim() {
    assert_eq!(repeat_char('=', 4), "====");
    let parts = vec!["a".to_string(), "b".to_string(), "c".to_string()];
    assert_eq!(join_strings(&parts, ", "), "a, b, c");
    assert_eq!(join_strings(&vec![], "-"), "");
    assert_eq!(trim_exec("  padded  "), "padded");
    assert_eq!(trim_exec("\t\n"), "");
    assert!(is_blank("  \t "));
    assert!(!is_blank(" x "));
}

#[test]
fn lexicographic_comparison() {
    assert!(lex_le_exec("abc", "abd"));
    assert!(lex_le_exec("ab", "abc"));
    assert!(!lex_le_exec("b", "ab"));
    assert!(lex_le_exec("", "anything"));
    assert!(lex_le_exec("same", "same"));
}

#[test]
fn welcome_and_error_texts() {
    let all = WelcomeMessages::all_welcome_messages();
    assert_eq!(all.len(), 3);
    assert_eq!(all[0], "Bienvenido a Termirust - Terminal Matrix");
    assert_eq!(all[2], "");
    assert_eq!(ErrorMessages::format_error("x"), "Error: x");
    assert_eq!(
        ErrorMessages::format_command_not_found("foo"),
        "Error: El comando 'foo' no se pudo encontrar"
    );
    assert!(ErrorMessages::is_error_message("Error: nope"));
    assert!(!ErrorMessages::is_error_message("fine"));
}

#[test]
fn debug_and_prompt_texts() {
    assert_eq!(
        DebugMessages::format_buffer_debug("ls", 1),
        "[DEBUG] Buffer: 'ls' (2 chars, cursor at 1)"
    );
    assert!(DebugMessages::is_debug_message("[DEBUG] x"));
    assert_eq!(DebugMessages::format_generic_debug("hi"), "[DEBUG] hi");
    assert_eq!(PromptText::generate_prompt("/home"), "/home:~$ ");
    assert_eq!(PromptText::format_full_prompt("/home", "ls"), "/home:~$ ls");
    assert_eq!(PromptText::get_prompt_only("/h"), "/h:~$ ");
}

#[test]
fn exit_command_recognition() {
    let uc = ExitCommandsUseCase::new();
    assert!(uc.is_exit_command("exit"));
    assert!(uc.is_exit_command("quit"));
    assert!(!uc.is_exit_command("leave"));
    let ok = uc
        .execute_exit(&termirust::entities::Command::new("quit".to_string(), vec![]))
        .unwrap();
    assert!(ok.should_exit);
    assert_eq!(ok.exit_code, 0);
    assert_eq!(ok.message, "Cerrando Termirust...");
    let err = uc
        .execute_exit(&termirust::entities::Command::new("stay".to_string(), vec![]))
        .unwrap_err();
    assert_eq!(err, "Comando no válido para exit");
}

#[test]
fn exit_records_and_info() {
    let refused = ExitResult::new(false, "no".to_string());
    assert_eq!(refused.exit_code, 1);
    let custom = refused.with_exit_code(7);
    assert_eq!(custom.exit_code, 7);
    let info = ExitCommandInfo::new();
    assert_eq!(info.name, "exit");
    assert_eq!(info.aliases, vec!["quit".to_string()]);
    assert_eq!(info.get_formatted_help(), info.help_text);
}

#[test]
fn exit_rendering() {
    let done = ExitResult::new(true, "bye".to_string());
    let lines = ExitDisplayComponent::render(&done);
    assert_eq!(lines.len(), 4);
    assert_eq!(lines[0], "bye");
    assert_eq!(lines[3], "👋 ¡Hasta luego!");

    let stay = ExitResult::new(false, "no".to_string());
    assert_eq!(ExitDisplayComponent::render(&stay).len(), 1);

    let err = ExitDisplayComponent::render_error("why");
    assert_eq!(err[1], "   why");

    assert_eq!(
        ExitDisplayComponent::format_farewell_message(Some("ada")),
        "👋 ¡Hasta luego, ada! Gracias por usar Termirust."
    );
    assert_eq!(
        ExitDisplayComponent::format_farewell_message(None),
        "👋 ¡Hasta luego! Gracias por usar Termirust."
    );

    let progress = ExitDisplayComponent::render_shutdown_progress(2, 4);
    assert_eq!(progress[1], "📊 Progreso: 50%");
    assert!(progress[2].contains("50%"));

    let stats = ExitDisplayComponent::render_stats(3, None);
    assert_eq!(stats[2], "🔄 Veces ejecutado: 3");
    assert_eq!(stats[3], "🕒 Última ejecución: Nunca");

    let info = termirust::exit_commands::ExitCommandsUseCase::new().get_exit_info();
    let help = ExitDisplayComponent::render_help(&info);
    assert_eq!(help[0], "🚪 COMANDO EXIT");
    assert_eq!(help[3], "📝 Descripción: Cierra la aplicación Termirust");
    assert_eq!(help[4], "🔗 Alias: quit");
    assert!(help.iter().all(|l| l.is_empty() || !l.trim().is_empty()));
}
