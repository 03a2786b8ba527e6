use termirust::entities::{Command, FileInfo};
use termirust::input::InputHandler;
use termirust::pipeline::{
    resolve, complete_clear, complete_help, complete_pwd, complete_cd, complete_exit,
    complete_ls, complete_ls_checked, complete_external, Dispatch, SpawnOutcome,
};
use termirust::repositories::CommandRepository;
use termirust::services::{CommandService, TerminalService};
use termirust::use_cases::{ExecuteCommandUseCase, HandleInputUseCase};

/// A host-side repository for tests: builtins complete in memory and every
/// external command is reported as not found.
struct StubRepository;

impl CommandRepository for StubRepository {
    fn execute_command(&self, command: &Command) -> Result<Command, String> {
        let cmd = Command::new(command.name.clone(), command.args.clone());
        match resolve(command) {
            Dispatch::Empty => Ok(command.clone()),
            Dispatch::Clear => Ok(complete_clear(cmd)),
            Dispatch::Help => Ok(complete_help(cmd)),
            Dispatch::Exit => Ok(complete_exit(cmd)),
            Dispatch::Pwd => Ok(complete_pwd(cmd, Ok("/home/someone".to_string()))),
            Dispatch::Cd(_path) => Ok(complete_cd(cmd, Ok(()))),
            Dispatch::Ls(full) => {
                let entries: Vec<FileInfo> = vec![
                    FileInfo::new("a.txt".to_string(), "/d/a.txt".to_string()).with_size(3),
                ];
                Ok(complete_ls(cmd, &full, entries, "/d".to_string()))
            }
            Dispatch::External(_, _) => Ok(complete_external(cmd, SpawnOutcome::NotFound)),
        }
    }
}

fn session() -> InputHandler<StubRepository> {
    let service = CommandService::new(StubRepository);
    let editor = HandleInputUseCase::new(TerminalService::new());
    let executor = ExecuteCommandUseCase::new(service, TerminalService::new());
    InputHandler::new(editor, executor)
}

#[test]
fn submitting_exit_terminates_and_records_one_success() {
    let mut s = session();
    assert!(!s.should_exit());
    let result = s.execute_command("exit", "/home/someone");
    let command = result.expect("exit completes");
    assert_eq!(command.name, "exit");
    assert_eq!(command.exit_code, 0);
    assert!(s.should_exit());
    let ledger = s.get_history_commands().get_history().get_entries();
    assert_eq!(ledger.len(), 1);
    assert!(ledger[0].success);
    assert_eq!(ledger[0].command, "exit");
}

#[test]
fn unknown_command_records_one_failure_naming_it() {
    let mut s = session();
    let result = s.execute_command("zzzznotacommand", "/home/someone");
    let command = result.expect("spawn failures fold into a failed command");
    assert_eq!(command.exit_code, 1);
    assert!(!s.should_exit());
    let ledger = s.get_history_commands().get_history().get_entries();
    assert_eq!(ledger.len(), 1);
    assert!(!ledger[0].success);
    let message = ledger[0].error_message.clone().expect("a failure carries its message");
    assert!(!message.is_empty());
    assert!(message.contains("zzzznotacommand"));
}

#[test]
fn quit_is_an_exit_alias() {
    let mut s = session();
    let result = s.execute_command("quit", "/x").unwrap();
    assert_eq!(result.exit_code, 0);
    assert!(s.should_exit());
}

#[test]
fn enter_key_runs_the_buffer_and_clears_it() {
    let mut s = session();
    s.handle_text_input("help", 10);
    assert_eq!(s.get_last_input_time(), 10);
    let out = s.handle_enter_key("/x", 20);
    let command = out.expect("a non-blank line runs").expect("help completes");
    assert_eq!(command.exit_code, 0);
    assert!(command.output.contains("Comandos disponibles:"));
    assert_eq!(s.get_input_handler().get_command_buffer(), "");
}

#[test]
fn blank_enter_does_nothing() {
    let mut s = session();
    assert!(s.handle_enter_key("/x", 0).is_none());
    assert_eq!(s.get_history_commands().get_history().get_entries().len(), 0);
}

#[test]
fn history_builtin_is_answered_without_dispatch() {
    let mut s = session();
    assert!(s.handle_history_commands("history"));
    assert!(!s.handle_history_commands("ls"));
    let lines = s.get_input_handler().get_output_lines();
    assert!(lines.iter().any(|l| l == "📭 No hay comandos en el historial"));
}

#[test]
fn resolve_routes_every_builtin() {
    let c = |name: &str, args: Vec<&str>| {
        Command::new(name.to_string(), args.into_iter().map(|s| s.to_string()).collect())
    };
    assert!(matches!(resolve(&c("", vec![])), Dispatch::Empty));
    assert!(matches!(resolve(&c("pwd", vec![])), Dispatch::Pwd));
    assert!(matches!(resolve(&c("clear", vec![])), Dispatch::Clear));
    assert!(matches!(resolve(&c("help", vec![])), Dispatch::Help));
    assert!(matches!(resolve(&c("exit", vec![])), Dispatch::Exit));
    assert!(matches!(resolve(&c("quit", vec![])), Dispatch::Exit));
    match resolve(&c("ls", vec!["-l", "/tmp"])) {
        Dispatch::Ls(full) => assert_eq!(full, "ls -l /tmp"),
        other => panic!("expected a listing dispatch, got a different one: {}", kind(&other)),
    }
    match resolve(&c("dir", vec![])) {
        Dispatch::Ls(full) => assert_eq!(full, "ls"),
        other => panic!("expected a listing dispatch, got a different one: {}", kind(&other)),
    }
    match resolve(&c("cd", vec![])) {
        Dispatch::Cd(p) => assert_eq!(p, "."),
        other => panic!("expected a cd dispatch, got a different one: {}", kind(&other)),
    }
    match resolve(&c("cat", vec!["x"])) {
        Dispatch::External(name, args) => {
            assert_eq!(name, "cat");
            assert_eq!(args, vec!["x".to_string()]);
        }
        other => panic!("expected an external dispatch, got a different one: {}", kind(&other)),
    }
}

fn kind(d: &Dispatch) -> &'static str {
    match d {
        Dispatch::Empty => "empty",
        Dispatch::Ls(_) => "ls",
        Dispatch::Cd(_) => "cd",
        Dispatch::Pwd => "pwd",
        Dispatch::Clear => "clear",
        Dispatch::Help => "help",
        Dispatch::Exit => "exit",
        Dispatch::External(_, _) => "external",
    }
}

#[test]
fn completions_report_their_outcomes() {
    let c = Command::new("pwd".to_string(), vec![]);
    let ok = complete_pwd(c, Ok("/somewhere".to_string()));
    assert_eq!(ok.output, "/somewhere");
    assert_eq!(ok.exit_code, 0);

    let c2 = Command::new("cd".to_string(), vec![]);
    let bad = complete_cd(c2, Err("no such directory".to_string()));
    assert_eq!(bad.output, "no such directory");
    assert_eq!(bad.exit_code, 1);

    let c3 = Command::new("clear".to_string(), vec![]);
    let cleared = complete_clear(c3);
    assert_eq!(cleared.output, "CLEAR");
    assert_eq!(cleared.exit_code, 0);
}

#[test]
fn external_outcomes_fold_into_commands() {
    let c = |n: &str| Command::new(n.to_string(), vec![]);
    let captured = complete_external(
        c("cat"),
        SpawnOutcome::Captured {
            stdout: "out".to_string(),
            stderr: "err".to_string(),
            status: Some(0),
        },
    );
    assert_eq!(captured.output, "out\nerr");
    assert_eq!(captured.exit_code, 0);

    let silent = complete_external(
        c("true"),
        SpawnOutcome::Captured {
            stdout: "x".to_string(),
            stderr: "".to_string(),
            status: None,
        },
    );
    assert_eq!(silent.output, "x");
    assert_eq!(silent.exit_code, 1);

    let missing = complete_external(c("nope"), SpawnOutcome::NotFound);
    assert_eq!(missing.output, "El comando 'nope' no se pudo encontrar");
    assert_eq!(missing.exit_code, 1);

    let failed = complete_external(c("x"), SpawnOutcome::Failed("denied".to_string()));
    assert_eq!(failed.output, "Error: denied");
    assert_eq!(failed.exit_code, 1);
}

#[test]
fn exit_completion_writes_the_farewell() {
    let done = complete_exit(Command::new("exit".to_string(), vec![]));
    assert_eq!(done.exit_code, 0);
    assert_eq!(
        done.output,
        "Cerrando Termirust...\n🔄 Preparando cierre de la aplicación...\n📝 Guardando configuración...\n👋 ¡Hasta luego!"
    );
    let wrong = complete_exit(Command::new("stop".to_string(), vec![]));
    assert_eq!(wrong.exit_code, 1);
    assert!(wrong.output.contains("❌ Error en comando exit:"));
}

#[test]
fn ls_completion_renders_or_rejects() {
    let entries = vec![FileInfo::new("a".to_string(), "/d/a".to_string()).with_size(1)];
    let good = complete_ls(
        Command::new("ls".to_string(), vec![]),
        "ls",
        entries,
        "/d".to_string(),
    );
    assert_eq!(good.exit_code, 0);
    assert!(good.output.starts_with("📁 Directorio: /d"));

    let bad = complete_ls(
        Command::new("ls".to_string(), vec!["-q".to_string()]),
        "ls -q",
        vec![],
        "/d".to_string(),
    );
    assert_eq!(bad.exit_code, 1);
    assert!(bad.output.contains("Opción desconocida: -q"));
}

#[test]
fn checked_listing_refuses_an_overflowing_total() {
    let entries = vec![
        FileInfo::new("a".to_string(), "/d/a".to_string()).with_size(u64::MAX),
        FileInfo::new("b".to_string(), "/d/b".to_string()).with_size(u64::MAX),
    ];
    let refused = complete_ls_checked(
        Command::new("ls".to_string(), vec![]),
        "ls",
        entries,
        "/d".to_string(),
    );
    assert_eq!(refused.exit_code, 1);
    assert_eq!(
        refused.output,
        "❌ Error en comando ls:\n   El tamaño total del directorio desborda el contador"
    );
    let fine = complete_ls_checked(
        Command::new("ls".to_string(), vec![]),
        "ls",
        vec![FileInfo::new("a".to_string(), "/d/a".to_string()).with_size(1)],
        "/d".to_string(),
    );
    assert_eq!(fine.exit_code, 0);
    assert!(fine.output.starts_with("📁 Directorio: /d"));
}

#[test]
fn completions_preserve_the_arguments() {
    let c = Command::new("pwd".to_string(), vec!["kept".to_string()]);
    let done = complete_pwd(c, Ok("/w".to_string()));
    assert_eq!(done.args, vec!["kept".to_string()]);
    let e = Command::new("nope".to_string(), vec!["x".to_string(), "y".to_string()]);
    let failed = complete_external(e, SpawnOutcome::NotFound);
    assert_eq!(failed.args, vec!["x".to_string(), "y".to_string()]);
}

#[test]
fn parse_command_splits_on_whitespace() {
    let service = CommandService::new(StubRepository);
    let parsed = service.parse_command("  echo  one   two ");
    assert_eq!(parsed.name, "echo");
    assert_eq!(parsed.args, vec!["one".to_string(), "two".to_string()]);
    let empty = service.parse_command("   ");
    assert_eq!(empty.name, "");
    assert!(empty.args.is_empty());
}

#[test]
fn execute_dispatches_and_clear_returns_the_marker() {
    let service = CommandService::new(StubRepository);
    let mut executor = ExecuteCommandUseCase::new(service, TerminalService::new());
    let helped = executor.execute("help", "/w").unwrap();
    assert!(helped.output.contains("Comandos disponibles:"));
    assert!(!executor.should_exit());
    let cleared = executor.execute("clear", "/w").unwrap();
    assert_eq!(cleared.output, "CLEAR");
    let quit = executor.execute("quit", "/w").unwrap();
    assert_eq!(quit.exit_code, 0);
    assert!(executor.should_exit());
}
