//! The builtin dispatch: which handler a parsed command goes to, and the
//! completion of each builtin or external outcome into a finished command.
//! The host performs the process and file-system work and hands the
//! outcomes back as plain values.
use vstd::prelude::*;
use crate::entities::{Command, FileInfo};
use crate::exit_commands::ExitCommandsUseCase;
use crate::exit_display::ExitDisplayComponent;
use crate::ls_commands::{
    LsCommandParser,
    LsCommand,
    LsCommandsUseCase,
    LsOptions,
    sum_sizes,
    count_plain_files,
    count_dirs,
    keep_pred,
    parse_ls_tokens,
    default_ls_options,
    LsParse,
};
use crate::entities::sorted_by;
use crate::ls_display::{LsDisplayComponent, ls_result_lines};
use crate::entities::LsResult;
use crate::text::{str_eq, join_strings, join_with, split_ws};
use crate::texts::ErrorMessages;

verus! {

/// Where a parsed command is handled.
pub enum Dispatch {
    Empty,
    Ls(String),
    Cd(String),
    Pwd,
    Clear,
    Help,
    Exit,
    External(String, Vec<String>),
}

/// The arguments rebuilt as text, one leading space before each.
pub open spec fn args_text(args: Seq<Seq<char>>) -> Seq<char>
    decreases args.len(),
{
    if args.len() == 0 {
        Seq::empty()
    } else {
        args_text(args.drop_last()) + " "@ + args.last()
    }
}

/// Decides where a command goes: the empty command nowhere, the builtin
/// names to their handlers — a listing command carries its rebuilt text,
/// a directory change its target (the current directory when absent) —
/// and any other name to the external spawner.
pub fn resolve(command: &Command) -> (r: Dispatch)
    ensures
        ({
            let name = command.name@;
            if name.len() == 0 {
                r is Empty
            } else if name == "ls"@ || name == "dir"@ {
                r matches Dispatch::Ls(full) && full@ == "ls"@ + args_text(
                    command.args@.map_values(|a: String| a@),
                )
            } else if name == "cd"@ {
                r matches Dispatch::Cd(p) && p@ == (if command.args@.len() > 0 {
                    command.args@[0]@
                } else {
                    "."@
                })
            } else if name == "pwd"@ {
                r is Pwd
            } else if name == "clear"@ {
                r is Clear
            } else if name == "help"@ {
                r is Help
            } else if name == "exit"@ || name == "quit"@ {
                r is Exit
            } else {
                r matches Dispatch::External(n, args) && n@ == name && args@.map_values(
                    |a: String| a@,
                ) == command.args@.map_values(|a: String| a@)
            }
        }),
{
    if command.name.as_str().unicode_len() == 0 {
        return Dispatch::Empty;
    }
    let name = command.name.as_str();
    if str_eq(name, "ls") || str_eq(name, "dir") {
        let mut full = String::from_str("ls");
        let n = command.args.len();
        let mut i: usize = 0;
        while i < n
            invariant
                i <= n,
                n == command.args@.len(),
                full@ == "ls"@ + args_text(
                    command.args@.map_values(|a: String| a@).take(i as int),
                ),
            decreases n - i,
        {
            proof {
                let m = command.args@.map_values(|a: String| a@);
                assert(m.take(i + 1 as int).drop_last() =~= m.take(i as int));
                assert(m.take(i + 1 as int).last() == m[i as int]);
            }
            full.append(" ");
            full.append(command.args[i].as_str());
            i = i + 1;
        }
        proof {
            let m = command.args@.map_values(|a: String| a@);
            assert(m.take(n as int) =~= m);
        }
        Dispatch::Ls(full)
    } else if str_eq(name, "cd") {
        let p = if command.args.len() > 0 {
            command.args[0].clone()
        } else {
            String::from_str(".")
        };
        Dispatch::Cd(p)
    } else if str_eq(name, "pwd") {
        Dispatch::Pwd
    } else if str_eq(name, "clear") {
        Dispatch::Clear
    } else if str_eq(name, "help") {
        Dispatch::Help
    } else if str_eq(name, "exit") || str_eq(name, "quit") {
        Dispatch::Exit
    } else {
        let mut args: Vec<String> = Vec::new();
        let n = command.args.len();
        let mut i: usize = 0;
        while i < n
            invariant
                i <= n,
                n == command.args@.len(),
                args@.len() == i,
                forall|k: int| 0 <= k < i ==> args@[k] == command.args@[k],
            decreases n - i,
        {
            args.push(command.args[i].clone());
            i = i + 1;
        }
        proof {
            assert(args@ =~= command.args@);
        }
        Dispatch::External(command.name.clone(), args)
    }
}

/// The path a listing command names, if it names one; the host scans that
/// directory (or the current one) before completing the listing.
pub fn ls_target(full: &str) -> (r: Option<String>)
    ensures
        ({
            let toks = split_ws(full@);
            toks.len() > 0 && toks[0] == "ls"@ && (parse_ls_tokens(
                toks.drop_first(),
                default_ls_options(),
                Option::None,
            ) matches LsParse::Parsed(p, o) && (match (r, p) {
                (Option::Some(rp), Option::Some(pp)) => rp@ == pp,
                (Option::None, Option::None) => true,
                _ => false,
            })) || !(parse_ls_tokens(
                toks.drop_first(),
                default_ls_options(),
                Option::None,
            ) is Parsed) || toks.len() == 0 || toks[0] != "ls"@
        }),
{
    match LsCommandParser::parse_command(full) {
        LsCommand::List(path, _options) => path,
        _ => None,
    }
}

/// Completes the `clear` builtin: its output is the reset marker.
pub fn complete_clear(command: Command) -> (r: Command)
    ensures
        r.name@ == command.name@,
        r.args == command.args,
        r.output@ == "CLEAR"@,
        r.exit_code == 0,
{
    command.with_output(String::from_str("CLEAR")).with_exit_code(0)
}

/// Completes the `help` builtin with the command summary.
pub fn complete_help(command: Command) -> (r: Command)
    ensures
        r.name@ == command.name@,
        r.args == command.args,
        r.exit_code == 0,
        r.output@ == "\nComandos disponibles:\n"@
            + "- ls, dir: Listar archivos y directorios (con opciones: -a, -l, -h, -S, -t)\n"@
            + "- cd <directorio>: Cambiar directorio\n"@ + "- pwd: Mostrar directorio actual\n"@
            + "- clear: Limpiar pantalla\n"@ + "- help: Mostrar esta ayuda\n"@
            + "- exit, quit: Cerrar la aplicación Termirust\n"@
            + "\nOpciones del comando ls:\n"@ + "- ls -a: Mostrar archivos ocultos\n"@
            + "- ls -l: Formato largo con detalles\n"@ + "- ls -h: Tamaños en formato legible\n"@
            + "- ls -S: Ordenar por tamaño\n"@ + "- ls -t: Ordenar por fecha de modificación\n"@
            + "- ls -la: Combinar opciones\n"@,
{
    let mut text = String::from_str("\nComandos disponibles:\n");
    text.append("- ls, dir: Listar archivos y directorios (con opciones: -a, -l, -h, -S, -t)\n");
    text.append("- cd <directorio>: Cambiar directorio\n");
    text.append("- pwd: Mostrar directorio actual\n");
    text.append("- clear: Limpiar pantalla\n");
    text.append("- help: Mostrar esta ayuda\n");
    text.append("- exit, quit: Cerrar la aplicación Termirust\n");
    text.append("\nOpciones del comando ls:\n");
    text.append("- ls -a: Mostrar archivos ocultos\n");
    text.append("- ls -l: Formato largo con detalles\n");
    text.append("- ls -h: Tamaños en formato legible\n");
    text.append("- ls -S: Ordenar por tamaño\n");
    text.append("- ls -t: Ordenar por fecha de modificación\n");
    text.append("- ls -la: Combinar opciones\n");
    command.with_output(text).with_exit_code(0)
}

/// Completes the `pwd` builtin from what the file system answered.
pub fn complete_pwd(command: Command, cwd: Result<String, String>) -> (r: Command)
    ensures
        r.name@ == command.name@,
        r.args == command.args,
        (cwd matches Ok(p) ==> r.output@ == p@ && r.exit_code == 0),
        (cwd matches Err(e) ==> r.output@ == e@ && r.exit_code == 1),
{
    match cwd {
        Ok(path) => command.with_output(path).with_exit_code(0),
        Err(e) => command.with_output(e).with_exit_code(1),
    }
}

/// Completes the `cd` builtin from what the file system answered.
pub fn complete_cd(command: Command, change: Result<(), String>) -> (r: Command)
    ensures
        r.name@ == command.name@,
        r.args == command.args,
        (change matches Ok(u) ==> r.output@ == Seq::<char>::empty() && r.exit_code == 0),
        (change matches Err(e) ==> r.output@ == e@ && r.exit_code == 1),
{
    match change {
        Ok(_) => command.with_output(String::new()).with_exit_code(0),
        Err(e) => command.with_output(e).with_exit_code(1),
    }
}

/// Completes the exit builtin: a command really named `exit` or `quit`
/// produces the farewell block with a zero code, anything else the exit
/// error block with a one.
pub fn complete_exit(command: Command) -> (r: Command)
    ensures
        r.name@ == command.name@,
        r.args == command.args,
        (command.name@ == "exit"@ || command.name@ == "quit"@) ==> r.exit_code == 0 && r.output@
            == "Cerrando Termirust...\n🔄 Preparando cierre de la aplicación...\n📝 Guardando configuración...\n👋 ¡Hasta luego!"@,
        !(command.name@ == "exit"@ || command.name@ == "quit"@) ==> r.exit_code == 1,
{
    let exit_use_case = ExitCommandsUseCase::new();
    match exit_use_case.execute_exit(&command) {
        Ok(result) => {
            let lines = ExitDisplayComponent::render(&result);
            let output = join_strings(&lines, "\n");
            proof {
                reveal_with_fuel(crate::text::join_with, 6);
                let lv = lines@.map_values(|s: String| s@);
                assert(lv =~= seq![lv[0], lv[1], lv[2], lv[3]]);
                assert(lv.drop_last() =~= seq![lv[0], lv[1], lv[2]]);
                assert(lv.drop_last().drop_last() =~= seq![lv[0], lv[1]]);
                assert(lv.drop_last().drop_last().drop_last() =~= seq![lv[0]]);
                assert(output@ =~= "Cerrando Termirust..."@ + "\n"@
                    + "🔄 Preparando cierre de la aplicación..."@ + "\n"@
                    + "📝 Guardando configuración..."@ + "\n"@ + "👋 ¡Hasta luego!"@);
                assert("Cerrando Termirust..."@ + "\n"@
                    + "🔄 Preparando cierre de la aplicación..."@ + "\n"@
                    + "📝 Guardando configuración..."@ + "\n"@ + "👋 ¡Hasta luego!"@
                    =~= "Cerrando Termirust...\n🔄 Preparando cierre de la aplicación...\n📝 Guardando configuración...\n👋 ¡Hasta luego!"@)
                    by {
                    reveal_strlit("Cerrando Termirust...");
                    reveal_strlit("\n");
                    reveal_strlit("🔄 Preparando cierre de la aplicación...");
                    reveal_strlit("📝 Guardando configuración...");
                    reveal_strlit("👋 ¡Hasta luego!");
                    reveal_strlit(
                        "Cerrando Termirust...\n🔄 Preparando cierre de la aplicación...\n📝 Guardando configuración...\n👋 ¡Hasta luego!",
                    );
                }
            }
            command.with_output(output).with_exit_code(0)
        },
        Err(e) => {
            let lines = ExitDisplayComponent::render_error(e.as_str());
            let output = join_strings(&lines, "\n");
            command.with_output(output).with_exit_code(1)
        },
    }
}

/// The shaped listing that a scan and a set of options determine: exact
/// totals over the scan, entries sorted by the chosen key and filtered by
/// the chosen policies, under the scanned directory's name.
pub open spec fn listing_of(
    res: LsResult,
    entries: Seq<FileInfo>,
    dir: Seq<char>,
    opts: LsOptions,
) -> bool {
    &&& res.total_files == count_plain_files(entries)
    &&& res.total_directories == count_dirs(entries)
    &&& res.total_size == sum_sizes(entries)
    &&& res.current_directory@ == dir
    &&& sorted_by(opts.sort_by, res.files@)
    &&& res.files@.to_multiset() == entries.to_multiset().filter(keep_pred(opts))
}

/// Completes a listing command against the entries the host scanned: the
/// rendered listing on success — the joined lines of the full rendering of
/// a listing the scan and the parsed options determine — and the rendered
/// parse error otherwise.
pub fn complete_ls(
    command: Command,
    full: &str,
    entries: Vec<FileInfo>,
    current_directory: String,
) -> (r: Command)
    requires
        sum_sizes(entries@) <= u64::MAX,
        entries@.len() < usize::MAX,
    ensures
        r.name@ == command.name@,
        r.args == command.args,
        ({
            let toks = split_ws(full@);
            (toks.len() > 0 && toks[0] == "ls"@) ==> (parse_ls_tokens(
                toks.drop_first(),
                default_ls_options(),
                Option::None,
            ) matches LsParse::Parsed(p, o) ==> (r.exit_code == 0
                && crate::text::spec_starts_with(
                r.output@,
                "📁 Directorio: "@ + current_directory@,
            ) && (exists|res: LsResult|
                #[trigger] listing_of(res, entries@, current_directory@, o) && r.output@
                    == join_with(ls_result_lines(res, o), "\n"@))))
        }),
        ({
            let toks = split_ws(full@);
            toks.len() == 0 || toks[0] != "ls"@ || !(parse_ls_tokens(
                toks.drop_first(),
                default_ls_options(),
                Option::None,
            ) is Parsed) ==> r.exit_code == 1
        }),
{
    let use_case = LsCommandsUseCase::new();
    let options = match LsCommandParser::parse_command(full) {
        LsCommand::List(_p, o) => o,
        _ => LsOptions::default(),
    };
    let parsed = LsCommandParser::parse_command(full);
    let ghost entries_view = entries@;
    let ghost dir_view = current_directory@;
    match parsed.execute(&use_case, entries, current_directory) {
        Ok(result) => {
            let lines = LsDisplayComponent::render(&result, &options);
            let output = join_strings(&lines, "\n");
            proof {
                let lviews = lines@.map_values(|s: String| s@);
                assert(lviews.len() >= 2);
                lemma_join_starts_with_first(lviews, "\n"@);
                assert(listing_of(result, entries_view, dir_view, options));
                assert(output@ == join_with(ls_result_lines(result, options), "\n"@));
            }
            command.with_output(output).with_exit_code(0)
        },
        Err(e) => {
            let lines = LsDisplayComponent::render_error(e.as_str());
            let output = join_strings(&lines, "\n");
            command.with_output(output).with_exit_code(1)
        },
    }
}

/// Completes a listing command whatever the scanned sizes sum to: when the
/// total would not fit the size counter the listing is refused as an error
/// command, and otherwise the completion above applies.
pub fn complete_ls_checked(
    command: Command,
    full: &str,
    entries: Vec<FileInfo>,
    current_directory: String,
) -> (r: Command)
    requires
        entries@.len() < usize::MAX,
    ensures
        r.name@ == command.name@,
        r.args == command.args,
        sum_sizes(entries@) > u64::MAX ==> r.exit_code == 1 && r.output@
            == "❌ Error en comando ls:\n   El tamaño total del directorio desborda el contador"@,
        sum_sizes(entries@) <= u64::MAX ==> ({
            let toks = split_ws(full@);
            &&& ((toks.len() > 0 && toks[0] == "ls"@) ==> (parse_ls_tokens(
                toks.drop_first(),
                default_ls_options(),
                Option::None,
            ) matches LsParse::Parsed(p, o) ==> (r.exit_code == 0
                && crate::text::spec_starts_with(
                r.output@,
                "📁 Directorio: "@ + current_directory@,
            ) && (exists|res: LsResult|
                #[trigger] listing_of(res, entries@, current_directory@, o) && r.output@
                    == join_with(ls_result_lines(res, o), "\n"@)))))
            &&& ((toks.len() == 0 || toks[0] != "ls"@ || !(parse_ls_tokens(
                toks.drop_first(),
                default_ls_options(),
                Option::None,
            ) is Parsed)) ==> r.exit_code == 1)
        }),
{
    let n = entries.len();
    let mut total: u64 = 0;
    let mut i: usize = 0;
    while i < n
        invariant
            i <= n,
            n == entries@.len(),
            total == sum_sizes(entries@.take(i as int)),
        decreases n - i,
    {
        proof {
            assert(entries@.take(i + 1 as int).drop_last() =~= entries@.take(i as int));
            assert(entries@.take(i + 1 as int).last() == entries@[i as int]);
        }
        if !entries[i].is_directory {
            if entries[i].size > u64::MAX - total {
                proof {
                    crate::ls_commands::lemma_sum_sizes_prefix(entries@, i + 1 as int);
                }
                let lines = LsDisplayComponent::render_error(
                    "El tamaño total del directorio desborda el contador",
                );
                let output = join_strings(&lines, "\n");
                proof {
                    reveal_with_fuel(crate::text::join_with, 3);
                    let lviews = lines@.map_values(|s: String| s@);
                    assert(lviews =~= seq![lviews[0], lviews[1]]);
                    assert(lviews.drop_last() =~= seq![lviews[0]]);
                    assert(output@ =~= "❌ Error en comando ls:"@ + "\n"@
                        + ("   "@ + "El tamaño total del directorio desborda el contador"@));
                    assert("❌ Error en comando ls:"@ + "\n"@ + ("   "@
                        + "El tamaño total del directorio desborda el contador"@)
                        =~= "❌ Error en comando ls:\n   El tamaño total del directorio desborda el contador"@) by {
                        reveal_strlit("❌ Error en comando ls:");
                        reveal_strlit("\n");
                        reveal_strlit("   ");
                        reveal_strlit("El tamaño total del directorio desborda el contador");
                        reveal_strlit(
                            "❌ Error en comando ls:\n   El tamaño total del directorio desborda el contador",
                        );
                    }
                }
                return command.with_output(output).with_exit_code(1);
            }
            total = total + entries[i].size;
        }
        i = i + 1;
    }
    proof {
        assert(entries@.take(n as int) =~= entries@);
    }
    complete_ls(command, full, entries, current_directory)
}

/// A join of at least one part starts with the first part.
proof fn lemma_join_starts_with_first(parts: Seq<Seq<char>>, sep: Seq<char>)
    requires
        parts.len() >= 1,
    ensures
        crate::text::spec_starts_with(crate::text::join_with(parts, sep), parts[0]),
    decreases parts.len(),
{
    if parts.len() == 1 {
        assert(crate::text::join_with(parts, sep) == parts[0]);
        assert(parts[0].take(parts[0].len() as int) =~= parts[0]);
    } else {
        lemma_join_starts_with_first(parts.drop_last(), sep);
        let j = crate::text::join_with(parts, sep);
        let prev = crate::text::join_with(parts.drop_last(), sep);
        assert(parts.drop_last()[0] == parts[0]);
        assert(prev.take(parts[0].len() as int) == parts[0]);
        assert(j.take(parts[0].len() as int) =~= parts[0]);
    }
}

/// What the host's process spawner reported for an external command.
pub enum SpawnOutcome {
    Captured { stdout: String, stderr: String, status: Option<i32> },
    NotFound,
    Failed(String),
}

/// Folds a spawn outcome into a finished command: captured streams are
/// combined (the error stream on its own line), a missing status counts as
/// failure, an unknown command is reported by name, and any other spawn
/// failure carries its message. Failure never escapes as an error: it
/// becomes a command with a non-zero code.
pub fn complete_external(command: Command, outcome: SpawnOutcome) -> (r: Command)
    ensures
        r.name@ == command.name@,
        r.args == command.args,
        (outcome matches SpawnOutcome::Captured { stdout, stderr, status } ==> r.output@ == (
        if stderr@.len() > 0 {
            stdout@ + "\n"@ + stderr@
        } else {
            stdout@
        }) && r.exit_code == (match status {
            Option::Some(c) => c as int,
            Option::None => 1int,
        })),
        (outcome is NotFound ==> r.output@ == "El comando '"@ + command.name@
            + "' no se pudo encontrar"@ && r.exit_code == 1),
        (outcome matches SpawnOutcome::Failed(e) ==> r.output@ == "Error: "@ + e@ && r.exit_code
            == 1),
{
    match outcome {
        SpawnOutcome::Captured { stdout, stderr, status } => {
            let combined = if stderr.as_str().unicode_len() > 0 {
                let mut c = stdout;
                c.append("\n");
                c.append(stderr.as_str());
                c
            } else {
                stdout
            };
            let code = match status {
                Some(c) => c,
                None => 1,
            };
            command.with_output(combined).with_exit_code(code)
        },
        SpawnOutcome::NotFound => {
            let mut msg = String::from_str("El comando '");
            msg.append(command.name.as_str());
            msg.append("' no se pudo encontrar");
            command.with_output(msg).with_exit_code(1)
        },
        SpawnOutcome::Failed(e) => {
            let msg = ErrorMessages::format_error(e.as_str());
            command.with_output(msg).with_exit_code(1)
        },
    }
}

} // verus!
