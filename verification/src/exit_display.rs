//! Text rendering for the exit builtin.
use vstd::prelude::*;
use crate::exit_commands::{ExitResult, ExitCommandInfo};
use crate::entities::{all_spaces, is_blank};
use crate::text::{
    u64_to_string,
    dec_str,
    repeat_char,
    join_strings,
    join_with,
    split_lines,
    lines_of,
};

verus! {

/// The width of the rule under the exit help title.
pub const EXIT_HELP_RULE: usize = 50;

/// The width of the rule under the exit statistics title.
pub const EXIT_STATS_RULE: usize = 40;

/// The number of character cells in a rendered progress bar.
pub const PROGRESS_BAR_CELLS: u32 = 30;

/// Renders the outcomes and help of the exit builtin as display lines.
pub struct ExitDisplayComponent;

impl ExitDisplayComponent {
    /// The termination message, with the farewell block when the session
    /// really ends.
    pub fn render(result: &ExitResult) -> (r: Vec<String>)
        ensures
            r@.len() == (if result.should_exit {
                4int
            } else {
                1int
            }),
            r@[0]@ == result.message@,
            result.should_exit ==> r@[1]@ == "🔄 Preparando cierre de la aplicación..."@ && r@[2]@
                == "📝 Guardando configuración..."@ && r@[3]@ == "👋 ¡Hasta luego!"@,
    {
        let mut out: Vec<String> = Vec::new();
        out.push(result.message.clone());
        if result.should_exit {
            out.push(String::from_str("🔄 Preparando cierre de la aplicación..."));
            out.push(String::from_str("📝 Guardando configuración..."));
            out.push(String::from_str("👋 ¡Hasta luego!"));
        }
        out
    }

    /// The help screen: a title, a rule, the description, the aliases
    /// joined with commas, the usage, and the non-blank help lines.
    pub fn render_help(info: &ExitCommandInfo) -> (r: Vec<String>)
        ensures
            r@.len() >= 7,
            r@[0]@ == "🚪 COMANDO EXIT"@,
            r@[1]@.len() == EXIT_HELP_RULE,
            r@[2]@ == Seq::<char>::empty(),
            r@[3]@ == "📝 Descripción: "@ + info.description@,
            r@[4]@ == "🔗 Alias: "@ + join_with(info.aliases@.map_values(|a: String| a@), ", "@),
            r@[5]@ == "💻 Uso: "@ + info.usage@,
            r@[6]@ == Seq::<char>::empty(),
            r@.skip(7).map_values(|s: String| s@) == lines_of(info.help_text@).filter(
                (|l: Seq<char>| !all_spaces(l)),
            ),
    {
        let mut out: Vec<String> = Vec::new();
        out.push(String::from_str("🚪 COMANDO EXIT"));
        out.push(repeat_char('=', EXIT_HELP_RULE));
        out.push(String::new());
        let mut desc = String::from_str("📝 Descripción: ");
        desc.append(info.description.as_str());
        out.push(desc);
        let mut aliases = String::from_str("🔗 Alias: ");
        aliases.append(join_strings(&info.aliases, ", ").as_str());
        out.push(aliases);
        let mut usage = String::from_str("💻 Uso: ");
        usage.append(info.usage.as_str());
        out.push(usage);
        out.push(String::new());
        let ghost head = out@;
        let lines = split_lines(info.help_text.as_str());
        let ghost all = lines_of(info.help_text@);
        let n = lines.len();
        let mut i: usize = 0;
        while i < n
            invariant
                i <= n,
                n == lines@.len(),
                lines@.map_values(|t: String| t@) == all,
                head.len() == 7,
                out@.len() >= 7,
                out@.take(7) == head,
                out@.skip(7).map_values(|s: String| s@) == all.take(i as int).filter(
                    (|l: Seq<char>| !all_spaces(l)),
                ),
            decreases n - i,
        {
            proof {
                reveal(Seq::filter);
                assert(all.take(i + 1 as int).drop_last() =~= all.take(i as int));
                assert(all.take(i + 1 as int).last() == all[i as int]);
                assert(lines@[i as int]@ == all[i as int]);
            }
            if !is_blank(lines[i].as_str()) {
                out.push(lines[i].clone());
                proof {
                    assert(out@.take(7) =~= head);
                    assert(out@.skip(7).map_values(|s: String| s@) =~= all.take(i as int).filter(
                        (|l: Seq<char>| !all_spaces(l)),
                    ).push(all[i as int]));
                }
            }
            i = i + 1;
        }
        proof {
            assert(all.take(n as int) =~= all);
            assert(out@[0] == head[0]);
            assert(out@[1] == head[1]);
            assert(out@[2] == head[2]);
            assert(out@[3] == head[3]);
            assert(out@[4] == head[4]);
            assert(out@[5] == head[5]);
            assert(out@[6] == head[6]);
        }
        out
    }

    /// The error screen for a misused exit command.
    pub fn render_error(error: &str) -> (r: Vec<String>)
        ensures
            r@.len() == 6,
            r@[0]@ == "❌ Error en comando exit:"@,
            r@[1]@ == "   "@ + error@,
            r@[2]@ == Seq::<char>::empty(),
            r@[3]@ == "💡 Uso correcto:"@,
            r@[4]@ == "   exit          - Cierra la aplicación"@,
            r@[5]@ == "   exit --help   - Muestra ayuda"@,
    {
        let mut out: Vec<String> = Vec::new();
        out.push(String::from_str("❌ Error en comando exit:"));
        let mut line = String::from_str("   ");
        line.append(error);
        out.push(line);
        out.push(String::new());
        out.push(String::from_str("💡 Uso correcto:"));
        out.push(String::from_str("   exit          - Cierra la aplicación"));
        out.push(String::from_str("   exit --help   - Muestra ayuda"));
        out
    }

    /// The prompt asking the user to confirm leaving.
    pub fn render_confirmation() -> (r: Vec<String>)
        ensures
            r@.len() == 4,
            r@[0]@ == "⚠️  Confirmación de salida"@,
            r@[1]@ == "¿Estás seguro de que quieres cerrar Termirust?"@,
            r@[2]@ == Seq::<char>::empty(),
            r@[3]@ == "Presiona 'y' para confirmar o 'n' para cancelar:"@,
    {
        let mut out: Vec<String> = Vec::new();
        out.push(String::from_str("⚠️  Confirmación de salida"));
        out.push(String::from_str("¿Estás seguro de que quieres cerrar Termirust?"));
        out.push(String::new());
        out.push(String::from_str("Presiona 'y' para confirmar o 'n' para cancelar:"));
        out
    }

    /// The notice shown when the exit was cancelled.
    pub fn render_cancellation() -> (r: Vec<String>)
        ensures
            r@.len() == 2,
            r@[0]@ == "✅ Salida cancelada"@,
            r@[1]@ == "La aplicación continuará ejecutándose."@,
    {
        let mut out: Vec<String> = Vec::new();
        out.push(String::from_str("✅ Salida cancelada"));
        out.push(String::from_str("La aplicación continuará ejecutándose."));
        out
    }

    /// Counters about the exit builtin.
    pub fn render_stats(execution_count: u32, last_execution: Option<String>) -> (r: Vec<String>)
        ensures
            r@.len() == 7,
            r@[0]@ == "📊 Estadísticas del comando exit:"@,
            r@[1]@.len() == EXIT_STATS_RULE,
            r@[2]@ == "🔄 Veces ejecutado: "@ + dec_str(execution_count as nat),
            (match last_execution {
                Option::Some(t) => r@[3]@ == "🕒 Última ejecución: "@ + t@,
                Option::None => r@[3]@ == "🕒 Última ejecución: Nunca"@,
            }),
            r@[4]@ == Seq::<char>::empty(),
            r@[5]@ == "💡 El comando exit cierra la aplicación de manera limpia,"@,
            r@[6]@ == "   guardando la configuración y cerrando todos los procesos."@,
    {
        let mut out: Vec<String> = Vec::new();
        out.push(String::from_str("📊 Estadísticas del comando exit:"));
        out.push(repeat_char('=', EXIT_STATS_RULE));
        let mut count_line = String::from_str("🔄 Veces ejecutado: ");
        count_line.append(u64_to_string(execution_count as u64).as_str());
        out.push(count_line);
        match last_execution {
            Some(t) => {
                let mut line = String::from_str("🕒 Última ejecución: ");
                line.append(t.as_str());
                out.push(line);
            },
            None => {
                out.push(String::from_str("🕒 Última ejecución: Nunca"));
            },
        }
        out.push(String::new());
        out.push(String::from_str("💡 El comando exit cierra la aplicación de manera limpia,"));
        out.push(String::from_str("   guardando la configuración y cerrando todos los procesos."));
        out
    }

    /// A personalised goodbye.
    pub fn format_farewell_message(username: Option<&str>) -> (r: String)
        ensures
            (match username {
                Option::Some(name) => r@ == "👋 ¡Hasta luego, "@ + name@ + "! Gracias por usar Termirust."@,
                Option::None => r@ == "👋 ¡Hasta luego! Gracias por usar Termirust."@,
            }),
    {
        match username {
            Some(name) => {
                let mut r = String::from_str("👋 ¡Hasta luego, ");
                r.append(name);
                r.append("! Gracias por usar Termirust.");
                r
            },
            None => String::from_str("👋 ¡Hasta luego! Gracias por usar Termirust."),
        }
    }

    /// Shutdown progress as a percentage, a bar, and the step under way.
    pub fn render_shutdown_progress(step: u32, total_steps: u32) -> (r: Vec<String>)
        requires
            total_steps > 0,
            step <= total_steps,
        ensures
            r@.len() == 4,
            r@[0]@ == "🔄 Cerrando Termirust..."@,
            r@[1]@ == "📊 Progreso: "@ + dec_str((step as nat) * 100 / (total_steps as nat)) + "%"@,
    {
        let wide: u64 = (step as u64) * 100 / (total_steps as u64);
        proof {
            assert((step as int) * 100 == (step as u64) as int * 100);
        }
        let progress: u32 = wide as u32;
        proof {
            assert((step as int) * 100 <= (total_steps as int) * 100) by (nonlinear_arith)
                requires
                    step <= total_steps,
            ;
            assert((step as int) * 100 / (total_steps as int) <= 100) by (nonlinear_arith)
                requires
                    0 < total_steps,
                    step <= total_steps,
            ;
        }
        let mut out: Vec<String> = Vec::new();
        out.push(String::from_str("🔄 Cerrando Termirust..."));
        let mut pct = String::from_str("📊 Progreso: ");
        pct.append(u64_to_string(progress as u64).as_str());
        pct.append("%");
        out.push(pct);
        out.push(Self::create_progress_bar(progress));
        let mut step_line = String::from_str("📝 Paso ");
        step_line.append(u64_to_string(step as u64).as_str());
        step_line.append("/");
        step_line.append(u64_to_string(total_steps as u64).as_str());
        step_line.append(": ");
        step_line.append(Self::get_step_description(step));
        out.push(step_line);
        out
    }

    /// A fixed-width bar with the percentage filled in.
    fn create_progress_bar(percentage: u32) -> (r: String)
        requires
            percentage <= 100,
        ensures
            r@.len() > 0,
    {
        let filled: u32 = percentage * PROGRESS_BAR_CELLS / 100;
        proof {
            assert((percentage as int) * 30 <= 100 * 30) by (nonlinear_arith)
                requires
                    percentage <= 100,
            ;
        }
        let empty: u32 = PROGRESS_BAR_CELLS - filled;
        let mut r = String::from_str("[");
        r.append(repeat_char('█', filled as usize).as_str());
        r.append(repeat_char('░', empty as usize).as_str());
        r.append("] ");
        r.append(u64_to_string(percentage as u64).as_str());
        r.append("%");
        proof {
            reveal_strlit("[");
        }
        r
    }

    /// What each shutdown step is doing.
    fn get_step_description(step: u32) -> (r: &'static str)
        ensures
            r@.len() > 0,
    {
        let r = match step {
            1 => "Guardando configuración",
            2 => "Cerrando conexiones",
            3 => "Liberando recursos",
            4 => "Finalizando procesos",
            5 => "Cerrando aplicación",
            _ => "Procesando...",
        };
        proof {
            reveal_strlit("Guardando configuración");
            reveal_strlit("Cerrando conexiones");
            reveal_strlit("Liberando recursos");
            reveal_strlit("Finalizando procesos");
            reveal_strlit("Cerrando aplicación");
            reveal_strlit("Procesando...");
        }
        r
    }
}

} // verus!
