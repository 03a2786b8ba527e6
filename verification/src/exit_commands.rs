//! The builtin that ends the session, and the records describing it.
use vstd::prelude::*;
use crate::entities::Command;
use crate::text::str_eq;

verus! {

/// The exit builtin: it recognises its own name and prepares the
/// termination record.
pub struct ExitCommandsUseCase;

impl ExitCommandsUseCase {
    pub fn new() -> (r: ExitCommandsUseCase) {
        ExitCommandsUseCase
    }

    /// Accepts exactly the commands named `exit` or `quit` and produces the
    /// termination record; anything else is refused.
    pub fn execute_exit(&self, command: &Command) -> (r: Result<ExitResult, String>)
        ensures
            (command.name@ == "exit"@ || command.name@ == "quit"@) <==> r is Ok,
            r matches Ok(res) ==> res.should_exit == true && res.message@
                == "Cerrando Termirust..."@ && res.exit_code == 0,
            r matches Err(e) ==> e@ == "Comando no válido para exit"@,
    {
        if !self.is_exit_command(command.name.as_str()) {
            return Err(String::from_str("Comando no válido para exit"));
        }
        Ok(
            ExitResult {
                should_exit: true,
                message: String::from_str("Cerrando Termirust..."),
                exit_code: 0,
            },
        )
    }

    /// Whether a name is one of the exit builtin's names.
    pub fn is_exit_command(&self, command_name: &str) -> (r: bool)
        ensures
            r == (command_name@ == "exit"@ || command_name@ == "quit"@),
    {
        str_eq(command_name, "exit") || str_eq(command_name, "quit")
    }

    /// The exit builtin described for help displays.
    pub fn get_exit_info(&self) -> (r: ExitCommandInfo)
        ensures
            r.name@ == "exit"@,
            r.aliases@.len() == 1 && r.aliases@[0]@ == "quit"@,
            r.description@ == "Cierra la aplicación Termirust"@,
            r.usage@ == "exit [--help]"@,
            r.help_text@ == "\nComando: exit\n"@ + "Alias: quit\n"@
                + "Descripción: Cierra la aplicación Termirust\n"@ + "\n"@ + "Uso:\n"@
                + "  exit          - Cierra la aplicación inmediatamente\n"@
                + "  exit --help   - Muestra esta ayuda\n"@ + "  quit          - Alias para exit\n"@
                + "\n"@ + "Ejemplos:\n"@ + "  exit          # Cierra la aplicación\n"@
                + "  quit          # Cierra la aplicación (alias)\n"@,
            r.help_text@.len() > 0,
    {
        let mut aliases: Vec<String> = Vec::new();
        aliases.push(String::from_str("quit"));
        let mut help = String::from_str("\nComando: exit\n");
        help.append("Alias: quit\n");
        help.append("Descripción: Cierra la aplicación Termirust\n");
        help.append("\n");
        help.append("Uso:\n");
        help.append("  exit          - Cierra la aplicación inmediatamente\n");
        help.append("  exit --help   - Muestra esta ayuda\n");
        help.append("  quit          - Alias para exit\n");
        help.append("\n");
        help.append("Ejemplos:\n");
        help.append("  exit          # Cierra la aplicación\n");
        help.append("  quit          # Cierra la aplicación (alias)\n");
        proof {
            reveal_strlit("\nComando: exit\n");
        }
        ExitCommandInfo {
            name: String::from_str("exit"),
            aliases,
            description: String::from_str("Cierra la aplicación Termirust"),
            usage: String::from_str("exit [--help]"),
            help_text: help,
        }
    }
}

/// What running the exit builtin decided.
#[derive(Debug, Clone)]
pub struct ExitResult {
    pub should_exit: bool,
    pub message: String,
    pub exit_code: i32,
}

impl ExitResult {
    /// A termination record; the exit code is zero exactly when the session
    /// really ends.
    pub fn new(should_exit: bool, message: String) -> (r: ExitResult)
        ensures
            r.should_exit == should_exit,
            r.message@ == message@,
            r.exit_code == (if should_exit {
                0int
            } else {
                1int
            }),
    {
        let exit_code: i32 = if should_exit {
            0
        } else {
            1
        };
        ExitResult { should_exit, message, exit_code }
    }

    /// The same record with the exit code replaced.
    pub fn with_exit_code(self, exit_code: i32) -> (r: ExitResult)
        ensures
            r.should_exit == self.should_exit,
            r.message@ == self.message@,
            r.exit_code == exit_code,
    {
        ExitResult { exit_code, ..self }
    }
}

/// A description of the exit builtin for help displays.
#[derive(Debug, Clone)]
pub struct ExitCommandInfo {
    pub name: String,
    pub aliases: Vec<String>,
    pub description: String,
    pub usage: String,
    pub help_text: String,
}

impl ExitCommandInfo {
    pub fn new() -> (r: ExitCommandInfo)
        ensures
            r.name@ == "exit"@,
            r.aliases@.len() == 1 && r.aliases@[0]@ == "quit"@,
            r.description@ == "Cierra la aplicación Termirust"@,
            r.usage@ == "exit [--help]"@,
            r.help_text@ == "Comando para cerrar la aplicación"@,
    {
        let mut aliases: Vec<String> = Vec::new();
        aliases.push(String::from_str("quit"));
        ExitCommandInfo {
            name: String::from_str("exit"),
            aliases,
            description: String::from_str("Cierra la aplicación Termirust"),
            usage: String::from_str("exit [--help]"),
            help_text: String::from_str("Comando para cerrar la aplicación"),
        }
    }

    /// The long help text as it stands.
    pub fn get_formatted_help(&self) -> (r: String)
        ensures
            r@ == self.help_text@,
    {
        self.help_text.clone()
    }
}

} // verus!
