//! Fixed wording: welcome lines, error prefixes, debug notes, the prompt,
//! and the system indicator labels.
use vstd::prelude::*;
use crate::text::{u64_to_string, dec_str, spec_starts_with, starts_with_str};

verus! {

/// The greeting shown when a session opens.
pub struct WelcomeMessages;

impl WelcomeMessages {
    pub fn main_welcome() -> (r: String)
        ensures
            r@ == "Bienvenido a Termirust - Terminal Matrix"@,
    {
        String::from_str("Bienvenido a Termirust - Terminal Matrix")
    }

    pub fn usage_instructions() -> (r: String)
        ensures
            r@ == "Escribe comandos y presiona ENTER para ejecutarlos"@,
    {
        String::from_str("Escribe comandos y presiona ENTER para ejecutarlos")
    }

    pub fn empty_line() -> (r: String)
        ensures
            r@ == Seq::<char>::empty(),
    {
        String::new()
    }

    /// The welcome block, in display order.
    pub fn all_welcome_messages() -> (r: Vec<String>)
        ensures
            r@.len() == 3,
            r@[0]@ == "Bienvenido a Termirust - Terminal Matrix"@,
            r@[1]@ == "Escribe comandos y presiona ENTER para ejecutarlos"@,
            r@[2]@ == Seq::<char>::empty(),
    {
        let mut r: Vec<String> = Vec::new();
        r.push(Self::main_welcome());
        r.push(Self::usage_instructions());
        r.push(Self::empty_line());
        r
    }
}

/// Error wording shared by the pipeline.
pub struct ErrorMessages;

impl ErrorMessages {
    /// An error with the standard prefix.
    pub fn format_error(error: &str) -> (r: String)
        ensures
            r@ == "Error: "@ + error@,
    {
        let mut r = String::from_str("Error: ");
        r.append(error);
        r
    }

    /// The message for a command the host could not find.
    pub fn format_command_not_found(command_name: &str) -> (r: String)
        ensures
            r@ == "Error: El comando '"@ + command_name@ + "' no se pudo encontrar"@,
    {
        let mut r = String::from_str("Error: El comando '");
        r.append(command_name);
        r.append("' no se pudo encontrar");
        r
    }

    /// The prefix every error line starts with.
    pub fn error_prefix() -> (r: &'static str)
        ensures
            r@ == "Error:"@,
    {
        "Error:"
    }

    /// Whether a line is an error line.
    pub fn is_error_message(line: &str) -> (r: bool)
        ensures
            r == spec_starts_with(line@, "Error:"@),
    {
        starts_with_str(line, "Error:")
    }
}

/// Debug wording for the input layer.
pub struct DebugMessages;

impl DebugMessages {
    /// The buffer and the cursor, for tracing.
    pub fn format_buffer_debug(command_buffer: &str, cursor_position: usize) -> (r: String)
        ensures
            r@ == "[DEBUG] Buffer: '"@ + command_buffer@ + "' ("@ + dec_str(
                command_buffer@.len(),
            ) + " chars, cursor at "@ + dec_str(cursor_position as nat) + ")"@,
    {
        let mut r = String::from_str("[DEBUG] Buffer: '");
        r.append(command_buffer);
        r.append("' (");
        r.append(u64_to_string(command_buffer.unicode_len() as u64).as_str());
        r.append(" chars, cursor at ");
        r.append(u64_to_string(cursor_position as u64).as_str());
        r.append(")");
        r
    }

    /// The prefix every debug line starts with.
    pub fn debug_prefix() -> (r: &'static str)
        ensures
            r@ == "[DEBUG]"@,
    {
        "[DEBUG]"
    }

    /// Whether a line is a debug line.
    pub fn is_debug_message(line: &str) -> (r: bool)
        ensures
            r == spec_starts_with(line@, "[DEBUG]"@),
    {
        starts_with_str(line, "[DEBUG]")
    }

    /// A debug note with the standard prefix.
    pub fn format_generic_debug(message: &str) -> (r: String)
        ensures
            r@ == "[DEBUG] "@ + message@,
    {
        let mut r = String::from_str("[DEBUG] ");
        r.append(message);
        r
    }
}

/// The prompt line: the directory the host reports, a fixed tail, and the
/// buffer being edited.
pub struct PromptText;

impl PromptText {
    /// The prompt for a directory.
    pub fn generate_prompt(current_dir: &str) -> (r: String)
        ensures
            r@ == current_dir@ + ":~$ "@,
    {
        let mut r = current_dir.to_owned();
        r.append(":~$ ");
        r
    }

    /// The prompt with the buffer after it.
    pub fn format_full_prompt(current_dir: &str, command_buffer: &str) -> (r: String)
        ensures
            r@ == current_dir@ + ":~$ "@ + command_buffer@,
    {
        let mut r = Self::generate_prompt(current_dir);
        r.append(command_buffer);
        r
    }

    /// The prompt alone.
    pub fn get_prompt_only(current_dir: &str) -> (r: String)
        ensures
            r@ == current_dir@ + ":~$ "@,
    {
        Self::generate_prompt(current_dir)
    }
}

/// Labels for the resource readouts. The percentages are in tenths of a
/// percent, so one decimal is rendered.
pub struct SystemIndicators;

impl SystemIndicators {
    /// The memory readout.
    pub fn format_memory_usage(usage_tenths: u64) -> (r: String)
        ensures
            r@ == "💾 RAM: "@ + dec_str((usage_tenths / 10) as nat) + "."@ + dec_str(
                (usage_tenths % 10) as nat,
            ) + "%"@,
    {
        let mut r = String::from_str("💾 RAM: ");
        r.append(u64_to_string(usage_tenths / 10).as_str());
        r.append(".");
        r.append(u64_to_string(usage_tenths % 10).as_str());
        r.append("%");
        r
    }

    /// The processor readout.
    pub fn format_cpu_usage(usage_tenths: u64) -> (r: String)
        ensures
            r@ == "⚡ CPU: "@ + dec_str((usage_tenths / 10) as nat) + "."@ + dec_str(
                (usage_tenths % 10) as nat,
            ) + "%"@,
    {
        let mut r = String::from_str("⚡ CPU: ");
        r.append(u64_to_string(usage_tenths / 10).as_str());
        r.append(".");
        r.append(u64_to_string(usage_tenths % 10).as_str());
        r.append("%");
        r
    }

    /// The network readout, both directions in whole megabytes.
    pub fn format_network_usage(received_mb: u64, transmitted_mb: u64) -> (r: String)
        ensures
            r@ == "🌐 NET: ↓"@ + dec_str(received_mb as nat) + "MB ↑"@ + dec_str(
                transmitted_mb as nat,
            ) + "MB"@,
    {
        let mut r = String::from_str("🌐 NET: ↓");
        r.append(u64_to_string(received_mb).as_str());
        r.append("MB ↑");
        r.append(u64_to_string(transmitted_mb).as_str());
        r.append("MB");
        r
    }

    /// Whole megabytes for a byte count, truncated.
    pub fn bytes_to_mb(bytes: u64) -> (r: u64)
        ensures
            r == bytes / 1048576,
    {
        bytes / 1048576
    }

    /// The severity band of a memory readout, in tenths of a percent.
    pub fn get_memory_color(usage_tenths: u64) -> (r: &'static str)
        ensures
            usage_tenths > 800 ==> r@ == "high"@,
            600 < usage_tenths <= 800 ==> r@ == "medium"@,
            usage_tenths <= 600 ==> r@ == "low"@,
    {
        if usage_tenths > 800 {
            "high"
        } else if usage_tenths > 600 {
            "medium"
        } else {
            "low"
        }
    }

    /// The severity band of a processor readout, in tenths of a percent.
    pub fn get_cpu_color(usage_tenths: u64) -> (r: &'static str)
        ensures
            usage_tenths > 800 ==> r@ == "high"@,
            600 < usage_tenths <= 800 ==> r@ == "medium"@,
            usage_tenths <= 600 ==> r@ == "low"@,
    {
        if usage_tenths > 800 {
            "high"
        } else if usage_tenths > 600 {
            "medium"
        } else {
            "low"
        }
    }

    /// The colour of the network readout.
    pub fn get_network_color() -> (r: &'static str)
        ensures
            r@ == "blue"@,
    {
        "blue"
    }
}

} // verus!
