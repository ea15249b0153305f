//! A logger: it composes the lines; printing them is the caller's.
//!
//! A line starts with the colour of its level, names the level and ends by
//! switching back to white.

use vstd::prelude::*;
use vstd::string::StringExecFns;

verus! {

/// Log Level definition
#[derive(Debug, Clone, Copy, PartialEq, Eq, Structural)]
pub enum LogLevel {
    Fatal,
    Error,
    Warn,
    Info,
    Debug,
    Trace,
}

/// The escape sequence that switches the terminal to the colour of a level:
/// red for failures, yellow for warnings, white for the rest.
pub open spec fn color_of(log_level: LogLevel) -> Seq<char> {
    match log_level {
        LogLevel::Fatal | LogLevel::Error => "\x1b[1;31m"@,
        LogLevel::Warn => "\x1b[1;33m"@,
        LogLevel::Info | LogLevel::Debug | LogLevel::Trace => "\x1b[1;37m"@,
    }
}

/// The tag that names a level.
pub open spec fn code_of(log_level: LogLevel) -> Seq<char> {
    match log_level {
        LogLevel::Fatal => "[FATAL]"@,
        LogLevel::Error => "[ERROR]"@,
        LogLevel::Warn => "[WARN]"@,
        LogLevel::Info => "[INFO]"@,
        LogLevel::Debug => "[DEBUG]"@,
        LogLevel::Trace => "[TRACE]"@,
    }
}

/// What is printed for one message: colour, tag, a colon, the message, an
/// empty line, and the switch back to white on a line of its own.
pub open spec fn entry_of(color: Seq<char>, code: Seq<char>, message: Seq<char>) -> Seq<char> {
    color + code + ": "@ + message + "\n\n"@ + "\x1b[1;37m\n"@
}

/// What is printed for a message at a level.
pub open spec fn line_of(log_level: LogLevel, message: Seq<char>) -> Seq<char> {
    entry_of(color_of(log_level), code_of(log_level), message)
}

/// Logger: composes what is printed for one message.
pub fn log(color: &str, code: &str, message: String) -> (text: String)
    ensures
        text@ == entry_of(color@, code@, message@),
{
    let mut text = String::from_str(color);
    text.append(code);
    text.append(": ");
    text.append(message.as_str());
    text.append("\n\n");
    text.append("\x1b[1;37m\n");
    text
}

/// Output handler: what is printed for a message at a level.
pub fn log_output(log_level: LogLevel, message: String) -> (text: String)
    ensures
        text@ == line_of(log_level, message@),
{
    match log_level {
        LogLevel::Fatal => log("\x1b[1;31m", "[FATAL]", message),
        LogLevel::Error => log("\x1b[1;31m", "[ERROR]", message),
        LogLevel::Warn => log("\x1b[1;33m", "[WARN]", message),
        LogLevel::Info => log("\x1b[1;37m", "[INFO]", message),
        LogLevel::Debug => log("\x1b[1;37m", "[DEBUG]", message),
        LogLevel::Trace => log("\x1b[1;37m", "[TRACE]", message),
    }
}

/// The line for a failure that ends the program.
pub fn fatal(message: String) -> (text: String)
    ensures
        text@ == line_of(LogLevel::Fatal, message@),
{
    log_output(LogLevel::Fatal, message)
}

/// The line for a failure.
pub fn error(message: String) -> (text: String)
    ensures
        text@ == line_of(LogLevel::Error, message@),
{
    log_output(LogLevel::Error, message)
}

/// The line for a warning.
pub fn warn(message: String) -> (text: String)
    ensures
        text@ == line_of(LogLevel::Warn, message@),
{
    log_output(LogLevel::Warn, message)
}

/// The line for a piece of information.
pub fn info(message: String) -> (text: String)
    ensures
        text@ == line_of(LogLevel::Info, message@),
{
    log_output(LogLevel::Info, message)
}

/// The line for a message to whoever debugs.
pub fn debug(message: String) -> (text: String)
    ensures
        text@ == line_of(LogLevel::Debug, message@),
{
    log_output(LogLevel::Debug, message)
}

/// The line for a trace of what the program does.
pub fn trace(message: String) -> (text: String)
    ensures
        text@ == line_of(LogLevel::Trace, message@),
{
    log_output(LogLevel::Trace, message)
}

/// Start logging with examples: one line of each level, from the gravest
/// down.
pub fn initialize_logging() -> (lines: Vec<String>)
    ensures
        lines@.len() == 6,
        lines@[0]@ == line_of(LogLevel::Fatal, "Fatal example"@),
        lines@[1]@ == line_of(LogLevel::Error, "Error example"@),
        lines@[2]@ == line_of(LogLevel::Warn, "Warning example"@),
        lines@[3]@ == line_of(LogLevel::Info, "Info example"@),
        lines@[4]@ == line_of(LogLevel::Debug, "Debug example"@),
        lines@[5]@ == line_of(LogLevel::Trace, "Trace example"@),
{
    let mut lines: Vec<String> = Vec::new();
    lines.push(fatal(String::from_str("Fatal example")));
    lines.push(error(String::from_str("Error example")));
    lines.push(warn(String::from_str("Warning example")));
    lines.push(info(String::from_str("Info example")));
    lines.push(debug(String::from_str("Debug example")));
    lines.push(trace(String::from_str("Trace example")));
    lines
}

/// Ends logging. The logger holds nothing that would have to be released.
pub fn shutdown() {
}

} // verus!
