//! The session log: entries with a level and a text, kept in order until the
//! process writes them out.

use vstd::prelude::*;
use vstd::string::StringExecFns;
use crate::clock::Timestamp;

verus! {

/// How serious an entry is.
#[derive(Debug, Clone, Copy, PartialEq, Eq, Structural)]
pub enum LogLevel {
    Info,
    Warn,
    Error,
}

impl LogLevel {
    /// The tag of the level in a written line.
    pub open spec fn label_text(self) -> Seq<char> {
        match self {
            LogLevel::Info => "INFO"@,
            LogLevel::Warn => "WARN"@,
            LogLevel::Error => "ERROR"@,
        }
    }

    /// The tag of the level in a written line.
    pub fn label(self) -> (tag: &'static str)
        ensures
            tag@ == self.label_text(),
    {
        match self {
            LogLevel::Info => "INFO",
            LogLevel::Warn => "WARN",
            LogLevel::Error => "ERROR",
        }
    }
}

/// One entry of the log.
#[derive(Debug, Clone)]
pub struct LogEntry {
    /// When the entry was logged.
    pub time: Timestamp,
    pub level: LogLevel,
    pub message: String,
}

impl LogEntry {
    /// The line that is written for the entry with its time given as text:
    /// the time, the level's tag in square brackets, and the message.
    pub open spec fn line_text(&self, time: Seq<char>) -> Seq<char> {
        time + " ["@ + self.level.label_text() + "] "@ + self.message@
    }

    /// The line that is written for the entry.
    pub fn format_line(&self, time: &str) -> (line: String)
        ensures
            line@ == self.line_text(time@),
    {
        String::from_str(time).concat(" [").concat(self.level.label()).concat("] ").concat(
            self.message.as_str(),
        )
    }
}

/// What a log holds, as mathematical values: the level and the message of
/// each entry, oldest first.
pub type LogRecords = Seq<(LogLevel, Seq<char>)>;

/// The first message of every session.
pub open spec fn session_banner() -> Seq<char> {
    "=== Simple Performance Dashboard Session Started ==="@
}

/// The message of an error in a context.
pub open spec fn error_message(context: Seq<char>, error: Seq<char>) -> Seq<char> {
    context + ": "@ + error
}

/// The message of an error of a sensor.
pub open spec fn sensor_error_message(sensor_name: Seq<char>, error: Seq<char>) -> Seq<char> {
    "Sensor error - "@ + sensor_name + ": "@ + error
}

/// The message for a sensor that is not there.
pub open spec fn sensor_unavailable_message(sensor_name: Seq<char>) -> Seq<char> {
    "Sensor unavailable: "@ + sensor_name
}

/// The message of an error of a polling cycle.
pub open spec fn polling_error_message(error: Seq<char>) -> Seq<char> {
    "Hardware polling error: "@ + error
}

/// The log of a session. Each entry is stamped with the time at which it is
/// logged. Entries wait in `entries`, oldest first, until
/// [`AppLogger::take_entries`] hands them to whoever writes the file at
/// `log_file_path`.
#[derive(Debug)]
pub struct AppLogger {
    pub log_file_path: String,
    pub entries: Vec<LogEntry>,
}

impl AppLogger {
    /// The waiting entries, each as its level and its message.
    pub open spec fn records(&self) -> Seq<(LogLevel, Seq<char>)> {
        Seq::new(self.entries@.len(), |i: int| (self.entries@[i].level, self.entries@[i].message@))
    }

    /// A log for the file at `log_file_path`, holding the session banner.
    pub fn new(log_file_path: &str) -> (logger: Self)
        ensures
            logger.log_file_path@ == log_file_path@,
            logger.records() == seq![(LogLevel::Info, session_banner())],
    {
        let mut entries: Vec<LogEntry> = Vec::new();
        entries.push(
            LogEntry {
                time: Timestamp::now(),
                level: LogLevel::Info,
                message: String::from_str("=== Simple Performance Dashboard Session Started ==="),
            },
        );
        let logger = AppLogger { log_file_path: String::from_str(log_file_path), entries };
        proof {
            assert(logger.records() =~= seq![(LogLevel::Info, session_banner())]);
        }
        logger
    }

    /// Appends an entry, logged now.
    fn append(&mut self, level: LogLevel, message: String)
        ensures
            final(self).records() == old(self).records().push((level, message@)),
            final(self).log_file_path == old(self).log_file_path,
    {
        self.entries.push(LogEntry { time: Timestamp::now(), level, message });
        proof {
            assert(self.records() =~= old(self).records().push((level, message@)));
        }
    }

    /// Logs `message` as information.
    pub fn log_info(&mut self, message: &str)
        ensures
            final(self).records() == old(self).records().push((LogLevel::Info, message@)),
            final(self).log_file_path == old(self).log_file_path,
    {
        self.append(LogLevel::Info, String::from_str(message));
    }

    /// Logs `message` as a warning.
    pub fn log_warning(&mut self, message: &str)
        ensures
            final(self).records() == old(self).records().push((LogLevel::Warn, message@)),
            final(self).log_file_path == old(self).log_file_path,
    {
        self.append(LogLevel::Warn, String::from_str(message));
    }

    /// Logs an error, given as text, with the context in which it arose.
    pub fn log_error(&mut self, context: &str, error: &str)
        ensures
            final(self).records() == old(self).records().push(
                (LogLevel::Error, error_message(context@, error@)),
            ),
            final(self).log_file_path == old(self).log_file_path,
    {
        let message = String::from_str(context).concat(": ").concat(error);
        self.append(LogLevel::Error, message);
    }

    /// Logs an error of the sensor `sensor_name`.
    pub fn log_sensor_error(&mut self, sensor_name: &str, error: &str)
        ensures
            final(self).records() == old(self).records().push(
                (LogLevel::Error, sensor_error_message(sensor_name@, error@)),
            ),
            final(self).log_file_path == old(self).log_file_path,
    {
        let message = String::from_str("Sensor error - ").concat(sensor_name).concat(": ").concat(
            error,
        );
        self.append(LogLevel::Error, message);
    }

    /// Logs, as a warning, that the sensor `sensor_name` is not there.
    pub fn log_sensor_unavailable(&mut self, sensor_name: &str)
        ensures
            final(self).records() == old(self).records().push(
                (LogLevel::Warn, sensor_unavailable_message(sensor_name@)),
            ),
            final(self).log_file_path == old(self).log_file_path,
    {
        let message = String::from_str("Sensor unavailable: ").concat(sensor_name);
        self.append(LogLevel::Warn, message);
    }

    /// Logs an error of a polling cycle.
    pub fn log_hardware_polling_error(&mut self, error: &str)
        ensures
            final(self).records() == old(self).records().push(
                (LogLevel::Error, polling_error_message(error@)),
            ),
            final(self).log_file_path == old(self).log_file_path,
    {
        let message = String::from_str("Hardware polling error: ").concat(error);
        self.append(LogLevel::Error, message);
    }

    /// Hands out the waiting entries, oldest first, and keeps none.
    pub fn take_entries(&mut self) -> (taken: Vec<LogEntry>)
        ensures
            taken@ == old(self).entries@,
            final(self).entries@.len() == 0,
            final(self).log_file_path == old(self).log_file_path,
    {
        let mut taken: Vec<LogEntry> = Vec::new();
        std::mem::swap(&mut taken, &mut self.entries);
        taken
    }
}

} // verus!
