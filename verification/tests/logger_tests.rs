use chrono::Utc;
use simple_performance_dashboard::clock::Timestamp;
use simple_performance_dashboard::logger::{AppLogger, LogEntry, LogLevel};

const LOG_FILE: &str = "simple_performance_dashboard.log";

fn last(logger: &AppLogger) -> (LogLevel, String) {
    let entry = logger.entries.last().expect("an entry was logged");
    (entry.level, entry.message.clone())
}

#[test]
fn test_app_logger_creation() {
    let logger = AppLogger::new(LOG_FILE);

    assert!(!logger.log_file_path.is_empty());
    assert_eq!(logger.log_file_path, LOG_FILE);
    assert_eq!(logger.entries.len(), 1);
    assert_eq!(
        last(&logger),
        (LogLevel::Info, "=== Simple Performance Dashboard Session Started ===".to_string())
    );
}

#[test]
fn test_log_info() {
    let mut logger = AppLogger::new(LOG_FILE);
    logger.log_info("Test info message");
    assert_eq!(logger.entries.len(), 2);
    assert_eq!(last(&logger), (LogLevel::Info, "Test info message".to_string()));
}

#[test]
fn test_log_warning() {
    let mut logger = AppLogger::new(LOG_FILE);
    logger.log_warning("Test warning message");
    assert_eq!(last(&logger), (LogLevel::Warn, "Test warning message".to_string()));
}

#[test]
fn test_log_error() {
    let mut logger = AppLogger::new(LOG_FILE);
    let test_error = std::io::Error::new(std::io::ErrorKind::NotFound, "Test error");
    logger.log_error("Test error context", &test_error.to_string());
    assert_eq!(last(&logger), (LogLevel::Error, "Test error context: Test error".to_string()));
}

#[test]
fn test_log_sensor_error() {
    let mut logger = AppLogger::new(LOG_FILE);
    let test_error = std::io::Error::new(std::io::ErrorKind::PermissionDenied, "Access denied");
    logger.log_sensor_error("CPU Temperature", &test_error.to_string());
    assert_eq!(
        last(&logger),
        (LogLevel::Error, "Sensor error - CPU Temperature: Access denied".to_string())
    );
}

#[test]
fn test_log_sensor_unavailable() {
    let mut logger = AppLogger::new(LOG_FILE);
    logger.log_sensor_unavailable("GPU Clock Speed");
    assert_eq!(last(&logger), (LogLevel::Warn, "Sensor unavailable: GPU Clock Speed".to_string()));
}

#[test]
fn test_log_hardware_polling_error() {
    let mut logger = AppLogger::new(LOG_FILE);
    let test_error = std::io::Error::new(std::io::ErrorKind::TimedOut, "Polling timeout");
    logger.log_hardware_polling_error(&test_error.to_string());
    assert_eq!(
        last(&logger),
        (LogLevel::Error, "Hardware polling error: Polling timeout".to_string())
    );
}

#[test]
fn log_lines_carry_time_level_and_message() {
    let entry = LogEntry {
        time: Timestamp::new(1_672_531_200, 0).unwrap(),
        level: LogLevel::Warn,
        message: "fan stalled".to_string(),
    };
    assert_eq!(entry.format_line("2023-01-01 00:00:00"), "2023-01-01 00:00:00 [WARN] fan stalled");
    assert_eq!(LogLevel::Info.label(), "INFO");
    assert_eq!(LogLevel::Error.label(), "ERROR");
}

#[test]
fn taking_entries_empties_the_log_and_keeps_their_order() {
    let mut logger = AppLogger::new(LOG_FILE);
    logger.log_info("first");
    logger.log_warning("second");
    let taken = logger.take_entries();
    assert_eq!(taken.len(), 3);
    assert_eq!(taken[1].message, "first");
    assert_eq!(taken[2].message, "second");
    assert!(logger.entries.is_empty());
    assert_eq!(logger.log_file_path, LOG_FILE);
}

#[test]
fn entries_carry_the_time_of_logging() {
    let before = Utc::now();
    let mut logger = AppLogger::new(LOG_FILE);
    logger.log_info("first");
    logger.log_warning("second");
    let after = Utc::now();
    let mut earlier = (before.timestamp(), before.timestamp_subsec_nanos());
    for entry in &logger.entries {
        let logged = (entry.time.secs(), entry.time.subsec_nanos());
        assert!(earlier <= logged);
        earlier = logged;
    }
    assert!(earlier <= (after.timestamp(), after.timestamp_subsec_nanos()));
}
