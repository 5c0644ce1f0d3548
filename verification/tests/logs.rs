//! The service log.

use cloudfolder::clock::{
    current_millis, current_nanos, current_seconds, epoch_millis, epoch_nanos, epoch_seconds,
};
use cloudfolder::logger::{
    log_line, rotated_path, LocalMoment, LogLevel, Logger, RotationStep,
};
use std::collections::BTreeMap;
use std::time::{Duration, UNIX_EPOCH};

fn apply(files: &mut BTreeMap<String, &'static str>, steps: &[RotationStep]) {
    for step in steps {
        match step {
            RotationStep::Remove { path } => {
                files.remove(path);
            }
            RotationStep::Move { from, to } => {
                if let Some(contents) = files.remove(from) {
                    files.insert(to.clone(), contents);
                }
            }
        }
    }
}

fn moment(secs: i64, nanos: u32, offset_secs: i32) -> LocalMoment {
    LocalMoment { secs, nanos, offset_secs }
}

#[test]
fn lines_carry_time_level_and_message() {
    assert_eq!(log_line("T", LogLevel::Warn, "careful"), "T [WARN] careful\r\n");
    let logger = Logger::new("x.log", 5, 0);
    let at = moment(1_772_600_767, 89_999_999, 3600);
    assert_eq!(
        logger.info(at, "hello").unwrap(),
        "2026-03-04T06:06:07.089+01:00 [INFO] hello\r\n"
    );
    assert_eq!(
        logger.warn(at, "hello").unwrap(),
        "2026-03-04T06:06:07.089+01:00 [WARN] hello\r\n"
    );
    assert_eq!(
        logger.error(at, "hello").unwrap(),
        "2026-03-04T06:06:07.089+01:00 [ERROR] hello\r\n"
    );
    let line = logger.write(moment(0, 0, -34_200), LogLevel::Info, "hello").unwrap();
    assert_eq!(line, "1969-12-31T14:30:00.000-09:30 [INFO] hello\r\n");
    assert_eq!(line.lines().collect::<Vec<_>>(), [line.trim_end()]);
}

#[test]
fn only_moments_of_the_calendar_are_written() {
    let logger = Logger::new("x.log", 5, 0);
    let first = moment(-8_334_601_228_800, 0, 0);
    let last = moment(8_210_266_876_799, 999_999_999, 0);
    assert_eq!(
        logger.info(first, "m").unwrap(),
        "-262143-01-01T00:00:00.000+00:00 [INFO] m\r\n"
    );
    assert_eq!(
        logger.info(last, "m").unwrap(),
        "+262142-12-31T23:59:59.999+00:00 [INFO] m\r\n"
    );
    assert!(logger.info(LocalMoment { offset_secs: -86_399, ..first }, "m").is_some());
    assert!(logger.info(LocalMoment { offset_secs: 86_399, ..last }, "m").is_some());
    assert!(logger.info(LocalMoment { secs: first.secs - 1, ..first }, "m").is_none());
    assert!(logger.info(LocalMoment { secs: last.secs + 1, ..last }, "m").is_none());
    assert!(logger.info(moment(i64::MIN, 0, 0), "m").is_none());
    assert!(logger.info(moment(i64::MAX, 0, 0), "m").is_none());
    assert!(logger.info(moment(0, 1_000_000_000, 0), "m").is_none());
    assert!(logger.info(moment(59, 2_000_000_000, 0), "m").is_none());
    assert_eq!(
        logger.info(moment(59, 1_999_999_999, 0), "m").unwrap(),
        "1970-01-01T00:00:60.999+00:00 [INFO] m\r\n"
    );
    assert!(logger.info(moment(0, 0, 86_400), "m").is_none());
    assert!(logger.info(moment(0, 0, -86_400), "m").is_none());
    assert_eq!(
        logger.info(moment(0, 0, 86_399), "m").unwrap(),
        "1970-01-01T23:59:59.000+24:00 [INFO] m\r\n"
    );
}

#[test]
fn logs_are_put_aside_when_they_are_large() {
    let logger = Logger::new("x.log", 5, 0);
    assert_eq!(logger.path(), "x.log");
    assert!(!logger.should_rotate(None));
    assert!(!logger.should_rotate(Some(1_048_575)));
    assert!(logger.should_rotate(Some(1_048_576)));
    let large = Logger::new("x.log", 2_000_000, 3).clone();
    assert!(!large.should_rotate(Some(1_999_999)));
    assert!(large.should_rotate(Some(2_000_000)));
}

#[test]
fn putting_a_log_aside_ages_the_older_files() {
    let mut files = BTreeMap::from([
        ("x.log".to_string(), "now"),
        ("x.log.1".to_string(), "one"),
        ("x.log.3".to_string(), "three"),
        ("y.log".to_string(), "other"),
    ]);
    let logger = Logger::new("x.log", 0, 3);
    apply(&mut files, &logger.rotation_steps());
    assert_eq!(
        files,
        BTreeMap::from([
            ("x.log.1".to_string(), "now"),
            ("x.log.2".to_string(), "one"),
            ("y.log".to_string(), "other"),
        ])
    );
    assert_eq!(rotated_path("x.log", 12), "x.log.12");
    let single = Logger::new("x.log", 0, 0).rotation_steps();
    assert_eq!(
        single,
        vec![
            RotationStep::Remove { path: "x.log.1".to_string() },
            RotationStep::Move { from: "x.log".to_string(), to: "x.log.1".to_string() },
        ]
    );
}

#[test]
fn the_last_log_has_a_place_of_its_own() {
    assert_eq!(Logger::fallback(true).path(), r"C:\ProgramData\CloudFolder\fatal.log");
    let logger = Logger::fallback(false);
    assert_eq!(logger.path(), "CloudFolderService-fatal.log");
    assert!(!logger.should_rotate(Some(10_485_759)));
    assert!(logger.should_rotate(Some(10_485_760)));
    assert_eq!(logger.rotation_steps().len(), 3);
}

#[test]
fn the_clock_is_read() {
    assert!(current_millis() < 1000);
    assert!(current_seconds() > 1_600_000_000);
    assert_ne!(current_nanos(), 0);
}

#[test]
fn moments_are_counted_from_the_epoch() {
    let moment = UNIX_EPOCH + Duration::new(1_700_000_000, 123_456_789);
    assert_eq!(epoch_millis(moment), 123);
    assert_eq!(epoch_nanos(moment), 1_700_000_000_123_456_789);
    assert_eq!(epoch_seconds(moment), 1_700_000_000);
    let wrapped = UNIX_EPOCH + Duration::new(18_446_744_074, 0);
    assert_eq!(epoch_nanos(wrapped), 290_448_384);
    let earlier = UNIX_EPOCH - Duration::from_secs(1);
    assert_eq!(epoch_millis(earlier), 0);
    assert_eq!(epoch_nanos(earlier), 0);
    assert_eq!(epoch_seconds(earlier), 0);
}
