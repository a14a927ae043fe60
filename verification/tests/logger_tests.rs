use std::cell::RefCell;
use tapi::logger::{ConsoleLogger, ProgressLogger};

struct Recorder {
    lines: RefCell<Vec<String>>,
}

impl ProgressLogger for Recorder {
    fn log(&self, message: String) {
        self.lines.borrow_mut().push(message);
    }

    fn progress(&self, current: usize, total: usize, message: String) {
        self.lines.borrow_mut().push(ConsoleLogger::progress_text(current, total, &message));
    }
}

fn report(logger: &impl ProgressLogger) {
    logger.log("start".to_string());
    logger.progress(3, 12, "Processing".to_string());
}

#[test]
fn progress_line() {
    assert_eq!(ConsoleLogger::progress_text(1, 34, "Processing 1/34"), "[1/34] Processing 1/34");
    assert_eq!(ConsoleLogger::progress_text(0, 0, ""), "[0/0] ");
}

#[test]
fn loggers_take_messages() {
    let recorder = Recorder { lines: RefCell::new(Vec::new()) };
    report(&recorder);
    assert_eq!(*recorder.lines.borrow(), vec!["start", "[3/12] Processing"]);
    report(&ConsoleLogger);
}
