//! Progress logging and wall-clock timing around a render pass.
//!
//! Time values and the standard-error stream are opaque here: the wrappers
//! around them are trusted, and nothing is claimed about what the clock
//! reads or what reaches the stream.

use std::io::Write;

use vstd::prelude::*;

verus! {

#[verifier::external_type_specification]
#[verifier::external_body]
pub struct ExInstant(std::time::Instant);

#[verifier::external_type_specification]
#[verifier::external_body]
pub struct ExStderr(std::io::Stderr);

/// Relies on std::time::Instant::now: a reading of the monotonic clock;
/// nothing is assumed about its value.
#[verifier::external_body]
fn instant_now() -> std::time::Instant {
    std::time::Instant::now()
}

/// Relies on std::time::Instant::elapsed: the time since the reading;
/// nothing is assumed about its value.
#[verifier::external_body]
fn instant_elapsed(instant: &std::time::Instant) -> core::time::Duration {
    instant.elapsed()
}

/// Relies on core::time::Duration::new to build the zero duration.
#[verifier::external_body]
fn duration_zero() -> core::time::Duration {
    core::time::Duration::new(0, 0)
}

/// Relies on core::time::Duration::as_secs.
#[verifier::external_body]
fn duration_secs(duration: &core::time::Duration) -> u64 {
    duration.as_secs()
}

/// Relies on core::time::Duration::subsec_micros.
#[verifier::external_body]
fn duration_subsec_micros(duration: &core::time::Duration) -> u32 {
    duration.subsec_micros()
}

/// Relies on std::io::stderr for the stream the logger writes to.
#[verifier::external_body]
fn stderr_handle() -> std::io::Stderr {
    std::io::stderr()
}

/// Relies on the writeln macro over std::io::Stderr; write errors are
/// ignored, as a failed log line must not stop a render.
#[verifier::external_body]
fn write_newline(out: &mut std::io::Stderr) {
    let _ = writeln!(out);
}

/// Relies on the write macro over std::io::Stderr; write errors are ignored.
#[verifier::external_body]
fn write_str(out: &mut std::io::Stderr, msg: &str) {
    let _ = write!(out, "{}", msg);
}

/// Relies on std::io::Write::flush for std::io::Stderr; errors are ignored.
#[verifier::external_body]
fn flush_stderr(out: &mut std::io::Stderr) {
    let _ = out.flush();
}

/// Relies on the format macro to render an elapsed time in seconds.
#[verifier::external_body]
fn format_elapsed(secs: u64, micros: u32) -> String {
    format!("elapsed {}.{:06} seconds.", secs, micros)
}

/// A writer of progress messages to standard error.
pub struct Logger {
    out: std::io::Stderr,
}

impl Logger {
    /// A logger bound to standard error.
    pub fn new() -> Logger {
        Logger { out: stderr_handle() }
    }

    /// Write a line break.
    pub fn ln(&mut self) {
        write_newline(&mut self.out);
    }

    /// Flush the stream.
    pub fn flush(&mut self) {
        flush_stderr(&mut self.out);
    }

    /// Write a message.
    pub fn msg(&mut self, msg: &str) {
        write_str(&mut self.out, msg);
    }

    /// Write how long the given timer ran.
    pub fn elapsed(&mut self, timer: &Timer) {
        let duration = timer.elapsed();
        let secs = duration_secs(&duration);
        let micros = duration_subsec_micros(&duration);
        let line = format_elapsed(secs, micros);
        self.msg(line.as_str());
    }
}

/// A stopwatch: started at construction, stopped on demand.
pub struct Timer {
    pub instant: std::time::Instant,
    pub elapsed: core::time::Duration,
}

impl Timer {
    /// Start a new stopwatch; its elapsed time reads zero until stopped.
    pub fn start() -> Timer {
        Timer { instant: instant_now(), elapsed: duration_zero() }
    }

    /// Record the time elapsed since the stopwatch was started.
    pub fn stop(&mut self)
        ensures
            final(self).instant == old(self).instant,
    {
        self.elapsed = instant_elapsed(&self.instant);
    }

    /// The recorded elapsed time.
    pub fn elapsed(&self) -> (r: core::time::Duration)
        ensures
            r == self.elapsed,
    {
        self.elapsed
    }
}

} // verus!
