//! The event log: the lines that tell what a job did.

use vstd::prelude::*;
use vstd::string::*;
use crate::compile_task::CompileTaskStep;
use crate::step::ExportStep;
use crate::text::{concat3, decimal, decimal_string};

verus! {

/// An entry of the event log of exports. `timestamp` counts seconds since
/// the Unix epoch.
#[derive(Debug, PartialEq, Eq)]
pub struct ExportLog {
    pub id: i64,
    pub export_id: i64,
    pub step: ExportStep,
    pub message: String,
    pub timestamp: i64,
}

/// An entry of the event log of compile tasks. `timestamp` counts seconds
/// since the Unix epoch.
#[derive(Debug, PartialEq, Eq)]
pub struct TaskLog {
    pub id: i64,
    pub task_id: i64,
    pub step: CompileTaskStep,
    pub message: String,
    pub timestamp: i64,
}

/// A line of a log: the time in square brackets, then whose entry it is,
/// the step, and the message.
pub open spec fn log_line(
    time: Seq<char>,
    subject: Seq<char>,
    id: int,
    step: Seq<char>,
    message: Seq<char>,
) -> Seq<char> {
    "["@ + time + "] "@ + subject + " "@ + decimal(id) + ", step "@ + step + ", message "@
        + message
}

fn write_line(time: &str, subject: &str, id: i64, step: &str, message: &str) -> (line: String)
    ensures
        line@ == log_line(time@, subject@, id as int, step@, message@),
{
    let id_text = decimal_string(id);
    let mut line = concat3("[", time, "] ");
    line.append(subject);
    line.append(" ");
    line.append(id_text.as_str());
    line.append(", step ");
    line.append(step);
    line.append(", message ");
    line.append(message);
    line
}

/// The line that is printed when a step of an export is logged at the
/// time that `time` writes out.
pub fn export_log_line(time: &str, export_id: i64, step: ExportStep, message: &str) -> (line:
    String)
    ensures
        line@ == log_line(time@, "export"@, export_id as int, step.label_text(), message@),
{
    let label = step.label();
    write_line(time, "export", export_id, label.as_str(), message)
}

/// The line that is printed when a step of a compile task is logged at the
/// time that `time` writes out.
pub fn task_log_line(time: &str, task_id: i64, step: CompileTaskStep, message: &str) -> (line:
    String)
    ensures
        line@ == log_line(time@, "task"@, task_id as int, step.label_text(), message@),
{
    let label = step.label();
    write_line(time, "task", task_id, label.as_str(), message)
}

impl ExportLog {
    /// This entry as a line, with its time written out as `time`.
    pub fn line(&self, time: &str) -> (line: String)
        ensures
            line@ == log_line(
                time@,
                "export"@,
                self.export_id as int,
                self.step.label_text(),
                self.message@,
            ),
    {
        export_log_line(time, self.export_id, self.step, self.message.as_str())
    }
}

} // verus!
