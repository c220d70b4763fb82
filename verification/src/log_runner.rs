//! What a log task logs.

use crate::config::{SpecTask, Task};
use crate::text::{replace_placeholders, substitute_all};
use vstd::prelude::*;

verus! {

/// The line that a task logs for its variable number `index`: the template
/// with every `%s` replaced by the variable.
pub open spec fn interpolated(task: SpecTask, index: int) -> Seq<char>
    recommends
        0 <= index < task.vars.len(),
{
    substitute_all(task.template, 's', task.vars[index], 0)
}

/// The line that `task` logs for its variable number `index`.
pub fn interpolate(task: &Task, index: usize) -> (line: String)
    requires
        index < task.vars.len(),
    ensures
        line@ == interpolated(task.deep_view(), index as int),
{
    replace_placeholders(task.template.as_str(), 's', task.vars[index].as_str())
}

/// The variable that a task logs after its variable number `index`: the
/// next one, and after the last one the first.
pub fn next_index(task: &Task, index: usize) -> (next: usize)
    requires
        index < task.vars.len(),
    ensures
        next == if index + 1 < task.vars.len() {
            index + 1
        } else {
            0
        },
{
    if index + 1 < task.vars.len() {
        index + 1
    } else {
        0
    }
}

} // verus!
