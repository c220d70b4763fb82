//! Code for log tasks.
//!
//! The code of a task stores its name, its template and its variables, and
//! then logs in a loop: forever, or a given number of times with a counter
//! on the stack.

use crate::code_gen::error::{ByteCodeError, SpecByteCodeError};
use crate::code_gen::instruction::{
    stream_view, Instruction, SpecInstruction, SpecValue, StackValue,
};
use crate::config::{Count, Severity, SpecCount, SpecTask, Task};
use crate::text::{decimal, decimal_digits, join, same_text};
use vstd::prelude::*;

verus! {

/// The name of the variable that holds the variable number `index` of a
/// task.
pub open spec fn var_name(index: nat) -> Seq<char> {
    "var_"@ + decimal_digits(index)
}

/// The instruction that logs at the severity.
pub open spec fn log_instruction(severity: Severity) -> SpecInstruction {
    match severity {
        Severity::Info => SpecInstruction::Stdout,
        Severity::Error => SpecInstruction::Stderr,
    }
}

/// The code that stores the first `k` variables of a task.
pub open spec fn var_stores(vars: Seq<Seq<char>>, k: int) -> Seq<SpecInstruction>
    decreases k,
{
    if k <= 0 {
        Seq::<SpecInstruction>::empty()
    } else {
        var_stores(vars, k - 1).push(SpecInstruction::StoreVar(var_name((k - 1) as nat), vars[k - 1]))
    }
}

/// The code that logs the template once for each of the first `k` variables
/// and pauses after each line.
pub open spec fn var_prints(task: SpecTask, k: int) -> Seq<SpecInstruction>
    decreases k,
{
    if k <= 0 {
        Seq::<SpecInstruction>::empty()
    } else {
        var_prints(task, k - 1) + seq![
            SpecInstruction::LoadVar(var_name((k - 1) as nat)),
            SpecInstruction::LoadVar("template"@),
            SpecInstruction::Printf,
            log_instruction(task.severity),
            SpecInstruction::Sleep(task.frequency),
        ]
    }
}

/// The code that logs once: the template for each variable, or the template
/// as it is where the task has no variables.
pub open spec fn print_statement(task: SpecTask) -> Seq<SpecInstruction> {
    if task.vars.len() > 0 {
        var_prints(task, task.vars.len() as int)
    } else {
        seq![
            SpecInstruction::LoadVar("template"@),
            log_instruction(task.severity),
            SpecInstruction::Sleep(task.frequency),
        ]
    }
}

/// The label at the head of the loop of the task `name`.
pub open spec fn loop_label(name: Seq<char>) -> Seq<char> {
    "loop_"@ + name
}

/// The label behind the loop of the task `name`.
pub open spec fn end_label(name: Seq<char>) -> Seq<char> {
    "end_"@ + name
}

/// The code that logs forever.
pub open spec fn infinite_loop(task: SpecTask) -> Seq<SpecInstruction> {
    var_stores(task.vars, task.vars.len() as int) + seq![
        SpecInstruction::Label(loop_label(task.name)),
    ] + print_statement(task) + seq![
        SpecInstruction::Jump(loop_label(task.name)),
        SpecInstruction::Label(end_label(task.name)),
    ]
}

/// The code that logs `amount` times: a counter on the stack is tested and
/// decremented before each round and dropped at the end.
pub open spec fn counted_loop(task: SpecTask, amount: u64) -> Seq<SpecInstruction> {
    var_stores(task.vars, task.vars.len() as int) + seq![
        SpecInstruction::Push(SpecValue::Int(amount)),
        SpecInstruction::Label(loop_label(task.name)),
        SpecInstruction::Dup,
        SpecInstruction::JmpIfZero(end_label(task.name)),
        SpecInstruction::Dec,
    ] + print_statement(task) + seq![
        SpecInstruction::Jump(loop_label(task.name)),
        SpecInstruction::Label(end_label(task.name)),
        SpecInstruction::Pop,
    ]
}

/// The code of a task, or the error for a count that is a constant other
/// than `Infinite`.
pub open spec fn lower_task(task: SpecTask) -> Result<Seq<SpecInstruction>, SpecByteCodeError> {
    let head = seq![
        SpecInstruction::StoreVar("name"@, task.name),
        SpecInstruction::StoreVar("template"@, task.template),
    ];
    match task.count {
        SpecCount::Amount(amount) => Ok(head + counted_loop(task, amount)),
        SpecCount::Const(name) => if name == "Infinite"@ {
            Ok(head + infinite_loop(task))
        } else {
            Err(SpecByteCodeError::UnsupportedConst(name))
        },
    }
}

/// Appends one instruction to `code`.
fn emit(code: &mut Vec<Instruction>, instruction: Instruction)
    ensures
        stream_view(final(code)@) == stream_view(old(code)@).push(instruction@),
{
    code.push(instruction);
    proof {
        assert(stream_view(code@) =~= stream_view(old(code)@).push(instruction@));
    }
}

/// The code generator of one log task.
pub struct LogByteCodeGenerator<'a> {
    task: &'a Task,
    has_vars: bool,
}

impl<'a> LogByteCodeGenerator<'a> {
    /// The task that code is generated for.
    pub closed spec fn subject(&self) -> SpecTask {
        self.task.deep_view()
    }

    /// `has_vars` says whether the task has variables.
    #[verifier::type_invariant]
    spec fn wf(&self) -> bool {
        self.has_vars == (self.task.vars.len() > 0)
    }

    /// A generator for `task`.
    pub fn new(task: &'a Task) -> (generator: Self)
        ensures
            generator.subject() == task.deep_view(),
    {
        Self { task, has_vars: task.vars.len() > 0 }
    }

    /// Generates the code of the task.
    pub fn process_task(&self) -> (res: Result<Vec<Instruction>, ByteCodeError>)
        ensures
            match lower_task(self.subject()) {
                Ok(code) => res matches Ok(v) && stream_view(v@) == code,
                Err(e) => res matches Err(x) && x@ == e,
            },
    {
        let mut code: Vec<Instruction> = Vec::new();
        emit(&mut code, Instruction::StoreVar("name".to_owned(), self.task.name.clone()));
        emit(&mut code, Instruction::StoreVar("template".to_owned(), self.task.template.clone()));
        match &self.task.count {
            Count::Amount(_) => {
                match self.task_with_count(&mut code, self.task) {
                    Ok(_) => {},
                    Err(e) => {
                        return Err(e);
                    },
                }
            },
            Count::Const(val) => {
                if same_text(val, "Infinite") {
                    self.task_with_infinite_loop(&mut code, self.task);
                } else {
                    return Err(ByteCodeError::UnsupportedConst(val.clone()));
                }
            },
        }
        proof {
            assert(stream_view(code@) =~= lower_task(self.subject())->Ok_0);
        }
        Ok(code)
    }

    fn task_with_infinite_loop(&self, code: &mut Vec<Instruction>, task: &Task)
        requires
            task == self.task,
        ensures
            stream_view(final(code)@) == stream_view(old(code)@) + infinite_loop(task.deep_view()),
    {
        self.generate_var_store_instructions(code, task);
        emit(code, Instruction::Label(join("loop_", task.name.as_str())));
        self.generate_print_statement(code, task);
        emit(code, Instruction::Jump(join("loop_", task.name.as_str())));
        emit(code, Instruction::Label(join("end_", task.name.as_str())));
        proof {
            assert(stream_view(code@) =~= stream_view(old(code)@) + infinite_loop(
                task.deep_view(),
            ));
        }
    }

    fn task_with_count(&self, code: &mut Vec<Instruction>, task: &Task) -> (res: Result<
        (),
        ByteCodeError,
    >)
        requires
            task == self.task,
        ensures
            match task.count {
                Count::Amount(amount) => res is Ok && stream_view(final(code)@) == stream_view(
                    old(code)@,
                ) + counted_loop(task.deep_view(), amount),
                Count::Const(name) => res matches Err(e) && e@
                    == SpecByteCodeError::UnsupportedConst(name@) && final(code)@ == old(code)@,
            },
    {
        let loop_max_counter = match &task.count {
            Count::Amount(amount) => *amount,
            Count::Const(val) => {
                return Err(ByteCodeError::UnsupportedConst(val.clone()));
            },
        };
        self.generate_var_store_instructions(code, task);
        emit(code, Instruction::Push(StackValue::Int(loop_max_counter)));
        emit(code, Instruction::Label(join("loop_", task.name.as_str())));
        emit(code, Instruction::Dup);
        emit(code, Instruction::JmpIfZero(join("end_", task.name.as_str())));
        emit(code, Instruction::Dec);
        self.generate_print_statement(code, task);
        emit(code, Instruction::Jump(join("loop_", task.name.as_str())));
        emit(code, Instruction::Label(join("end_", task.name.as_str())));
        emit(code, Instruction::Pop);
        proof {
            assert(stream_view(code@) =~= stream_view(old(code)@) + counted_loop(
                task.deep_view(),
                loop_max_counter,
            ));
        }
        Ok(())
    }

    fn generate_var_store_instructions(&self, code: &mut Vec<Instruction>, task: &Task)
        ensures
            stream_view(final(code)@) == stream_view(old(code)@) + var_stores(
                task.vars.deep_view(),
                task.vars.len() as int,
            ),
    {
        let ghost vars = task.vars.deep_view();
        let ghost start = stream_view(code@);
        proof {
            assert(start + Seq::<SpecInstruction>::empty() =~= start);
        }
        let mut index: usize = 0;
        while index < task.vars.len()
            invariant
                index <= task.vars.len(),
                vars == task.vars.deep_view(),
                stream_view(code@) == start + var_stores(vars, index as int),
            decreases task.vars.len() - index,
        {
            let ghost before = var_stores(vars, index as int);
            let number = decimal(index as u64);
            let instruction = Instruction::StoreVar(
                join("var_", number.as_str()),
                task.vars[index].clone(),
            );
            emit(code, instruction);
            proof {
                assert((start + before).push(instruction@) =~= start + before.push(instruction@));
            }
            index += 1;
        }
    }

    fn generate_print_statement(&self, code: &mut Vec<Instruction>, task: &Task)
        requires
            task == self.task,
        ensures
            stream_view(final(code)@) == stream_view(old(code)@) + print_statement(
                task.deep_view(),
            ),
    {
        proof {
            use_type_invariant(self);
        }
        let ghost start = stream_view(code@);
        let ghost t = task.deep_view();
        if self.has_vars {
            proof {
                assert(start + Seq::<SpecInstruction>::empty() =~= start);
            }
            let mut index: usize = 0;
            while index < task.vars.len()
                invariant
                    index <= task.vars.len(),
                    t == task.deep_view(),
                    stream_view(code@) == start + var_prints(t, index as int),
                decreases task.vars.len() - index,
            {
                let ghost before = var_prints(t, index as int);
                let number = decimal(index as u64);
                emit(code, Instruction::LoadVar(join("var_", number.as_str())));
                emit(code, Instruction::LoadVar("template".to_owned()));
                emit(code, Instruction::Printf);
                match task.severity {
                    Severity::Info => emit(code, Instruction::Stdout),
                    Severity::Error => emit(code, Instruction::Stderr),
                }
                emit(code, Instruction::Sleep(task.frequency));
                proof {
                    assert(stream_view(code@) =~= start + (before + seq![
                        SpecInstruction::LoadVar(var_name(index as nat)),
                        SpecInstruction::LoadVar("template"@),
                        SpecInstruction::Printf,
                        log_instruction(t.severity),
                        SpecInstruction::Sleep(t.frequency),
                    ]));
                }
                index += 1;
            }
        } else {
            emit(code, Instruction::LoadVar("template".to_owned()));
            match task.severity {
                Severity::Info => emit(code, Instruction::Stdout),
                Severity::Error => emit(code, Instruction::Stderr),
            }
            emit(code, Instruction::Sleep(task.frequency));
            proof {
                assert(stream_view(code@) =~= start + print_statement(t));
            }
        }
    }
}

} // verus!
