//! The mathematical model of the machine: its state, and what executing one
//! instruction does to it.

use crate::bytecode::{decode_instruction, Decoded};
use crate::code_gen::instruction::{
    display, SpecInstruction, SpecValue, CHECK_INTERRUPT_CODE,
};
use crate::text::substitute_first;
use crate::vm::{SpecAction, SpecPrintMessage, SpecVMError};
use crate::vm_coordinator::SpecServiceMessage;
use vstd::prelude::*;

verus! {

/// The state of a machine.
#[verifier::ext_equal]
pub struct VmState {
    /// The bytecode image.
    pub code: Seq<u8>,
    /// For each label, the offset just past its `Label` instruction.
    pub labels: Map<Seq<char>, usize>,
    /// For each offset just past a `Label` instruction, its label.
    pub label_index: Map<usize, Seq<char>>,
    /// The offset of the next instruction.
    pub ip: usize,
    /// The call stack: one operand stack per active call, the current one
    /// last.
    pub frames: Seq<Seq<SpecValue>>,
    /// For each active call, the offset at which to resume on `Ret`.
    pub return_addresses: Seq<usize>,
    /// The variables of the worker.
    pub vars: Map<Seq<char>, SpecValue>,
    /// The remote invocations that wait to be served, oldest first; `None`
    /// where the worker accepts none.
    pub inbox: Option<Seq<Seq<char>>>,
    /// Whether the worker can send calls to the coordinator.
    pub remote_tx: bool,
    /// How often `CheckInterrupt` ran since the inbox was last looked at.
    pub remote_call_counter: usize,
    /// How often `CheckInterrupt` runs between two looks at the inbox.
    pub remote_call_limit: usize,
    /// The name of the service.
    pub service_name: Seq<char>,
    /// Whether spans are recorded.
    pub tracing: bool,
    /// Whether a trace context is active.
    pub context_active: bool,
    /// How many instructions were executed.
    pub executed: usize,
    /// The limit on `executed`, if any.
    pub max_execution_counter: Option<usize>,
}

/// A state after an instruction, and what the instruction yields: the
/// effect for the host, or the error that stops the machine.
pub struct Transition {
    pub state: VmState,
    pub result: Result<SpecAction, SpecVMError>,
}

/// The instruction fails: the state stays as it is.
pub open spec fn fail(s: VmState, e: SpecVMError) -> Transition {
    Transition { state: s, result: Err(e) }
}

/// The instruction succeeds.
pub open spec fn proceed(s: VmState, a: SpecAction) -> Transition {
    Transition { state: s, result: Ok(a) }
}

impl VmState {
    /// Whether the instruction pointer is past the last instruction.
    pub open spec fn halted(self) -> bool {
        self.ip >= self.code.len()
    }

    /// Whether more instructions were executed than the limit allows.
    pub open spec fn watchdog_tripped(self) -> bool {
        self.max_execution_counter matches Some(n) && self.executed > n
    }

    /// Whether the next step looks at the inbox: the machine stands at a
    /// `CheckInterrupt`, accepts remote invocations, and has let
    /// `remote_call_limit` executions of the instruction pass.
    pub open spec fn poll_due(self) -> bool {
        &&& !self.halted()
        &&& self.code[self.ip as int] == CHECK_INTERRUPT_CODE
        &&& self.inbox is Some
        &&& self.remote_call_counter >= self.remote_call_limit
    }

    /// Whether a limit is set that the count of instructions can exceed.
    pub open spec fn watchdog_armed(self) -> bool {
        self.max_execution_counter matches Some(n) && n < usize::MAX
    }

    /// The same state at another instruction.
    pub open spec fn at(self, ip: usize) -> VmState {
        VmState { ip, ..self }
    }

    /// The number of values in the current frame.
    pub open spec fn depth(self) -> nat
        recommends
            self.frames.len() > 0,
    {
        self.frames.last().len()
    }

    /// The value on top of the current frame.
    pub open spec fn top(self) -> SpecValue
        recommends
            self.frames.len() > 0,
            self.depth() > 0,
    {
        self.frames.last().last()
    }

    /// The state with `v` pushed onto the current frame.
    pub open spec fn push(self, v: SpecValue) -> VmState
        recommends
            self.frames.len() > 0,
    {
        VmState { frames: self.frames.drop_last().push(self.frames.last().push(v)), ..self }
    }

    /// The state without the top of the current frame.
    pub open spec fn pop(self) -> VmState
        recommends
            self.frames.len() > 0,
            self.depth() > 0,
    {
        VmState { frames: self.frames.drop_last().push(self.frames.last().drop_last()), ..self }
    }

    /// The state after a call of the function at `target` that resumes at
    /// `resume`.
    pub open spec fn enter(self, target: usize, resume: usize) -> VmState {
        VmState {
            ip: target,
            frames: self.frames.push(Seq::<SpecValue>::empty()),
            return_addresses: self.return_addresses.push(resume),
            ..self
        }
    }

    /// How many more instructions can be executed before the watchdog
    /// trips; zero where none is armed.
    pub open spec fn budget(self) -> nat {
        match self.max_execution_counter {
            Some(n) => if self.executed <= n && n < usize::MAX {
                (n + 1 - self.executed) as nat
            } else {
                0
            },
            None => 0,
        }
    }

    /// The state `self` reached by one instruction from `before`, with
    /// that instruction counted. The count stops at the largest number.
    pub open spec fn counted_after(self, before: VmState) -> VmState {
        VmState {
            executed: if before.executed < usize::MAX {
                (before.executed + 1) as usize
            } else {
                before.executed
            },
            max_execution_counter: before.max_execution_counter,
            ..self
        }
    }
}

/// Pushing a value and taking it off again changes nothing.
pub proof fn lemma_push_pop(s: VmState, v: SpecValue)
    requires
        s.frames.len() > 0,
    ensures
        s.push(v).pop() == s,
        s.push(v).top() == v,
        s.push(v).depth() == s.depth() + 1,
        s.push(v).frames.len() == s.frames.len(),
{
    let pushed = s.push(v);
    assert(pushed.frames.last().drop_last() =~= s.frames.last());
    assert(pushed.frames.drop_last() =~= s.frames.drop_last());
    assert(pushed.pop().frames =~= s.frames);
}

/// The state of a machine that was just made for an image.
pub open spec fn initial_state(
    code: Seq<u8>,
    labels: Map<Seq<char>, usize>,
    label_index: Map<usize, Seq<char>>,
    service_name: Seq<char>,
) -> VmState {
    VmState {
        code,
        labels,
        label_index,
        ip: 0,
        frames: seq![Seq::<SpecValue>::empty()],
        return_addresses: Seq::<usize>::empty(),
        vars: Map::<Seq<char>, SpecValue>::empty(),
        inbox: None,
        remote_tx: false,
        remote_call_counter: 0,
        remote_call_limit: 10000,
        service_name,
        tracing: false,
        context_active: false,
        executed: 0,
        max_execution_counter: None,
    }
}

/// The label of the function that encloses offset `ip`: the label whose
/// offset is nearest before `ip`.
pub open spec fn enclosing_label(index: Map<usize, Seq<char>>, ip: int) -> Option<Seq<char>>
    decreases ip,
{
    if ip <= 0 {
        None
    } else if ip - 1 <= usize::MAX && index.contains_key((ip - 1) as usize) {
        Some(index[(ip - 1) as usize])
    } else {
        enclosing_label(index, ip - 1)
    }
}

/// The second character of the placeholder that a value fills.
pub open spec fn placeholder_kind(v: SpecValue) -> char {
    match v {
        SpecValue::Text(_) => 's',
        SpecValue::Int(_) => 'd',
    }
}

/// The label of the function that serves a remote invocation of `method`.
pub open spec fn entry_label(method: Seq<char>) -> Seq<char> {
    "start_"@ + method
}

/// What `CheckInterrupt` does. Where the worker accepts remote invocations,
/// the instruction counts its executions; the one after `remote_call_limit`
/// of them looks at the inbox, starts the count anew and, if an invocation
/// waits there, calls the function that serves it. That call returns to
/// this same instruction. The instruction pointer does not move otherwise.
pub open spec fn check_interrupt(s: VmState) -> Transition {
    match s.inbox {
        None => proceed(s, SpecAction::Continue),
        Some(pending) => if s.remote_call_counter < s.remote_call_limit {
            proceed(
                VmState { remote_call_counter: (s.remote_call_counter + 1) as usize, ..s },
                SpecAction::Continue,
            )
        } else if pending.len() == 0 {
            proceed(VmState { remote_call_counter: 0, ..s }, SpecAction::Continue)
        } else if !s.labels.contains_key(entry_label(pending[0])) {
            fail(s, SpecVMError::MissingLabel(entry_label(pending[0])))
        } else {
            proceed(
                VmState {
                    remote_call_counter: 0,
                    inbox: Some(pending.drop_first()),
                    ..s
                }.enter(s.labels[entry_label(pending[0])], s.ip),
                SpecAction::Continue,
            )
        },
    }
}

/// What `RemoteCall` does: it takes the method name and, below it, the
/// service name from the current frame and asks the host to send the call.
pub open spec fn remote_call(s: VmState, next: usize) -> Transition {
    if !s.remote_tx {
        fail(s, SpecVMError::RemoteCallError("Remote call tx not set"@))
    } else if s.frames.len() == 0 {
        fail(s, SpecVMError::MissingStackFrame)
    } else if s.depth() < 2 {
        fail(s, SpecVMError::StackUnderflow)
    } else {
        match (s.pop().top(), s.top()) {
            (SpecValue::Text(service), SpecValue::Text(method)) => match enclosing_label(
                s.label_index,
                s.ip as int,
            ) {
                None => fail(s, SpecVMError::MissingFunctionName),
                Some(caller) => if s.tracing && !s.context_active {
                    fail(s, SpecVMError::MissingContext)
                } else {
                    proceed(
                        s.pop().pop().at(next),
                        SpecAction::RemoteCall {
                            message: SpecServiceMessage::Call { to: service, function: method },
                            span: if s.tracing {
                                Some(s.service_name + "/"@ + caller)
                            } else {
                                None
                            },
                        },
                    )
                },
            },
            _ => fail(s, SpecVMError::InvalidStackValue),
        }
    }
}

/// What `Printf` does: it takes a value and, below it, a template from the
/// current frame and pushes the template with its first fitting placeholder
/// (`%s` for a text, `%d` for an integer) replaced by the value.
pub open spec fn printf(s: VmState, next: usize) -> Transition {
    if s.frames.len() == 0 {
        fail(s, SpecVMError::MissingStackFrame)
    } else if s.depth() < 2 {
        fail(s, SpecVMError::StackUnderflow)
    } else {
        match s.pop().top() {
            SpecValue::Text(template) => match substitute_first(
                template,
                placeholder_kind(s.top()),
                display(s.top()),
            ) {
                Some(line) => proceed(
                    s.pop().pop().push(SpecValue::Text(line)).at(next),
                    SpecAction::Continue,
                ),
                None => fail(s, SpecVMError::InvalidTemplate(template)),
            },
            SpecValue::Int(_) => fail(s, SpecVMError::InvalidStackValue),
        }
    }
}

/// What executing instruction `i` does in state `s`, where `next` is the
/// offset just past the instruction.
#[verifier::opaque]
pub open spec fn execute(s: VmState, i: SpecInstruction, next: usize) -> Transition {
    match i {
        SpecInstruction::Push(v) => if s.frames.len() == 0 {
            fail(s, SpecVMError::MissingStackFrame)
        } else {
            proceed(s.push(v).at(next), SpecAction::Continue)
        },
        SpecInstruction::Pop => proceed(
            VmState {
                frames: if s.frames.len() > 0 {
                    s.frames.drop_last()
                } else {
                    s.frames
                },
                ..s
            }.at(next),
            SpecAction::Continue,
        ),
        SpecInstruction::Dec => if s.frames.len() == 0 {
            fail(s, SpecVMError::MissingStackFrame)
        } else if s.depth() == 0 {
            fail(s, SpecVMError::StackUnderflow)
        } else {
            match s.top() {
                SpecValue::Int(n) => if n == 0 {
                    fail(s, SpecVMError::InvalidStackValue)
                } else {
                    proceed(
                        s.pop().push(SpecValue::Int((n - 1) as u64)).at(next),
                        SpecAction::Continue,
                    )
                },
                SpecValue::Text(_) => fail(s, SpecVMError::InvalidStackValue),
            }
        },
        SpecInstruction::JmpIfZero(label) => if s.frames.len() == 0 {
            fail(s, SpecVMError::MissingStackFrame)
        } else if s.depth() == 0 {
            fail(s, SpecVMError::StackUnderflow)
        } else {
            match s.top() {
                SpecValue::Int(n) => if n != 0 {
                    proceed(s.pop().at(next), SpecAction::Continue)
                } else if s.labels.contains_key(label) {
                    proceed(s.pop().at(s.labels[label]), SpecAction::Continue)
                } else {
                    fail(s, SpecVMError::MissingLabel(label))
                },
                SpecValue::Text(_) => fail(s, SpecVMError::InvalidStackValue),
            }
        },
        SpecInstruction::Label(_) => proceed(s.at(next), SpecAction::Continue),
        SpecInstruction::Stdout => if s.frames.len() == 0 {
            fail(s, SpecVMError::MissingStackFrame)
        } else if s.depth() == 0 {
            fail(s, SpecVMError::StackUnderflow)
        } else {
            proceed(
                s.pop().at(next),
                SpecAction::Print(SpecPrintMessage::Stdout(display(s.top()))),
            )
        },
        SpecInstruction::Stderr => if s.frames.len() == 0 {
            fail(s, SpecVMError::MissingStackFrame)
        } else if s.depth() == 0 {
            fail(s, SpecVMError::StackUnderflow)
        } else {
            match s.top() {
                SpecValue::Text(line) => proceed(
                    s.pop().at(next),
                    SpecAction::Print(SpecPrintMessage::Stderr(line)),
                ),
                SpecValue::Int(_) => fail(s, SpecVMError::InvalidStackValue),
            }
        },
        SpecInstruction::Sleep(ms) => proceed(s.at(next), SpecAction::Sleep(ms)),
        SpecInstruction::StoreVar(key, value) => proceed(
            VmState { vars: s.vars.insert(key, SpecValue::Text(value)), ..s }.at(next),
            SpecAction::Continue,
        ),
        SpecInstruction::LoadVar(key) => if !s.vars.contains_key(key) {
            fail(s, SpecVMError::MissingVar(key))
        } else if s.frames.len() == 0 {
            fail(s, SpecVMError::MissingStackFrame)
        } else {
            proceed(s.push(s.vars[key]).at(next), SpecAction::Continue)
        },
        SpecInstruction::Dup => if s.frames.len() == 0 {
            fail(s, SpecVMError::MissingStackFrame)
        } else if s.depth() == 0 {
            fail(s, SpecVMError::StackUnderflow)
        } else {
            proceed(s.push(s.top()).at(next), SpecAction::Continue)
        },
        SpecInstruction::Jump(label) => if s.labels.contains_key(label) {
            proceed(s.at(s.labels[label]), SpecAction::Continue)
        } else {
            fail(s, SpecVMError::MissingLabel(label))
        },
        SpecInstruction::Printf => printf(s, next),
        SpecInstruction::RemoteCall => remote_call(s, next),
        SpecInstruction::StartContext => if s.tracing {
            proceed(
                VmState { context_active: true, ..s }.at(next),
                SpecAction::StartContext(s.service_name + "/start_context"@),
            )
        } else {
            proceed(s.at(next), SpecAction::Continue)
        },
        SpecInstruction::EndContext => if s.context_active {
            proceed(VmState { context_active: false, ..s }.at(next), SpecAction::EndContext)
        } else {
            fail(s, SpecVMError::MissingSpan)
        },
        SpecInstruction::CheckInterrupt => check_interrupt(s),
        SpecInstruction::Call(label) => if s.labels.contains_key(label) {
            proceed(s.enter(s.labels[label], next), SpecAction::LocalCall(label))
        } else {
            fail(s, SpecVMError::MissingLabel(label))
        },
        SpecInstruction::Ret => if s.return_addresses.len() == 0 {
            fail(s, SpecVMError::MissingStackFrame)
        } else {
            proceed(
                VmState {
                    ip: s.return_addresses.last(),
                    return_addresses: s.return_addresses.drop_last(),
                    frames: if s.frames.len() > 0 {
                        s.frames.drop_last()
                    } else {
                        s.frames
                    },
                    ..s
                },
                SpecAction::Continue,
            )
        },
    }
}

/// No instruction fails with the error of the watchdog, and none touches
/// the count of instructions or its limit. A failing instruction leaves the
/// state as it is.
pub proof fn lemma_execute_bookkeeping(s: VmState, i: SpecInstruction, next: usize)
    ensures
        execute(s, i, next).result != Err::<SpecAction, SpecVMError>(
            SpecVMError::MaxExecutionCounterReached,
        ),
        execute(s, i, next).state.executed == s.executed,
        execute(s, i, next).state.max_execution_counter == s.max_execution_counter,
        execute(s, i, next).result is Err ==> execute(s, i, next).state == s,
{
    reveal(execute);
}

/// One step of the machine. A machine whose watchdog has tripped, or that
/// has no complete instruction at its instruction pointer, fails and stays
/// as it is. Otherwise the instruction at the instruction pointer is
/// executed; if it succeeds, it is counted.
pub open spec fn step(s: VmState) -> Transition {
    if s.watchdog_tripped() {
        fail(s, SpecVMError::MaxExecutionCounterReached)
    } else {
        match decode_instruction(s.code, s.ip as int) {
            Decoded::Truncated => fail(
                s,
                SpecVMError::IPOutOfBounds(s.ip, s.code.len() as usize),
            ),
            Decoded::Malformed => fail(s, SpecVMError::InvalidInstruction(s.code[s.ip as int])),
            Decoded::Done(i, next) => {
                let t = execute(s, i, next as usize);
                match t.result {
                    Err(e) => fail(s, e),
                    Ok(a) => proceed(t.state.counted_after(s), a),
                }
            },
        }
    }
}

/// How a run of the machine ended.
pub struct RunOutcome {
    /// The state in which the machine stopped.
    pub state: VmState,
    /// `Ok` where the program ran to its end, else the error that stopped it.
    pub result: Result<(), SpecVMError>,
    /// What the host was asked to do, in order.
    pub actions: Seq<SpecAction>,
    /// How many instructions were executed.
    pub steps: nat,
}

/// What the host is asked to do for an action.
pub open spec fn effects(a: SpecAction) -> Seq<SpecAction> {
    if a is Continue {
        Seq::<SpecAction>::empty()
    } else {
        seq![a]
    }
}

/// A run of a machine whose watchdog is armed. Before each instruction the
/// watchdog is asked first: a machine that has executed more instructions
/// than the limit allows stops with `MaxExecutionCounterReached`, even at
/// the end of its program. A machine at the end of its program stops with
/// `Ok`. Otherwise the next instruction is executed; its failure stops the
/// machine.
pub open spec fn run(s: VmState) -> RunOutcome
    recommends
        s.watchdog_armed(),
    decreases s.budget(),
    when s.watchdog_armed()
{
    if s.watchdog_tripped() {
        RunOutcome {
            state: s,
            result: Err(SpecVMError::MaxExecutionCounterReached),
            actions: Seq::<SpecAction>::empty(),
            steps: 0,
        }
    } else if s.halted() {
        RunOutcome { state: s, result: Ok(()), actions: Seq::<SpecAction>::empty(), steps: 0 }
    } else {
        let t = step(s);
        match t.result {
            Err(e) => RunOutcome {
                state: t.state,
                result: Err(e),
                actions: Seq::<SpecAction>::empty(),
                steps: 0,
            },
            Ok(a) => {
                let rest = run(t.state);
                RunOutcome {
                    state: rest.state,
                    result: rest.result,
                    actions: effects(a) + rest.actions,
                    steps: rest.steps + 1,
                }
            },
        }
    }
}

} // verus!
