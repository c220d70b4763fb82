//! The stack machine that executes the bytecode of one service.
//!
//! The machine is a state machine. [`VM::step`] executes one instruction and
//! returns the effect that the host has to perform for it: send a log line,
//! pause, send a call to the coordinator, open or close a trace context. The
//! machine itself performs no I/O. Remote invocations that arrive for the
//! service are handed to the machine with [`VM::deliver_remote_call`]; the
//! machine picks them up at `CheckInterrupt` instructions.

use crate::bytecode::{
    decode_at, decode_instruction, encode_stream, generate_bytecode, index_view, label_to_offset,
    offset_of, offset_to_label, DecodeError, Decoded,
};
use crate::code_gen::instruction::{
    stream_view, Instruction, SpecInstruction, SpecValue, StackValue, CHECK_INTERRUPT_CODE,
};
use crate::text::{decimal, decimal_digits, join, replace_first_placeholder};
use crate::vm::laws::aligned;
use crate::vm::state::{
    effects, enclosing_label, execute, initial_state, lemma_execute_bookkeeping, run, step, VmState,
};
use crate::vm_coordinator::{ServiceMessage, SpecServiceMessage};
use vstd::hash_map::*;
use vstd::prelude::*;

pub mod laws;
pub mod state;

verus! {

/// A line for the log of the service.
#[derive(Debug, Clone, PartialEq, Eq)]
pub enum PrintMessage {
    Stdout(String),
    Stderr(String),
}

/// The mathematical content of a [`PrintMessage`].
pub enum SpecPrintMessage {
    Stdout(Seq<char>),
    Stderr(Seq<char>),
}

impl View for PrintMessage {
    type V = SpecPrintMessage;

    open spec fn view(&self) -> SpecPrintMessage {
        match self {
            PrintMessage::Stdout(s) => SpecPrintMessage::Stdout(s@),
            PrintMessage::Stderr(s) => SpecPrintMessage::Stderr(s@),
        }
    }
}

/// Why the machine stopped.
#[derive(Debug, Clone, PartialEq, Eq)]
pub enum VMError {
    /// An instruction needs more values than the current frame holds.
    StackUnderflow,
    /// A value on the stack is not of the kind that the instruction needs.
    InvalidStackValue,
    /// `LoadVar` names a variable that was never stored.
    MissingVar(String),
    /// A call to another service could not be sent.
    RemoteCallError(String),
    /// A jump or a call names a label that the program does not define.
    MissingLabel(String),
    /// `EndContext` without a trace context to end.
    MissingSpan,
    /// A log line could not be handed over; the host reports this.
    PrintError(PrintMessage),
    /// More instructions were executed than the configured limit allows.
    MaxExecutionCounterReached,
    /// The template holds no placeholder that fits the value.
    InvalidTemplate(String),
    /// There is no complete instruction at the instruction pointer; holds
    /// the instruction pointer and the length of the image.
    IPOutOfBounds(usize, usize),
    /// A remote call is made outside any labelled function.
    MissingFunctionName,
    /// A traced remote call is made while no trace context is active.
    MissingContext,
    /// The byte at the instruction pointer starts no instruction.
    InvalidInstruction(u8),
    /// The instruction needs a frame, and the call stack holds none.
    MissingStackFrame,
}

/// The mathematical content of a [`VMError`].
pub enum SpecVMError {
    StackUnderflow,
    InvalidStackValue,
    MissingVar(Seq<char>),
    RemoteCallError(Seq<char>),
    MissingLabel(Seq<char>),
    MissingSpan,
    PrintError(SpecPrintMessage),
    MaxExecutionCounterReached,
    InvalidTemplate(Seq<char>),
    IPOutOfBounds(usize, usize),
    MissingFunctionName,
    MissingContext,
    InvalidInstruction(u8),
    MissingStackFrame,
}

impl View for VMError {
    type V = SpecVMError;

    open spec fn view(&self) -> SpecVMError {
        match self {
            VMError::StackUnderflow => SpecVMError::StackUnderflow,
            VMError::InvalidStackValue => SpecVMError::InvalidStackValue,
            VMError::MissingVar(k) => SpecVMError::MissingVar(k@),
            VMError::RemoteCallError(m) => SpecVMError::RemoteCallError(m@),
            VMError::MissingLabel(l) => SpecVMError::MissingLabel(l@),
            VMError::MissingSpan => SpecVMError::MissingSpan,
            VMError::PrintError(m) => SpecVMError::PrintError(m@),
            VMError::MaxExecutionCounterReached => SpecVMError::MaxExecutionCounterReached,
            VMError::InvalidTemplate(t) => SpecVMError::InvalidTemplate(t@),
            VMError::IPOutOfBounds(ip, len) => SpecVMError::IPOutOfBounds(*ip, *len),
            VMError::MissingFunctionName => SpecVMError::MissingFunctionName,
            VMError::MissingContext => SpecVMError::MissingContext,
            VMError::InvalidInstruction(op) => SpecVMError::InvalidInstruction(*op),
            VMError::MissingStackFrame => SpecVMError::MissingStackFrame,
        }
    }
}

/// The text of an error.
pub open spec fn error_text(e: SpecVMError) -> Seq<char> {
    match e {
        SpecVMError::StackUnderflow => "Stack underflow"@,
        SpecVMError::InvalidStackValue => "Invalid stack value"@,
        SpecVMError::MissingVar(var) => "Missing variable: "@ + var,
        SpecVMError::RemoteCallError(msg) => "Remote call error: "@ + msg,
        SpecVMError::MissingLabel(label) => "Missing label: "@ + label,
        SpecVMError::MissingSpan => "Missing span"@,
        SpecVMError::PrintError(_) => "Print error: channel closed"@,
        SpecVMError::MaxExecutionCounterReached => "Max execution counter reached"@,
        SpecVMError::InvalidTemplate(template) => "Invalid template: "@ + template,
        SpecVMError::IPOutOfBounds(ip, len) => "Instruction Pointer out of bounds: "@
            + decimal_digits(ip as nat) + " | No of instructions: "@ + decimal_digits(len as nat),
        SpecVMError::MissingFunctionName => "Missing function name"@,
        SpecVMError::MissingContext => "Missing context"@,
        SpecVMError::InvalidInstruction(op) => "Invalid instruction: "@ + decimal_digits(
            op as nat,
        ),
        SpecVMError::MissingStackFrame => "Missing stack frame"@,
    }
}

impl VMError {
    /// The text of the error.
    pub fn to_string(&self) -> (text: String)
        ensures
            text@ == error_text(self@),
    {
        match self {
            VMError::StackUnderflow => "Stack underflow".to_owned(),
            VMError::InvalidStackValue => "Invalid stack value".to_owned(),
            VMError::MissingVar(var) => join("Missing variable: ", var.as_str()),
            VMError::RemoteCallError(msg) => join("Remote call error: ", msg.as_str()),
            VMError::MissingLabel(label) => join("Missing label: ", label.as_str()),
            VMError::MissingSpan => "Missing span".to_owned(),
            VMError::PrintError(_) => "Print error: channel closed".to_owned(),
            VMError::MaxExecutionCounterReached => "Max execution counter reached".to_owned(),
            VMError::InvalidTemplate(template) => join("Invalid template: ", template.as_str()),
            VMError::IPOutOfBounds(ip, len) => {
                let at = decimal(*ip as u64);
                let of = decimal(*len as u64);
                join("Instruction Pointer out of bounds: ", at.as_str()).concat(
                    " | No of instructions: ",
                ).concat(of.as_str())
            },
            VMError::MissingFunctionName => "Missing function name".to_owned(),
            VMError::MissingContext => "Missing context".to_owned(),
            VMError::InvalidInstruction(op) => {
                let shown = decimal(*op as u64);
                join("Invalid instruction: ", shown.as_str())
            },
            VMError::MissingStackFrame => "Missing stack frame".to_owned(),
        }
    }
}

/// What the host has to do after an instruction was executed.
#[derive(Debug, Clone, PartialEq, Eq)]
pub enum Action {
    /// Nothing.
    Continue,
    /// Send the line to the log of the service.
    Print(PrintMessage),
    /// Pause the worker for the given number of milliseconds.
    Sleep(u64),
    /// Send the message to the coordinator. Where tracing is enabled, `span`
    /// names the client span to open for the call.
    RemoteCall { message: ServiceMessage, span: Option<String> },
    /// Count one local invocation of the function at the label.
    LocalCall(String),
    /// Open a server span of the given name and make it the trace context.
    StartContext(String),
    /// Drop the trace context.
    EndContext,
}

/// The mathematical content of an [`Action`].
pub enum SpecAction {
    Continue,
    Print(SpecPrintMessage),
    Sleep(u64),
    RemoteCall { message: SpecServiceMessage, span: Option<Seq<char>> },
    LocalCall(Seq<char>),
    StartContext(Seq<char>),
    EndContext,
}

impl View for Action {
    type V = SpecAction;

    open spec fn view(&self) -> SpecAction {
        match self {
            Action::Continue => SpecAction::Continue,
            Action::Print(m) => SpecAction::Print(m@),
            Action::Sleep(ms) => SpecAction::Sleep(*ms),
            Action::RemoteCall { message, span } => SpecAction::RemoteCall {
                message: message@,
                span: match span {
                    Some(name) => Some(name@),
                    None => None,
                },
            },
            Action::LocalCall(l) => SpecAction::LocalCall(l@),
            Action::StartContext(name) => SpecAction::StartContext(name@),
            Action::EndContext => SpecAction::EndContext,
        }
    }
}

/// The contents of an operand stack.
pub open spec fn values_view(values: Seq<StackValue>) -> Seq<SpecValue> {
    Seq::new(values.len(), |j: int| values[j]@)
}

/// The contents of a call stack.
pub open spec fn frames_view(frames: Seq<Vec<StackValue>>) -> Seq<Seq<SpecValue>> {
    Seq::new(frames.len(), |i: int| values_view(frames[i]@))
}

/// The contents of the variables.
pub open spec fn vars_view(vars: Map<Seq<char>, StackValue>) -> Map<Seq<char>, SpecValue> {
    vars.map_values(|v: StackValue| v@)
}

/// The contents of a queue of names.
pub open spec fn names_view(names: Seq<String>) -> Seq<Seq<char>> {
    Seq::new(names.len(), |i: int| names[i]@)
}

/// The contents of a list of actions.
pub open spec fn actions_view(actions: Seq<Action>) -> Seq<SpecAction> {
    Seq::new(actions.len(), |i: int| actions[i]@)
}

/// The contents of how a run ended.
pub open spec fn result_view(res: Result<(), VMError>) -> Result<(), SpecVMError> {
    match res {
        Ok(_) => Ok(()),
        Err(e) => Err(e@),
    }
}

/// The contents of what a step returns.
pub open spec fn outcome_view(res: Result<Action, VMError>) -> Result<SpecAction, SpecVMError> {
    match res {
        Ok(a) => Ok(a@),
        Err(e) => Err(e@),
    }
}

/// The machine of one service.
pub struct VM {
    code: Vec<u8>,
    stack: Vec<Vec<StackValue>>,
    vars: StringHashMap<StackValue>,
    label_jump_map: StringHashMap<usize>,
    label_index_map: HashMapWithView<usize, String>,
    ip: usize,
    max_execution_counter: Option<usize>,
    execution_counter: usize,
    return_addresses: Vec<usize>,
    remote_call_tx: bool,
    remote_call_rx: Option<Vec<String>>,
    remote_call_counter: usize,
    remote_call_limit: usize,
    service_name: String,
    tracer: bool,
    otel_context: bool,
}

impl View for VM {
    type V = VmState;

    closed spec fn view(&self) -> VmState {
        VmState {
            code: self.code@,
            labels: self.label_jump_map@,
            label_index: index_view(self.label_index_map@),
            ip: self.ip,
            frames: frames_view(self.stack@),
            return_addresses: self.return_addresses@,
            vars: vars_view(self.vars@),
            inbox: match self.remote_call_rx {
                Some(pending) => Some(names_view(pending@)),
                None => None,
            },
            remote_tx: self.remote_call_tx,
            remote_call_counter: self.remote_call_counter,
            remote_call_limit: self.remote_call_limit,
            service_name: self.service_name@,
            tracing: self.tracer,
            context_active: self.otel_context,
            executed: self.execution_counter,
            max_execution_counter: self.max_execution_counter,
        }
    }
}

/// Pushes `v` onto the current frame.
fn push_value(stack: &mut Vec<Vec<StackValue>>, v: StackValue)
    requires
        old(stack).len() > 0,
    ensures
        frames_view(final(stack)@) == frames_view(old(stack)@).drop_last().push(
            frames_view(old(stack)@).last().push(v@),
        ),
{
    let mut frame = stack.pop().unwrap();
    frame.push(v);
    stack.push(frame);
    proof {
        assert(values_view(stack@.last()@) =~= values_view(old(stack)@.last()@).push(v@));
        assert(frames_view(stack@) =~= frames_view(old(stack)@).drop_last().push(
            frames_view(old(stack)@).last().push(v@),
        ));
    }
}

/// Takes the top of the current frame.
fn pop_value(stack: &mut Vec<Vec<StackValue>>) -> (v: StackValue)
    requires
        old(stack).len() > 0,
        old(stack)@.last().len() > 0,
    ensures
        frames_view(final(stack)@) == frames_view(old(stack)@).drop_last().push(
            frames_view(old(stack)@).last().drop_last(),
        ),
        v@ == frames_view(old(stack)@).last().last(),
{
    let mut frame = stack.pop().unwrap();
    let v = frame.pop().unwrap();
    stack.push(frame);
    proof {
        assert(values_view(stack@.last()@) =~= values_view(old(stack)@.last()@).drop_last());
        assert(frames_view(stack@) =~= frames_view(old(stack)@).drop_last().push(
            frames_view(old(stack)@).last().drop_last(),
        ));
    }
    v
}

/// The number of values in the current frame; `None` without a frame.
fn frame_depth(stack: &Vec<Vec<StackValue>>) -> (depth: Option<usize>)
    ensures
        match depth {
            Some(d) => stack.len() > 0 && d == frames_view(stack@).last().len() && d
                == stack@.last().len(),
            None => stack.len() == 0,
        },
        stack.len() == frames_view(stack@).len(),
{
    if stack.len() == 0 {
        None
    } else {
        Some(stack[stack.len() - 1].len())
    }
}

/// The value at position `at` of the current frame.
fn peek_value(stack: &Vec<Vec<StackValue>>, at: usize) -> (v: &StackValue)
    requires
        stack.len() > 0,
        at < stack@.last().len(),
    ensures
        v@ == frames_view(stack@).last()[at as int],
{
    &stack[stack.len() - 1][at]
}

impl VM {
    /// A machine for the program `code` of the service `service_name`. It
    /// starts at the first instruction with one empty frame, accepts no
    /// remote invocations, cannot send remote calls, records no spans and
    /// has no limit on the instructions it executes.
    pub fn new(code: Vec<Instruction>, service_name: &str) -> (vm: VM)
        ensures
            vm@ == initial_state(
                encode_stream(stream_view(code@)),
                label_to_offset(stream_view(code@)),
                offset_to_label(stream_view(code@)),
                service_name@,
            ),
            aligned(stream_view(code@), vm@),
    {
        let ghost program = stream_view(code@);
        let (code, label_jump_map, label_index_map) = generate_bytecode(code);
        let mut stack: Vec<Vec<StackValue>> = Vec::new();
        stack.push(Vec::new());
        let vm = VM {
            code,
            label_jump_map,
            label_index_map,
            stack,
            vars: StringHashMap::new(),
            ip: 0,
            max_execution_counter: None,
            execution_counter: 0,
            return_addresses: Vec::new(),
            remote_call_tx: false,
            remote_call_rx: None,
            remote_call_counter: 0,
            remote_call_limit: 10000,
            service_name: service_name.to_owned(),
            tracer: false,
            otel_context: false,
        };
        proof {
            assert(values_view(vm.stack@[0]@) =~= Seq::<SpecValue>::empty());
            assert(vm@.frames =~= seq![Seq::<SpecValue>::empty()]);
            assert(vm@.vars =~= Map::<Seq<char>, SpecValue>::empty());
            assert(program.take(0) =~= Seq::<SpecInstruction>::empty());
            assert(offset_of(program, 0) == 0);
            assert(vm.code@.len() == vm.code.len());
            assert(crate::bytecode::laws::is_boundary(program, vm@.ip as int));
        }
        vm
    }

    /// Sets the limit on the number of instructions to execute.
    pub fn with_max_execution_counter(self, max_execution_counter: usize) -> (vm: VM)
        ensures
            vm@ == (VmState { max_execution_counter: Some(max_execution_counter), ..self@ }),
    {
        let mut vm = self;
        vm.max_execution_counter = Some(max_execution_counter);
        vm
    }

    /// Lets the machine send calls to the coordinator.
    pub fn with_remote_call_tx(self) -> (vm: VM)
        ensures
            vm@ == (VmState { remote_tx: true, ..self@ }),
    {
        let mut vm = self;
        vm.remote_call_tx = true;
        vm
    }

    /// Lets the machine accept remote invocations; `pending` holds those
    /// that wait already, oldest first.
    pub fn with_remote_call_rx(self, pending: Vec<String>) -> (vm: VM)
        ensures
            vm@ == (VmState { inbox: Some(names_view(pending@)), ..self@ }),
    {
        let mut vm = self;
        vm.remote_call_rx = Some(pending);
        vm
    }

    /// Sets how often `CheckInterrupt` runs between two looks at the inbox.
    pub fn with_custom_remote_call_limit(self, limit: usize) -> (vm: VM)
        ensures
            vm@ == (VmState { remote_call_limit: limit, ..self@ }),
    {
        let mut vm = self;
        vm.remote_call_limit = limit;
        vm
    }

    /// Makes the machine ask for spans.
    pub fn with_tracer(self) -> (vm: VM)
        ensures
            vm@ == (VmState { tracing: true, ..self@ }),
    {
        let mut vm = self;
        vm.tracer = true;
        vm
    }

    /// Whether the instruction pointer is past the last instruction.
    pub fn finished(&self) -> (b: bool)
        ensures
            b == self@.halted(),
    {
        self.ip >= self.code.len()
    }

    /// Whether more instructions were executed than the limit allows.
    pub fn watchdog_tripped(&self) -> (b: bool)
        ensures
            b == self@.watchdog_tripped(),
    {
        match self.max_execution_counter {
            Some(n) => self.execution_counter > n,
            None => false,
        }
    }

    /// The offset of the next instruction.
    pub fn ip(&self) -> (ip: usize)
        ensures
            ip == self@.ip,
    {
        self.ip
    }

    /// The number of frames on the call stack.
    pub fn call_depth(&self) -> (depth: usize)
        ensures
            depth == self@.frames.len(),
    {
        self.stack.len()
    }

    /// The number of instructions executed so far.
    pub fn executed(&self) -> (n: usize)
        ensures
            n == self@.executed,
    {
        self.execution_counter
    }

    /// The opcode at the instruction pointer, if the machine has not
    /// finished.
    pub fn current_opcode(&self) -> (op: Option<u8>)
        ensures
            op == if self@.halted() {
                None
            } else {
                Some(self@.code[self@.ip as int])
            },
    {
        if self.ip < self.code.len() {
            Some(self.code[self.ip])
        } else {
            None
        }
    }

    /// Whether the next step looks at the inbox. The host asks this before
    /// each step and, where it holds, moves at most one waiting invocation
    /// from its channel to the machine: so the channel is polled at the
    /// cadence of the machine, and not more often.
    pub fn poll_due(&self) -> (due: bool)
        ensures
            due == self@.poll_due(),
    {
        self.ip < self.code.len() && self.code[self.ip] == CHECK_INTERRUPT_CODE
            && self.remote_call_rx.is_some() && self.remote_call_counter
            >= self.remote_call_limit
    }

    /// Queues a remote invocation of `method`. Returns `false`, and drops
    /// the invocation, where the machine accepts none.
    pub fn deliver_remote_call(&mut self, method: String) -> (accepted: bool)
        ensures
            accepted == old(self)@.inbox is Some,
            final(self)@ == (VmState {
                inbox: match old(self)@.inbox {
                    Some(pending) => Some(pending.push(method@)),
                    None => None,
                },
                ..old(self)@
            }),
    {
        match self.remote_call_rx.take() {
            Some(pending) => {
                let mut pending = pending;
                pending.push(method);
                proof {
                    assert(names_view(pending@) =~= old(self)@.inbox->0.push(method@));
                }
                self.remote_call_rx = Some(pending);
                true
            },
            None => false,
        }
    }

    /// The label of the function that encloses the instruction pointer.
    fn find_current_function_name(&self) -> (res: Option<String>)
        ensures
            match enclosing_label(self@.label_index, self@.ip as int) {
                Some(l) => res matches Some(r) && r@ == l,
                None => res is None,
            },
    {
        let mut i = self.ip;
        while i > 0
            invariant
                i <= self.ip,
                enclosing_label(self@.label_index, self@.ip as int) == enclosing_label(
                    self@.label_index,
                    i as int,
                ),
            decreases i,
        {
            i -= 1;
            match self.label_index_map.get(&i) {
                Some(label) => {
                    return Some(label.clone());
                },
                None => {},
            }
        }
        None
    }

    /// Starts a call of the function at offset `target` that will resume
    /// at offset `resume`.
    fn handle_local_call(&mut self, target: usize, resume: usize)
        ensures
            final(self)@ == old(self)@.enter(target, resume),
    {
        self.return_addresses.push(resume);
        self.stack.push(Vec::new());
        self.ip = target;
        proof {
            assert(values_view(self.stack@.last()@) =~= Seq::<SpecValue>::empty());
            assert(self@.frames =~= old(self)@.frames.push(Seq::<SpecValue>::empty()));
        }
    }

    /// Executes `CheckInterrupt`.
    fn handle_remote_call(&mut self) -> (res: Result<Action, VMError>)
        ensures
            final(self)@ == state::check_interrupt(old(self)@).state,
            outcome_view(res) == state::check_interrupt(old(self)@).result,
    {
        let waiting = match &self.remote_call_rx {
            None => {
                return Ok(Action::Continue);
            },
            Some(pending) => pending.len(),
        };
        if self.remote_call_counter < self.remote_call_limit {
            self.remote_call_counter += 1;
            return Ok(Action::Continue);
        }
        if waiting == 0 {
            self.remote_call_counter = 0;
            return Ok(Action::Continue);
        }
        let label = match &self.remote_call_rx {
            None => {
                return Ok(Action::Continue);
            },
            Some(pending) => join("start_", pending[0].as_str()),
        };
        let target = match self.label_jump_map.get(label.as_str()) {
            None => {
                return Err(VMError::MissingLabel(label));
            },
            Some(target) => *target,
        };
        let mut pending = self.remote_call_rx.take().unwrap();
        pending.remove(0);
        proof {
            assert(names_view(pending@) =~= old(self)@.inbox->0.drop_first());
        }
        self.remote_call_rx = Some(pending);
        self.remote_call_counter = 0;
        let resume = self.ip;
        self.handle_local_call(target, resume);
        Ok(Action::Continue)
    }

    /// Executes `Printf`.
    fn printf(&mut self, next: usize) -> (res: Result<Action, VMError>)
        ensures
            final(self)@ == state::printf(old(self)@, next).state,
            outcome_view(res) == state::printf(old(self)@, next).result,
    {
        let depth = match frame_depth(&self.stack) {
            None => {
                return Err(VMError::MissingStackFrame);
            },
            Some(depth) => depth,
        };
        if depth < 2 {
            return Err(VMError::StackUnderflow);
        }
        let template = match peek_value(&self.stack, depth - 2) {
            StackValue::String(template) => template,
            StackValue::Int(_) => {
                return Err(VMError::InvalidStackValue);
            },
        };
        let replaced = match peek_value(&self.stack, depth - 1) {
            StackValue::String(text) => replace_first_placeholder(
                template.as_str(),
                's',
                text.as_str(),
            ),
            StackValue::Int(n) => {
                let text = decimal(*n);
                replace_first_placeholder(template.as_str(), 'd', text.as_str())
            },
        };
        let line = match replaced {
            None => {
                return Err(VMError::InvalidTemplate(template.clone()));
            },
            Some(line) => line,
        };
        pop_value(&mut self.stack);
        pop_value(&mut self.stack);
        push_value(&mut self.stack, StackValue::String(line));
        self.ip = next;
        Ok(Action::Continue)
    }

    /// Executes `RemoteCall`.
    fn remote_call(&mut self, next: usize) -> (res: Result<Action, VMError>)
        ensures
            final(self)@ == state::remote_call(old(self)@, next).state,
            outcome_view(res) == state::remote_call(old(self)@, next).result,
    {
        if !self.remote_call_tx {
            return Err(VMError::RemoteCallError("Remote call tx not set".to_owned()));
        }
        let depth = match frame_depth(&self.stack) {
            None => {
                return Err(VMError::MissingStackFrame);
            },
            Some(depth) => depth,
        };
        if depth < 2 {
            return Err(VMError::StackUnderflow);
        }
        let to = match peek_value(&self.stack, depth - 2) {
            StackValue::String(service) => service.clone(),
            StackValue::Int(_) => {
                return Err(VMError::InvalidStackValue);
            },
        };
        let function = match peek_value(&self.stack, depth - 1) {
            StackValue::String(method) => method.clone(),
            StackValue::Int(_) => {
                return Err(VMError::InvalidStackValue);
            },
        };
        let caller = match self.find_current_function_name() {
            None => {
                return Err(VMError::MissingFunctionName);
            },
            Some(caller) => caller,
        };
        if self.tracer && !self.otel_context {
            return Err(VMError::MissingContext);
        }
        let span = if self.tracer {
            Some(join(self.service_name.as_str(), "/").concat(caller.as_str()))
        } else {
            None
        };
        pop_value(&mut self.stack);
        pop_value(&mut self.stack);
        self.ip = next;
        Ok(Action::RemoteCall { message: ServiceMessage::Call { to, function }, span })
    }

    /// Executes `instruction`, whose encoding ends at offset `next`.
    #[verifier::spinoff_prover]
    #[verifier::rlimit(40)]
    fn execute_instruction(&mut self, instruction: Instruction, next: usize) -> (res: Result<
        Action,
        VMError,
    >)
        ensures
            final(self)@ == execute(old(self)@, instruction@, next).state,
            outcome_view(res) == execute(old(self)@, instruction@, next).result,
            res is Err ==> final(self)@ == old(self)@,
            final(self)@.executed == old(self)@.executed,
            final(self)@.max_execution_counter == old(self)@.max_execution_counter,
    {
        reveal(execute);
        match instruction {
            Instruction::Push(value) => {
                if self.stack.len() == 0 {
                    return Err(VMError::MissingStackFrame);
                }
                push_value(&mut self.stack, value);
                self.ip = next;
                Ok(Action::Continue)
            },
            Instruction::Pop => {
                self.stack.pop();
                self.ip = next;
                proof {
                    if old(self)@.frames.len() > 0 {
                        assert(self@.frames =~= old(self)@.frames.drop_last());
                    }
                }
                Ok(Action::Continue)
            },
            Instruction::Dec => {
                let depth = match frame_depth(&self.stack) {
                    None => {
                        return Err(VMError::MissingStackFrame);
                    },
                    Some(depth) => depth,
                };
                if depth == 0 {
                    return Err(VMError::StackUnderflow);
                }
                let n = match peek_value(&self.stack, depth - 1) {
                    StackValue::Int(n) => *n,
                    StackValue::String(_) => {
                        return Err(VMError::InvalidStackValue);
                    },
                };
                if n == 0 {
                    return Err(VMError::InvalidStackValue);
                }
                pop_value(&mut self.stack);
                push_value(&mut self.stack, StackValue::Int(n - 1));
                self.ip = next;
                Ok(Action::Continue)
            },
            Instruction::JmpIfZero(label) => {
                let depth = match frame_depth(&self.stack) {
                    None => {
                        return Err(VMError::MissingStackFrame);
                    },
                    Some(depth) => depth,
                };
                if depth == 0 {
                    return Err(VMError::StackUnderflow);
                }
                let n = match peek_value(&self.stack, depth - 1) {
                    StackValue::Int(n) => *n,
                    StackValue::String(_) => {
                        return Err(VMError::InvalidStackValue);
                    },
                };
                let target = if n != 0 {
                    next
                } else {
                    match self.label_jump_map.get(label.as_str()) {
                        Some(target) => *target,
                        None => {
                            return Err(VMError::MissingLabel(label));
                        },
                    }
                };
                pop_value(&mut self.stack);
                self.ip = target;
                Ok(Action::Continue)
            },
            Instruction::Label(_) => {
                self.ip = next;
                Ok(Action::Continue)
            },
            Instruction::Stdout => {
                let depth = match frame_depth(&self.stack) {
                    None => {
                        return Err(VMError::MissingStackFrame);
                    },
                    Some(depth) => depth,
                };
                if depth == 0 {
                    return Err(VMError::StackUnderflow);
                }
                let line = pop_value(&mut self.stack).to_string();
                self.ip = next;
                Ok(Action::Print(PrintMessage::Stdout(line)))
            },
            Instruction::Stderr => {
                let depth = match frame_depth(&self.stack) {
                    None => {
                        return Err(VMError::MissingStackFrame);
                    },
                    Some(depth) => depth,
                };
                if depth == 0 {
                    return Err(VMError::StackUnderflow);
                }
                match peek_value(&self.stack, depth - 1) {
                    StackValue::String(_) => {},
                    StackValue::Int(_) => {
                        return Err(VMError::InvalidStackValue);
                    },
                }
                let line = pop_value(&mut self.stack).to_string();
                self.ip = next;
                Ok(Action::Print(PrintMessage::Stderr(line)))
            },
            Instruction::Sleep(ms) => {
                self.ip = next;
                Ok(Action::Sleep(ms))
            },
            Instruction::StoreVar(key, value) => {
                let ghost k = key@;
                let ghost v = value@;
                self.vars.insert(key, StackValue::String(value));
                self.ip = next;
                proof {
                    assert(self@.vars =~= old(self)@.vars.insert(k, SpecValue::Text(v)));
                }
                Ok(Action::Continue)
            },
            Instruction::LoadVar(key) => {
                let value = match self.vars.get(key.as_str()) {
                    None => {
                        return Err(VMError::MissingVar(key));
                    },
                    Some(value) => value.duplicate(),
                };
                if self.stack.len() == 0 {
                    return Err(VMError::MissingStackFrame);
                }
                push_value(&mut self.stack, value);
                self.ip = next;
                Ok(Action::Continue)
            },
            Instruction::Dup => {
                let depth = match frame_depth(&self.stack) {
                    None => {
                        return Err(VMError::MissingStackFrame);
                    },
                    Some(depth) => depth,
                };
                if depth == 0 {
                    return Err(VMError::StackUnderflow);
                }
                let top = peek_value(&self.stack, depth - 1).duplicate();
                push_value(&mut self.stack, top);
                self.ip = next;
                Ok(Action::Continue)
            },
            Instruction::Jump(label) => {
                let target = match self.label_jump_map.get(label.as_str()) {
                    Some(target) => *target,
                    None => {
                        return Err(VMError::MissingLabel(label));
                    },
                };
                self.ip = target;
                Ok(Action::Continue)
            },
            Instruction::Printf => self.printf(next),
            Instruction::RemoteCall => self.remote_call(next),
            Instruction::StartContext => {
                self.ip = next;
                if self.tracer {
                    self.otel_context = true;
                    Ok(Action::StartContext(join(self.service_name.as_str(), "/start_context")))
                } else {
                    Ok(Action::Continue)
                }
            },
            Instruction::EndContext => {
                if !self.otel_context {
                    return Err(VMError::MissingSpan);
                }
                self.otel_context = false;
                self.ip = next;
                Ok(Action::EndContext)
            },
            Instruction::CheckInterrupt => self.handle_remote_call(),
            Instruction::Call(label) => {
                let target = match self.label_jump_map.get(label.as_str()) {
                    Some(target) => *target,
                    None => {
                        return Err(VMError::MissingLabel(label));
                    },
                };
                self.handle_local_call(target, next);
                Ok(Action::LocalCall(label))
            },
            Instruction::Ret => {
                if self.return_addresses.len() == 0 {
                    return Err(VMError::MissingStackFrame);
                }
                let resume = self.return_addresses.pop().unwrap();
                self.stack.pop();
                self.ip = resume;
                proof {
                    if old(self)@.frames.len() > 0 {
                        assert(self@.frames =~= old(self)@.frames.drop_last());
                    }
                }
                Ok(Action::Continue)
            },
        }
    }

    /// Executes the instruction at the instruction pointer and returns what
    /// the host has to do for it.
    ///
    /// A machine whose watchdog has tripped fails with
    /// `MaxExecutionCounterReached`; one without a complete instruction at
    /// its instruction pointer fails with `IPOutOfBounds`, or with
    /// `InvalidInstruction` where the bytes there encode none. A failing step
    /// leaves the machine as it was. A successful step is counted.
    pub fn step(&mut self) -> (res: Result<Action, VMError>)
        ensures
            final(self)@ == step(old(self)@).state,
            outcome_view(res) == step(old(self)@).result,
    {
        if self.watchdog_tripped() {
            return Err(VMError::MaxExecutionCounterReached);
        }
        let (instruction, next) = match decode_at(&self.code, self.ip) {
            Err(DecodeError::Truncated) => {
                return Err(VMError::IPOutOfBounds(self.ip, self.code.len()));
            },
            Err(DecodeError::Malformed) => {
                return Err(VMError::InvalidInstruction(self.code[self.ip]));
            },
            Ok(decoded) => decoded,
        };
        match self.execute_instruction(instruction, next) {
            Err(e) => Err(e),
            Ok(action) => {
                if self.execution_counter < usize::MAX {
                    self.execution_counter += 1;
                }
                Ok(action)
            },
        }
    }

    /// Runs the machine until its program ends, an instruction fails or the
    /// watchdog trips, and returns how the run ended together with what the
    /// host was asked to do on the way, in order. Nothing is performed: a
    /// pause is only recorded.
    ///
    /// The watchdog must be armed, since a program may loop forever. Where
    /// the run ends with `MaxExecutionCounterReached`, more instructions
    /// were executed than the limit allows.
    pub fn run(&mut self) -> (res: (Result<(), VMError>, Vec<Action>))
        requires
            old(self)@.watchdog_armed(),
        ensures
            final(self)@ == run(old(self)@).state,
            result_view(res.0) == run(old(self)@).result,
            actions_view(res.1@) == run(old(self)@).actions,
            res.0 matches Err(VMError::MaxExecutionCounterReached) ==> final(self)@.executed
                > final(self)@.max_execution_counter->0,
    {
        let mut actions: Vec<Action> = Vec::new();
        loop
            invariant
                self@.watchdog_armed(),
                run(old(self)@).state == run(self@).state,
                run(old(self)@).result == run(self@).result,
                run(old(self)@).actions == actions_view(actions@) + run(self@).actions,
            decreases self@.budget(),
        {
            if self.watchdog_tripped() {
                proof {
                    assert(actions_view(actions@) + Seq::<SpecAction>::empty() =~= actions_view(
                        actions@,
                    ));
                }
                return (Err(VMError::MaxExecutionCounterReached), actions);
            }
            if self.finished() {
                proof {
                    assert(actions_view(actions@) + Seq::<SpecAction>::empty() =~= actions_view(
                        actions@,
                    ));
                }
                return (Ok(()), actions);
            }
            let ghost before = self@;
            let ghost done = actions_view(actions@);
            match self.step() {
                Err(e) => {
                    proof {
                        assert(done + Seq::<SpecAction>::empty() =~= done);
                        match decode_instruction(before.code, before.ip as int) {
                            Decoded::Done(i, next) => {
                                lemma_execute_bookkeeping(before, i, next as usize);
                            },
                            _ => {},
                        }
                    }
                    return (Err(e), actions);
                },
                Ok(action) => {
                    let ghost a = action@;
                    match action {
                        Action::Continue => {},
                        action => {
                            actions.push(action);
                            proof {
                                assert(actions_view(actions@) =~= done.push(a));
                            }
                        },
                    }
                    proof {
                        assert(actions_view(actions@) =~= done + effects(a));
                        assert(done + (effects(a) + run(self@).actions) =~= actions_view(actions@)
                            + run(self@).actions);
                    }
                },
            }
        }
    }
}

} // verus!
