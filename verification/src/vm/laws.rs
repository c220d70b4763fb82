//! Laws of the machine: what holds of every program and every state.

use crate::bytecode::laws::{is_boundary, lemma_decode_bounds, lemma_labels_are_boundaries};
use crate::bytecode::roundtrip::{lemma_decode_at_offset, lemma_offset_of_end};
use crate::bytecode::{
    all_well_sized, decode_instruction, encode_stream, label_to_offset, offset_of, Decoded,
};
use crate::code_gen::instruction::{display, SpecInstruction, SpecValue, PRINTF_CODE};
use crate::text::{find_placeholder, lemma_find_placeholder, placeholder_at, splice_placeholder};
use crate::vm::state::{
    execute, fail, lemma_execute_bookkeeping, lemma_push_pop, placeholder_kind, proceed, run,
    step, VmState,
};
use crate::vm::{SpecAction, SpecVMError};
use crate::vm_coordinator::SpecServiceMessage;
use vstd::prelude::*;

verus! {

/// At the start of instruction `k` of its program, a machine executes
/// instruction `k`: reading the image gives back what was compiled into it.
pub proof fn lemma_step_executes_instruction(s: VmState, program: Seq<SpecInstruction>, k: int)
    requires
        all_well_sized(program),
        encode_stream(program).len() <= usize::MAX,
        s.code == encode_stream(program),
        0 <= k < program.len(),
        s.ip == offset_of(program, k),
        !s.watchdog_tripped(),
    ensures
        step(s) == match execute(s, program[k], offset_of(program, k + 1) as usize).result {
            Err(e) => fail(s, e),
            Ok(a) => proceed(
                execute(s, program[k], offset_of(program, k + 1) as usize).state.counted_after(s),
                a,
            ),
        },
{
    lemma_decode_at_offset(program, k);
}

/// Whether `trace` lists the states of an execution: each state comes from
/// the one before it by a successful step.
pub open spec fn is_execution(trace: Seq<VmState>) -> bool {
    forall|i: int|
        0 <= i < trace.len() - 1 ==> step(#[trigger] trace[i]).result is Ok && trace[i + 1]
            == step(trace[i]).state
}

/// Whether the next step of the machine executes a `Pop`.
pub open spec fn at_pop(s: VmState) -> bool {
    decode_instruction(s.code, s.ip as int) matches Decoded::Done(SpecInstruction::Pop, _)
}

/// What a successful step does to the call stack, by the instruction `i`
/// that it executes, whose encoding ends at offset `next`:
/// - `Call` adds `next` to the return addresses and a frame to the call
///   stack and goes to its label;
/// - `Ret` takes the latest return address away, goes there and drops a
///   frame; it leaves the variables alone;
/// - `CheckInterrupt` leaves both alone or adds its own offset and a frame;
/// - `Pop` leaves the return addresses alone;
/// - every other instruction leaves the return addresses and the number of
///   frames alone.
pub proof fn lemma_step_call_stack(s: VmState, i: SpecInstruction, next: int)
    requires
        decode_instruction(s.code, s.ip as int) == Decoded::Done(i, next),
        step(s).result is Ok,
    ensures
        step(s).state.code == s.code,
        step(s).state.labels == s.labels,
        ({
            let t = step(s).state;
            match i {
                SpecInstruction::Call(l) => {
                    &&& s.labels.contains_key(l)
                    &&& t.ip == s.labels[l]
                    &&& t.return_addresses == s.return_addresses.push(next as usize)
                    &&& t.frames.len() == s.frames.len() + 1
                },
                SpecInstruction::Ret => {
                    &&& s.return_addresses.len() > 0
                    &&& t.ip == s.return_addresses.last()
                    &&& t.return_addresses == s.return_addresses.drop_last()
                    &&& t.frames.len() == if s.frames.len() > 0 {
                        s.frames.len() - 1
                    } else {
                        0
                    }
                    &&& t.vars == s.vars
                },
                SpecInstruction::CheckInterrupt => {
                    ||| t.return_addresses == s.return_addresses && t.frames.len()
                        == s.frames.len()
                    ||| t.return_addresses == s.return_addresses.push(s.ip) && t.frames.len()
                        == s.frames.len() + 1
                },
                SpecInstruction::Pop => t.return_addresses == s.return_addresses,
                _ => t.return_addresses == s.return_addresses && t.frames.len() == s.frames.len(),
            }
        }),
{
    reveal(execute);
}

/// What holds of state `k` of an execution that starts with a call, while
/// the execution is inside that call: the return addresses start with those
/// from before the call and the offset behind the call, and the call stack
/// has grown as much as the return addresses have.
spec fn inside_call(trace: Seq<VmState>, behind: int, k: int) -> bool {
    let r = trace[0].return_addresses.len() as int;
    &&& trace[k].code == trace[0].code
    &&& trace[k].return_addresses.len() > r
    &&& trace[k].return_addresses.take(r + 1) == trace[0].return_addresses.push(behind as usize)
    &&& trace[k].frames.len() - trace[k].return_addresses.len() == trace[0].frames.len() - r
}

/// Every state of an execution from behind a call up to before the matching
/// return is inside the call.
proof fn lemma_stays_inside_call(trace: Seq<VmState>, label: Seq<char>, behind: int, k: int)
    requires
        is_execution(trace),
        decode_instruction(trace[0].code, trace[0].ip as int) == Decoded::Done(
            SpecInstruction::Call(label),
            behind,
        ),
        forall|i: int| 0 <= i < trace.len() - 1 ==> !at_pop(#[trigger] trace[i]),
        forall|i: int|
            1 <= i < trace.len() - 1 ==> (#[trigger] trace[i]).return_addresses.len()
                > trace[0].return_addresses.len(),
        1 <= k < trace.len() - 1,
    ensures
        inside_call(trace, behind, k),
    decreases k,
{
    let r = trace[0].return_addresses.len() as int;
    if k == 1 {
        let s = trace[0];
        assert(trace[1] == step(s).state);
        lemma_step_call_stack(s, SpecInstruction::Call(label), behind);
        assert(trace[1].return_addresses.take(r + 1) =~= s.return_addresses.push(behind as usize));
    } else {
        lemma_stays_inside_call(trace, label, behind, k - 1);
        let s = trace[k - 1];
        assert(trace[k] == step(s).state);
        assert(!at_pop(s));
        match decode_instruction(s.code, s.ip as int) {
            Decoded::Done(i, next) => {
                lemma_step_call_stack(s, i, next);
                assert(trace[k].return_addresses.take(r + 1) =~= s.return_addresses.take(r + 1));
            },
            _ => {},
        }
    }
}

/// A call and the return that matches it: however the called function runs,
/// as long as every step succeeds and none executes a `Pop`, the machine
/// resumes at the offset immediately behind the call, with as many frames
/// and with the return addresses as before the call. What the called
/// function stored in variables stays: the return takes nothing back.
///
/// `trace` lists the states of the execution. Its first state stands at
/// `Call(label)`, whose encoding ends at offset `behind`. The states between
/// the first and the last are inside the call: they hold more return
/// addresses than the first. The last state is the first that does not: the
/// step before it is the matching return.
pub proof fn lemma_call_returns_behind_the_call(
    trace: Seq<VmState>,
    label: Seq<char>,
    behind: int,
)
    requires
        trace.len() >= 2,
        trace[0].code.len() <= usize::MAX,
        is_execution(trace),
        decode_instruction(trace[0].code, trace[0].ip as int) == Decoded::Done(
            SpecInstruction::Call(label),
            behind,
        ),
        forall|i: int| 0 <= i < trace.len() - 1 ==> !at_pop(#[trigger] trace[i]),
        forall|i: int|
            1 <= i < trace.len() - 1 ==> (#[trigger] trace[i]).return_addresses.len()
                > trace[0].return_addresses.len(),
        trace.last().return_addresses.len() <= trace[0].return_addresses.len(),
    ensures
        trace.len() >= 3,
        decode_instruction(
            trace[trace.len() - 2].code,
            trace[trace.len() - 2].ip as int,
        ) matches Decoded::Done(SpecInstruction::Ret, _),
        trace.last().ip == behind,
        trace.last().frames.len() == trace[0].frames.len(),
        trace.last().return_addresses == trace[0].return_addresses,
        trace.last().vars == trace[trace.len() - 2].vars,
{
    let n = trace.len() - 1;
    let r = trace[0].return_addresses.len() as int;
    lemma_decode_bounds(trace[0].code, trace[0].ip as int);
    if n == 1 {
        assert(trace[1] == step(trace[0]).state);
        lemma_step_call_stack(trace[0], SpecInstruction::Call(label), behind);
    } else {
        lemma_stays_inside_call(trace, label, behind, n - 1);
        let s = trace[n - 1];
        assert(trace[n] == step(s).state);
        assert(!at_pop(s));
        assert(s.return_addresses.take(r + 1)[r] == behind as usize);
        match decode_instruction(s.code, s.ip as int) {
            Decoded::Done(i, next) => {
                lemma_step_call_stack(s, i, next);
                assert(s.return_addresses.drop_last() =~= s.return_addresses.take(r + 1).drop_last());
                assert(trace[0].return_addresses.push(behind as usize).drop_last()
                    =~= trace[0].return_addresses);
            },
            _ => {},
        }
    }
}

/// A successful step executes exactly one instruction: it raises the count
/// by one and leaves the limit alone.
pub proof fn lemma_step_counts(s: VmState)
    requires
        step(s).result is Ok,
        s.executed < usize::MAX,
    ensures
        step(s).state.executed == s.executed + 1,
        step(s).state.max_execution_counter == s.max_execution_counter,
{
}

/// The watchdog stops a run only after more instructions were executed than
/// the limit allows, and it stops every run that gets that far: with the
/// limit `n`, a run from a machine that has executed `e <= n` instructions
/// ends with `MaxExecutionCounterReached` exactly when it executes `n + 1 - e`
/// instructions, and it never executes more.
pub proof fn lemma_watchdog(s: VmState)
    requires
        s.watchdog_armed(),
        s.executed <= s.max_execution_counter->0,
    ensures
        run(s).state.executed == s.executed + run(s).steps,
        run(s).steps <= s.max_execution_counter->0 + 1 - s.executed,
        run(s).result == Err::<(), SpecVMError>(SpecVMError::MaxExecutionCounterReached)
            <==> run(s).state.executed > s.max_execution_counter->0,
        run(s).state.max_execution_counter == s.max_execution_counter,
    decreases s.budget(),
{
    if s.halted() {
    } else {
        let t = step(s);
        match t.result {
            Err(e) => {
                match crate::bytecode::decode_instruction(s.code, s.ip as int) {
                    crate::bytecode::Decoded::Done(i, next) => {
                        lemma_execute_bookkeeping(s, i, next as usize);
                    },
                    _ => {},
                }
            },
            Ok(a) => {
                if t.state.executed <= s.max_execution_counter->0 {
                    lemma_watchdog(t.state);
                }
            },
        }
    }
}

/// Whether the machine in state `s` stands at a `Printf` with a value on top
/// of the text `template` in its current frame.
pub open spec fn at_printf(s: VmState, template: Seq<char>) -> bool {
    &&& s.code.len() <= usize::MAX
    &&& !s.watchdog_tripped()
    &&& s.ip < s.code.len()
    &&& s.code[s.ip as int] == PRINTF_CODE
    &&& s.frames.len() > 0
    &&& s.depth() >= 2
    &&& s.pop().top() == SpecValue::Text(template)
}

/// The state after a `Printf` that replaced the placeholder at position `i`
/// of the template: the value and the template are gone from the current
/// frame, the new text is on top of it, the machine stands one byte further
/// and has counted the instruction. Nothing else has changed.
pub open spec fn after_printf(s: VmState, template: Seq<char>, i: int) -> VmState {
    s.pop().pop().push(
        SpecValue::Text(splice_placeholder(template, i, display(s.top()))),
    ).at((s.ip + 1) as usize).counted_after(s)
}

/// A step at `Printf` replaces exactly one placeholder: the first one that
/// fits the value (`%s` for a text, `%d` for an integer). What stands before
/// and behind it in the template is kept as it is, and nothing but the
/// current frame, the instruction pointer and the count of instructions
/// changes; the host is asked for nothing. The step fails with
/// `InvalidTemplate`, and changes nothing, exactly when the template holds no
/// placeholder that fits the value.
pub proof fn lemma_printf_replaces_one(s: VmState, template: Seq<char>)
    requires
        at_printf(s, template),
    ensures
        match step(s).result {
            Ok(a) => a == SpecAction::Continue && exists|i: int|
                placeholder_at(template, i, placeholder_kind(s.top())) && (forall|j: int|
                    0 <= j < i ==> !placeholder_at(template, j, placeholder_kind(s.top())))
                    && step(s).state == after_printf(s, template, i),
            Err(e) => e == SpecVMError::InvalidTemplate(template) && step(s).state == s
                && forall|j: int| !placeholder_at(template, j, placeholder_kind(s.top())),
        },
{
    reveal(execute);
    let kind = placeholder_kind(s.top());
    assert(decode_instruction(s.code, s.ip as int) == Decoded::Done(
        SpecInstruction::Printf,
        s.ip + 1,
    ));
    lemma_find_placeholder(template, kind, 0);
    assert forall|j: int| j < 0 implies !placeholder_at(template, j, kind) by {}
    match find_placeholder(template, kind, 0) {
        Some(i) => {
            assert(step(s).state == after_printf(s, template, i));
        },
        None => {},
    }
}

/// Where the template holds exactly one placeholder that fits the value, at
/// position `k`, a step at `Printf` succeeds and replaces that placeholder.
pub proof fn lemma_printf_single_placeholder(s: VmState, template: Seq<char>, k: int)
    requires
        at_printf(s, template),
        placeholder_at(template, k, placeholder_kind(s.top())),
        forall|j: int| j != k ==> !placeholder_at(template, j, placeholder_kind(s.top())),
    ensures
        step(s).result == Ok::<SpecAction, SpecVMError>(SpecAction::Continue),
        step(s).state == after_printf(s, template, k),
{
    lemma_printf_replaces_one(s, template);
}

/// Whether the machine in state `s` executes `program` and stands, with
/// its instruction pointer and all its return addresses, at starts of
/// instructions.
pub open spec fn aligned(program: Seq<SpecInstruction>, s: VmState) -> bool {
    &&& all_well_sized(program)
    &&& encode_stream(program).len() <= usize::MAX
    &&& s.code == encode_stream(program)
    &&& s.labels == label_to_offset(program)
    &&& is_boundary(program, s.ip as int)
    &&& forall|i: int|
        0 <= i < s.return_addresses.len() ==> is_boundary(
            program,
            #[trigger] s.return_addresses[i] as int,
        )
}

/// Where an instruction can lead: to the instruction behind it, to a label,
/// to the latest return address, or nowhere. What it can do to the return
/// addresses: nothing, add the offset behind it or its own offset, or take
/// the latest one away. It leaves the image and the labels alone.
pub proof fn lemma_execute_moves(s: VmState, i: SpecInstruction, next: usize)
    requires
        execute(s, i, next).result is Ok,
    ensures
        execute(s, i, next).state.code == s.code,
        execute(s, i, next).state.labels == s.labels,
        ({
            let after = execute(s, i, next).state;
            ||| after.ip == next
            ||| after.ip == s.ip
            ||| exists|l: Seq<char>| #[trigger] s.labels.contains_key(l) && after.ip == s.labels[l]
            ||| s.return_addresses.len() > 0 && after.ip == s.return_addresses.last()
        }),
        ({
            let after = execute(s, i, next).state;
            ||| after.return_addresses == s.return_addresses
            ||| after.return_addresses == s.return_addresses.push(next)
            ||| after.return_addresses == s.return_addresses.push(s.ip)
            ||| s.return_addresses.len() > 0 && after.return_addresses
                == s.return_addresses.drop_last()
        }),
{
    reveal(execute);
    match i {
        SpecInstruction::JmpIfZero(l) => {
            assert(execute(s, i, next).state.ip == next || s.labels.contains_key(l));
        },
        SpecInstruction::Jump(l) => {
            assert(s.labels.contains_key(l));
        },
        SpecInstruction::Call(l) => {
            assert(s.labels.contains_key(l));
        },
        SpecInstruction::CheckInterrupt => {
            if execute(s, i, next).state.ip != s.ip {
                let l = crate::vm::state::entry_label(s.inbox->0[0]);
                assert(s.labels.contains_key(l));
            }
        },
        _ => {},
    }
}

/// A machine that stands at starts of instructions keeps doing so.
pub proof fn lemma_step_keeps_aligned(program: Seq<SpecInstruction>, s: VmState)
    requires
        aligned(program, s),
        step(s).result is Ok,
    ensures
        aligned(program, step(s).state),
{
    let k = choose|k: int| 0 <= k <= program.len() && s.ip as int == #[trigger] offset_of(
        program,
        k,
    );
    lemma_offset_of_end(program);
    if k < program.len() {
        lemma_decode_at_offset(program, k);
        let next = offset_of(program, k + 1) as usize;
        let after = execute(s, program[k], next).state;
        lemma_execute_moves(s, program[k], next);
        lemma_execute_bookkeeping(s, program[k], next);
        assert(is_boundary(program, next as int));
        assert(is_boundary(program, after.ip as int)) by {
            if after.ip != next && after.ip != s.ip && !(s.return_addresses.len() > 0 && after.ip
                == s.return_addresses.last()) {
                let l = choose|l: Seq<char>| #[trigger]
                    s.labels.contains_key(l) && after.ip == s.labels[l];
                lemma_labels_are_boundaries(program, l);
            }
        }
        assert forall|i: int| 0 <= i < after.return_addresses.len() implies is_boundary(
            program,
            #[trigger] after.return_addresses[i] as int,
        ) by {
            if i < s.return_addresses.len() {
                assert(after.return_addresses[i] == s.return_addresses[i]);
            }
        }
        assert(step(s).state.ip == after.ip);
        assert(step(s).state.return_addresses == after.return_addresses);
    }
}

/// A machine that stands at the start of an instruction reads that
/// instruction: its steps never fail with `IPOutOfBounds` or
/// `InvalidInstruction` before the end of the program.
pub proof fn lemma_aligned_machine_decodes(program: Seq<SpecInstruction>, s: VmState)
    requires
        aligned(program, s),
        !s.halted(),
    ensures
        !(step(s).result matches Err(SpecVMError::IPOutOfBounds(_, _))),
        !(step(s).result matches Err(SpecVMError::InvalidInstruction(_))),
{
    reveal(execute);
    let k = choose|k: int| 0 <= k <= program.len() && s.ip as int == #[trigger] offset_of(
        program,
        k,
    );
    lemma_offset_of_end(program);
    lemma_decode_at_offset(program, k);
}

/// Where no frame is dropped by `Pop`, the call stack holds one frame more
/// than there are return addresses, before and after every instruction.
pub proof fn lemma_call_depth(s: VmState, i: SpecInstruction, next: usize)
    requires
        s.frames.len() == s.return_addresses.len() + 1,
        !(i is Pop),
    ensures
        execute(s, i, next).state.frames.len() == execute(s, i, next).state.return_addresses.len()
            + 1,
{
    reveal(execute);
}

/// The code of a remote call, `Push(service); Push(method); RemoteCall`,
/// executed inside a labelled function by a worker that can send calls and
/// records no spans, asks the host to send the call and leaves the call
/// stack as it found it.
pub proof fn lemma_remote_call_statement(
    s: VmState,
    service: Seq<char>,
    method: Seq<char>,
    n1: usize,
    n2: usize,
    n3: usize,
)
    requires
        s.frames.len() > 0,
        s.remote_tx,
        !s.tracing,
        crate::vm::state::enclosing_label(s.label_index, n2 as int) is Some,
    ensures
        ({
            let s1 = execute(s, SpecInstruction::Push(SpecValue::Text(service)), n1).state;
            let s2 = execute(s1, SpecInstruction::Push(SpecValue::Text(method)), n2).state;
            let called = execute(s2, SpecInstruction::RemoteCall, n3);
            &&& called.result == Ok::<SpecAction, SpecVMError>(
                SpecAction::RemoteCall {
                    message: SpecServiceMessage::Call { to: service, function: method },
                    span: None,
                },
            )
            &&& called.state == s.at(n3)
        }),
{
    reveal(execute);
    let s1 = s.push(SpecValue::Text(service));
    lemma_push_pop(s, SpecValue::Text(service));
    lemma_push_pop(s1, SpecValue::Text(method));
}

} // verus!
