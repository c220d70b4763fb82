//! What generated code does when it is executed: the code of print and
//! sleep statements asks the host for exactly what the statements say, in
//! their order.

use crate::code_gen::instruction::{SpecInstruction, SpecValue};
use crate::code_gen::{
    lower_print_args, lower_statement, lower_statements, print_instruction, PrintType,
};
use crate::parser::grammar::SpecStatement;
use crate::text::substitute_first;
use crate::vm::state::{effects, execute, lemma_push_pop, VmState};
use crate::vm::{SpecAction, SpecPrintMessage, SpecVMError};
use vstd::prelude::*;

verus! {

/// What a piece of code asks the host to do, in order, and the error that
/// stops it, if one does.
pub struct Effects {
    pub actions: Seq<SpecAction>,
    pub error: Option<SpecVMError>,
}

/// `first`, and behind it `second` unless `first` was stopped by an error.
pub open spec fn followed_by(first: Effects, second: Effects) -> Effects {
    if first.error is Some {
        first
    } else {
        Effects { actions: first.actions + second.actions, error: second.error }
    }
}

/// No effect.
pub open spec fn nothing() -> Effects {
    Effects { actions: Seq::<SpecAction>::empty(), error: None }
}

/// One action.
pub open spec fn only(action: SpecAction) -> Effects {
    Effects { actions: seq![action], error: None }
}

/// Stopped by an error.
pub open spec fn stopped(error: SpecVMError) -> Effects {
    Effects { actions: Seq::<SpecAction>::empty(), error: Some(error) }
}

/// The request to print a line on a channel.
pub open spec fn print_action(print_type: PrintType, line: Seq<char>) -> SpecAction {
    match print_type {
        PrintType::Stdout => SpecAction::Print(SpecPrintMessage::Stdout(line)),
        PrintType::Stderr => SpecAction::Print(SpecPrintMessage::Stderr(line)),
    }
}

/// What printing `message` for one argument does: it prints the message
/// with its first `%s` replaced by the argument, or stops where the message
/// holds no `%s`.
pub open spec fn argument_effects(message: Seq<char>, arg: Seq<char>, print_type: PrintType)
    -> Effects {
    match substitute_first(message, 's', arg) {
        Some(line) => only(print_action(print_type, line)),
        None => stopped(SpecVMError::InvalidTemplate(message)),
    }
}

/// What printing `message` for each argument does.
pub open spec fn arguments_effects(
    message: Seq<char>,
    args: Seq<Seq<char>>,
    print_type: PrintType,
) -> Effects
    decreases args.len(),
{
    if args.len() == 0 {
        nothing()
    } else {
        followed_by(
            arguments_effects(message, args.drop_last(), print_type),
            argument_effects(message, args.last(), print_type),
        )
    }
}

/// What a print statement does.
pub open spec fn print_effects(
    message: Seq<char>,
    args: Option<Seq<Seq<char>>>,
    print_type: PrintType,
) -> Effects {
    match args {
        Some(list) => arguments_effects(message, list, print_type),
        None => only(print_action(print_type, message)),
    }
}

/// What a print or a sleep statement does.
pub open spec fn statement_effects(s: SpecStatement) -> Effects
    recommends
        !(s is Call),
{
    match s {
        SpecStatement::Stdout { message, args } => print_effects(message, args, PrintType::Stdout),
        SpecStatement::Stderr { message, args } => print_effects(message, args, PrintType::Stderr),
        SpecStatement::Sleep { duration } => only(SpecAction::Sleep(duration)),
        SpecStatement::Call { .. } => nothing(),
    }
}

/// What a run of print and sleep statements does: each in turn, up to the
/// first that is stopped.
pub open spec fn statements_effects(statements: Seq<SpecStatement>) -> Effects
    decreases statements.len(),
{
    if statements.len() == 0 {
        nothing()
    } else {
        followed_by(statements_effects(statements.drop_last()), statement_effects(statements.last()))
    }
}

/// The state after the instructions of `code` were executed one after the
/// other, and what they did. `ends[i]` is the offset behind instruction `i`.
/// An instruction that fails stops the execution and leaves the state as it
/// was before it.
pub open spec fn straight_run(s: VmState, code: Seq<SpecInstruction>, ends: Seq<usize>) -> (
    VmState,
    Effects,
)
    recommends
        ends.len() == code.len(),
    decreases code.len(),
{
    if code.len() == 0 {
        (s, nothing())
    } else {
        let before = straight_run(s, code.drop_last(), ends.drop_last());
        if before.1.error is Some {
            before
        } else {
            let t = execute(before.0, code.last(), ends.last());
            match t.result {
                Ok(a) => (
                    t.state,
                    Effects { actions: before.1.actions + effects(a), error: None },
                ),
                Err(e) => (before.0, Effects { actions: before.1.actions, error: Some(e) }),
            }
        }
    }
}

/// Executing two pieces of code one after the other is executing their
/// concatenation.
pub proof fn lemma_straight_run_concat(
    s: VmState,
    a: Seq<SpecInstruction>,
    ends_a: Seq<usize>,
    b: Seq<SpecInstruction>,
    ends_b: Seq<usize>,
)
    requires
        ends_a.len() == a.len(),
        ends_b.len() == b.len(),
    ensures
        straight_run(s, a + b, ends_a + ends_b) == if straight_run(s, a, ends_a).1.error is Some {
            straight_run(s, a, ends_a)
        } else {
            (
                straight_run(straight_run(s, a, ends_a).0, b, ends_b).0,
                followed_by(
                    straight_run(s, a, ends_a).1,
                    straight_run(straight_run(s, a, ends_a).0, b, ends_b).1,
                ),
            )
        },
    decreases b.len(),
{
    let first = straight_run(s, a, ends_a);
    if b.len() == 0 {
        assert(a + b =~= a);
        assert(ends_a + ends_b =~= ends_a);
        assert(first.1.actions + Seq::<SpecAction>::empty() =~= first.1.actions);
    } else {
        lemma_straight_run_concat(s, a, ends_a, b.drop_last(), ends_b.drop_last());
        assert((a + b).drop_last() =~= a + b.drop_last());
        assert((ends_a + ends_b).drop_last() =~= ends_a + ends_b.drop_last());
        let second = straight_run(first.0, b.drop_last(), ends_b.drop_last());
        if first.1.error is None && second.1.error is None {
            let t = execute(second.0, b.last(), ends_b.last());
            match t.result {
                Ok(x) => {
                    assert(first.1.actions + second.1.actions + effects(x) =~= first.1.actions + (
                    second.1.actions + effects(x)));
                },
                Err(e) => {},
            }
        }
    }
}

/// The code that prints a line as it is, `Push(line); Stdout` or `Push(line);
/// Stderr`, prints the line and leaves the call stack as it found it.
pub proof fn lemma_run_plain_print(
    s: VmState,
    line: Seq<char>,
    print_type: PrintType,
    ends: Seq<usize>,
)
    requires
        s.frames.len() > 0,
        ends.len() == 2,
    ensures
        straight_run(
            s,
            seq![SpecInstruction::Push(SpecValue::Text(line)), print_instruction(print_type)],
            ends,
        ) == (s.at(ends[1]), only(print_action(print_type, line))),
{
    reveal(execute);
    reveal_with_fuel(straight_run, 3);
    let code = seq![SpecInstruction::Push(SpecValue::Text(line)), print_instruction(print_type)];
    assert(code.drop_last() =~= seq![SpecInstruction::Push(SpecValue::Text(line))]);
    assert(code.drop_last().drop_last() =~= Seq::<SpecInstruction>::empty());
    lemma_push_pop(s, SpecValue::Text(line));
    let done = straight_run(s, code, ends);
    assert(done.1.actions =~= seq![print_action(print_type, line)]);
}

/// The code that prints a message for one argument, `Push(message);
/// Push(arg); Printf` and the print instruction, does what
/// `argument_effects` says. Where it is not stopped, it leaves the call
/// stack as it found it.
pub proof fn lemma_run_argument(
    s: VmState,
    message: Seq<char>,
    arg: Seq<char>,
    print_type: PrintType,
    ends: Seq<usize>,
)
    requires
        s.frames.len() > 0,
        ends.len() == 4,
    ensures
        ({
            let done = straight_run(
                s,
                seq![
                    SpecInstruction::Push(SpecValue::Text(message)),
                    SpecInstruction::Push(SpecValue::Text(arg)),
                    SpecInstruction::Printf,
                    print_instruction(print_type),
                ],
                ends,
            );
            &&& done.1 == argument_effects(message, arg, print_type)
            &&& done.1.error is None ==> done.0 == s.at(ends[3])
            &&& done.0.frames.len() > 0
        }),
{
    reveal(execute);
    reveal_with_fuel(straight_run, 5);
    let code = seq![
        SpecInstruction::Push(SpecValue::Text(message)),
        SpecInstruction::Push(SpecValue::Text(arg)),
        SpecInstruction::Printf,
        print_instruction(print_type),
    ];
    let c3 = code.drop_last();
    let c2 = c3.drop_last();
    let c1 = c2.drop_last();
    assert(c1.drop_last() =~= Seq::<SpecInstruction>::empty());
    assert(c1.last() == code[0]);
    assert(c2.last() == code[1]);
    assert(c3.last() == code[2]);
    let s1 = s.push(SpecValue::Text(message));
    lemma_push_pop(s, SpecValue::Text(message));
    lemma_push_pop(s1, SpecValue::Text(arg));
    let e3 = ends.drop_last();
    let e2 = e3.drop_last();
    let e1 = e2.drop_last();
    let r1 = straight_run(s, c1, e1);
    assert(r1.1.actions =~= Seq::<SpecAction>::empty());
    let r2 = straight_run(s, c2, e2);
    assert(r2.1.actions =~= Seq::<SpecAction>::empty());
    let r3 = straight_run(s, c3, e3);
    assert(r3.1.actions =~= Seq::<SpecAction>::empty());
    match substitute_first(message, 's', arg) {
        Some(line) => {
            lemma_push_pop(s, SpecValue::Text(line));
            let done = straight_run(s, code, ends);
            assert(done.1.actions =~= seq![print_action(print_type, line)]);
        },
        None => {},
    }
}

/// The state `s` at the last of the offsets, or `s` itself where there is
/// none: where straight code leaves a machine whose call stack it does not
/// change.
pub open spec fn landed(s: VmState, ends: Seq<usize>) -> VmState {
    if ends.len() == 0 {
        s
    } else {
        s.at(ends.last())
    }
}

/// The code that prints a message for each argument does what
/// `arguments_effects` says. Where it is not stopped, it leaves the call
/// stack as it found it.
pub proof fn lemma_run_arguments(
    s: VmState,
    message: Seq<char>,
    args: Seq<Seq<char>>,
    print_type: PrintType,
    ends: Seq<usize>,
)
    requires
        s.frames.len() > 0,
        ends.len() == lower_print_args(message, args, print_type).len(),
    ensures
        ({
            let done = straight_run(s, lower_print_args(message, args, print_type), ends);
            &&& done.1 == arguments_effects(message, args, print_type)
            &&& done.1.error is None ==> done.0 == landed(s, ends)
            &&& done.0.frames.len() > 0
        }),
    decreases args.len(),
{
    if args.len() > 0 {
        let before = lower_print_args(message, args.drop_last(), print_type);
        let block = seq![
            SpecInstruction::Push(SpecValue::Text(message)),
            SpecInstruction::Push(SpecValue::Text(args.last())),
            SpecInstruction::Printf,
            print_instruction(print_type),
        ];
        let n = before.len() as int;
        let ends_a = ends.take(n);
        let ends_b = ends.skip(n);
        assert(ends =~= ends_a + ends_b);
        lemma_run_arguments(s, message, args.drop_last(), print_type, ends_a);
        let first = straight_run(s, before, ends_a);
        lemma_run_argument(first.0, message, args.last(), print_type, ends_b);
        lemma_straight_run_concat(s, before, ends_a, block, ends_b);
        assert(ends_b[3] == ends.last());
    }
}

/// The code of a print or a sleep statement does what `statement_effects`
/// says. Where it is not stopped, it leaves the call stack as it found it.
pub proof fn lemma_run_statement(s: VmState, statement: SpecStatement, ends: Seq<usize>)
    requires
        !(statement is Call),
        s.frames.len() > 0,
        ends.len() == lower_statement(statement)->Ok_0.len(),
    ensures
        ({
            let done = straight_run(s, lower_statement(statement)->Ok_0, ends);
            &&& lower_statement(statement) is Ok
            &&& done.1 == statement_effects(statement)
            &&& done.1.error is None ==> done.0 == landed(s, ends)
            &&& done.0.frames.len() > 0
        }),
{
    match statement {
        SpecStatement::Stdout { message, args } => {
            match args {
                Some(list) => {
                    lemma_run_arguments(s, message, list, PrintType::Stdout, ends);
                },
                None => {
                    lemma_run_plain_print(s, message, PrintType::Stdout, ends);
                },
            }
        },
        SpecStatement::Stderr { message, args } => {
            match args {
                Some(list) => {
                    lemma_run_arguments(s, message, list, PrintType::Stderr, ends);
                },
                None => {
                    lemma_run_plain_print(s, message, PrintType::Stderr, ends);
                },
            }
        },
        SpecStatement::Sleep { duration } => {
            reveal(execute);
            reveal_with_fuel(straight_run, 2);
            let code = seq![SpecInstruction::Sleep(duration)];
            assert(code.drop_last() =~= Seq::<SpecInstruction>::empty());
            let done = straight_run(s, code, ends);
            assert(done.1.actions =~= seq![SpecAction::Sleep(duration)]);
        },
        SpecStatement::Call { .. } => {},
    }
}

/// The code of a run of print and sleep statements does what the
/// statements say, in their order, up to the first that is stopped: a print
/// statement whose message has no `%s` for an argument. Where none is
/// stopped, the code leaves the call stack as it found it.
pub proof fn lemma_run_statements(s: VmState, statements: Seq<SpecStatement>, ends: Seq<usize>)
    requires
        forall|i: int| 0 <= i < statements.len() ==> !(#[trigger] statements[i] is Call),
        s.frames.len() > 0,
        ends.len() == lower_statements(statements)->Ok_0.len(),
    ensures
        ({
            let done = straight_run(s, lower_statements(statements)->Ok_0, ends);
            &&& lower_statements(statements) is Ok
            &&& done.1 == statements_effects(statements)
            &&& done.1.error is None ==> done.0 == landed(s, ends)
            &&& done.0.frames.len() > 0
        }),
    decreases statements.len(),
{
    if statements.len() > 0 {
        let rest = statements.drop_last();
        assert forall|i: int| 0 <= i < rest.len() implies !(#[trigger] rest[i] is Call) by {
            assert(rest[i] == statements[i]);
        }
        assert(!(statements[statements.len() - 1] is Call));
        lemma_lowering_succeeds(rest);
        let before = lower_statements(rest)->Ok_0;
        let block = lower_statement(statements.last())->Ok_0;
        let n = before.len() as int;
        let ends_a = ends.take(n);
        let ends_b = ends.skip(n);
        assert(ends =~= ends_a + ends_b);
        lemma_run_statements(s, rest, ends_a);
        let first = straight_run(s, before, ends_a);
        lemma_run_statement(first.0, statements.last(), ends_b);
        lemma_straight_run_concat(s, before, ends_a, block, ends_b);
        if ends_b.len() > 0 {
            assert(ends_b.last() == ends.last());
        } else {
            assert(ends =~= ends_a);
        }
    }
}

/// Print and sleep statements always have code.
pub proof fn lemma_lowering_succeeds(statements: Seq<SpecStatement>)
    requires
        forall|i: int| 0 <= i < statements.len() ==> !(#[trigger] statements[i] is Call),
    ensures
        lower_statements(statements) is Ok,
    decreases statements.len(),
{
    if statements.len() > 0 {
        let rest = statements.drop_last();
        assert forall|i: int| 0 <= i < rest.len() implies !(#[trigger] rest[i] is Call) by {
            assert(rest[i] == statements[i]);
        }
        assert(!(statements[statements.len() - 1] is Call));
        lemma_lowering_succeeds(rest);
    }
}

} // verus!
