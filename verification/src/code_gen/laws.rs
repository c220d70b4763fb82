//! Laws of generated code.

use crate::bytecode::label_to_offset;
use crate::bytecode::laws::lemma_label_keys;
use crate::code_gen::instruction::SpecInstruction;
use crate::code_gen::log_byte_code::{lower_task, print_statement, var_prints, var_stores};
use crate::code_gen::service_byte_code;
use crate::config::{SpecCall, SpecTask};
use crate::code_gen::{
    lower_main, lower_method, lower_methods, lower_print_args, lower_service, lower_statements,
    main_label, start_label, PrintType,
};
use crate::parser::grammar::{SpecMethod, SpecService, SpecStatement};
use vstd::prelude::*;

verus! {

/// Whether instruction `i` transfers control to the label `l`.
pub open spec fn targets(i: SpecInstruction, l: Seq<char>) -> bool {
    i == SpecInstruction::Jump(l) || i == SpecInstruction::JmpIfZero(l) || i
        == SpecInstruction::Call(l)
}

/// Whether instruction `i` transfers control to a label.
pub open spec fn is_transfer(i: SpecInstruction) -> bool {
    i is Jump || i is JmpIfZero || i is Call
}

/// Whether no instruction of `code` transfers control to a label.
pub open spec fn straight(code: Seq<SpecInstruction>) -> bool {
    forall|k: int| 0 <= k < code.len() ==> !is_transfer(#[trigger] code[k])
}

/// Whether `code` holds a `Label` instruction for `l`.
pub open spec fn defines(code: Seq<SpecInstruction>, l: Seq<char>) -> bool {
    code.contains(SpecInstruction::Label(l))
}

/// Whether every label that an instruction of `code` transfers control to
/// is a key of the label map of `code`.
pub open spec fn targets_defined(code: Seq<SpecInstruction>) -> bool {
    forall|k: int, l: Seq<char>|
        0 <= k < code.len() && targets(#[trigger] code[k], l) ==> #[trigger] label_to_offset(
            code,
        ).contains_key(l)
}

/// Whether the method that the loop of the service calls is a method of the
/// service.
pub open spec fn loop_calls_own_method(s: SpecService) -> bool {
    s.loops.len() > 0 && s.loops[0].statements.len() > 0 ==> (s.loops[0].statements[0] matches SpecStatement::Call {
        service: None,
        method,
    } ==> exists|j: int| 0 <= j < s.methods.len() && #[trigger] s.methods[j].name == method)
}

/// What a part of the code defines, the whole defines.
pub proof fn lemma_defines_concat(a: Seq<SpecInstruction>, b: Seq<SpecInstruction>, l: Seq<char>)
    ensures
        defines(a, l) ==> defines(a + b, l),
        defines(b, l) ==> defines(a + b, l),
{
    if defines(a, l) {
        let j = choose|j: int| 0 <= j < a.len() && a[j] == SpecInstruction::Label(l);
        assert((a + b)[j] == SpecInstruction::Label(l));
    }
    if defines(b, l) {
        let j = choose|j: int| 0 <= j < b.len() && b[j] == SpecInstruction::Label(l);
        assert((a + b)[a.len() as int + j] == SpecInstruction::Label(l));
    }
}

/// The code that prints for each argument transfers control nowhere.
proof fn lemma_print_args_straight(message: Seq<char>, args: Seq<Seq<char>>, print_type: PrintType)
    ensures
        straight(lower_print_args(message, args, print_type)),
    decreases args.len(),
{
    if args.len() > 0 {
        lemma_print_args_straight(message, args.drop_last(), print_type);
    }
}

/// The code of the statements of a method transfers control nowhere.
pub proof fn lemma_statements_straight(statements: Seq<SpecStatement>)
    requires
        lower_statements(statements) is Ok,
    ensures
        straight(lower_statements(statements)->Ok_0),
    decreases statements.len(),
{
    if statements.len() > 0 {
        lemma_statements_straight(statements.drop_last());
        match statements.last() {
            SpecStatement::Stdout { message, args } => {
                if args is Some {
                    lemma_print_args_straight(message, args->0, PrintType::Stdout);
                }
            },
            SpecStatement::Stderr { message, args } => {
                if args is Some {
                    lemma_print_args_straight(message, args->0, PrintType::Stderr);
                }
            },
            _ => {},
        }
    }
}

/// The code of the methods transfers control nowhere and defines the start
/// label of each method.
pub proof fn lemma_methods_shape(methods: Seq<SpecMethod>)
    requires
        lower_methods(methods) is Ok,
    ensures
        straight(lower_methods(methods)->Ok_0),
        forall|j: int|
            0 <= j < methods.len() ==> defines(
                lower_methods(methods)->Ok_0,
                start_label(#[trigger] methods[j].name),
            ),
    decreases methods.len(),
{
    if methods.len() > 0 {
        let before = lower_methods(methods.drop_last())->Ok_0;
        let last = lower_method(methods.last())->Ok_0;
        lemma_methods_shape(methods.drop_last());
        lemma_statements_straight(methods.last().statements);
        assert(last[0] == SpecInstruction::Label(start_label(methods.last().name)));
        assert forall|j: int| 0 <= j < methods.len() implies defines(
            before + last,
            start_label(#[trigger] methods[j].name),
        ) by {
            lemma_defines_concat(before, last, start_label(methods[j].name));
            if j < methods.len() - 1 {
                assert(methods.drop_last()[j] == methods[j]);
            }
        }
    }
}

/// In the code of a service every jump and every call leads to a label of
/// that code, provided that the loop of the service calls one of its own
/// methods. (Which method a loop names is not checked when code is
/// generated; a call of a method that the service lacks fails when it is
/// executed.)
pub proof fn lemma_jump_targets_are_labels(s: SpecService)
    requires
        lower_service(s) is Ok,
        loop_calls_own_method(s),
    ensures
        targets_defined(lower_service(s)->Ok_0),
{
    let code = lower_service(s)->Ok_0;
    let methods = lower_methods(s.methods)->Ok_0;
    let main = lower_main(s)->Ok_0;
    let head = seq![
        SpecInstruction::Label(start_label(s.name)),
        SpecInstruction::Jump(main_label(s.name)),
    ];
    let mid = seq![SpecInstruction::Label(main_label(s.name))];
    lemma_methods_shape(s.methods);
    assert(code[(head.len() + methods.len()) as int] == SpecInstruction::Label(main_label(s.name)));
    assert(defines(code, main_label(s.name)));
    assert forall|k: int, l: Seq<char>|
        0 <= k < code.len() && targets(#[trigger] code[k], l) implies #[trigger] label_to_offset(
        code,
    ).contains_key(l) by {
        let m0 = head.len() as int;
        let m1 = m0 + methods.len() as int;
        let m2 = m1 + 1;
        let m3 = m2 + main.len() as int;
        if k < m0 {
            assert(l == main_label(s.name));
        } else if k < m1 {
            assert(code[k] == methods[k - m0]);
        } else if k < m2 {
        } else if k < m3 {
            assert(code[k] == main[k - m2]);
            if s.loops.len() > 0 {
                let called = s.loops[0].statements[0]->Call_method;
                if l == "start_loop"@ {
                    assert(main[0] == SpecInstruction::Label("start_loop"@));
                    assert(code[m2] == main[0]);
                } else {
                    assert(l == start_label(called));
                    let j = choose|j: int|
                        0 <= j < s.methods.len() && #[trigger] s.methods[j].name == called;
                    assert(defines(methods, start_label(s.methods[j].name)));
                    lemma_defines_concat(head, methods, l);
                    lemma_defines_concat(head + methods, mid + main + seq![
                        SpecInstruction::Label(crate::code_gen::main_end_label(s.name)),
                        SpecInstruction::Label(crate::code_gen::end_label(s.name)),
                    ], l);
                    assert(code =~= (head + methods) + (mid + main + seq![
                        SpecInstruction::Label(crate::code_gen::main_end_label(s.name)),
                        SpecInstruction::Label(crate::code_gen::end_label(s.name)),
                    ]));
                }
            } else {
                assert(l == main_label(s.name));
            }
        } else {
        }
        lemma_label_keys(code, l);
    }
}

/// The code that stores the variables of a task transfers control nowhere.
proof fn lemma_var_stores_straight(vars: Seq<Seq<char>>, k: int)
    ensures
        straight(var_stores(vars, k)),
    decreases k,
{
    if k > 0 {
        lemma_var_stores_straight(vars, k - 1);
    }
}

/// The code that logs for each variable of a task transfers control
/// nowhere.
proof fn lemma_var_prints_straight(task: SpecTask, k: int)
    ensures
        straight(var_prints(task, k)),
    decreases k,
{
    if k > 0 {
        lemma_var_prints_straight(task, k - 1);
    }
}

/// In the code of a log task every jump leads to a label of that code.
pub proof fn lemma_task_jump_targets_are_labels(task: SpecTask)
    requires
        lower_task(task) is Ok,
    ensures
        targets_defined(lower_task(task)->Ok_0),
{
    let code = lower_task(task)->Ok_0;
    let stores = var_stores(task.vars, task.vars.len() as int);
    let prints = print_statement(task);
    lemma_var_stores_straight(task.vars, task.vars.len() as int);
    lemma_var_prints_straight(task, task.vars.len() as int);
    let a = 2 + stores.len() as int;
    let head: int = if task.count is Amount {
        5
    } else {
        1
    };
    let b = a + head;
    let c = b + prints.len() as int;
    let to_loop = crate::code_gen::log_byte_code::loop_label(task.name);
    let to_end = crate::code_gen::log_byte_code::end_label(task.name);
    let loop_at = if task.count is Amount {
        a + 1
    } else {
        a
    };
    assert(code[loop_at] == SpecInstruction::Label(to_loop));
    assert(code[c + 1] == SpecInstruction::Label(to_end));
    assert forall|k: int, l: Seq<char>|
        0 <= k < code.len() && targets(#[trigger] code[k], l) implies #[trigger] label_to_offset(
        code,
    ).contains_key(l) by {
        if 2 <= k < a {
            assert(code[k] == stores[k - 2]);
        } else if b <= k < c {
            assert(code[k] == prints[k - b]);
        }
        assert(l == to_loop || l == to_end);
        lemma_label_keys(code, l);
    }
}

/// The code of the calls of a method transfers control nowhere.
proof fn lemma_calls_straight(calls: Seq<SpecCall>, k: int)
    ensures
        straight(service_byte_code::lower_calls(calls, k)),
    decreases k,
{
    if k > 0 {
        lemma_calls_straight(calls, k - 1);
    }
}

/// The code of the methods of a declared service jumps only to `main` and
/// defines a label for each method.
proof fn lemma_declared_methods_shape(methods: Seq<crate::config::SpecMethod>, k: int)
    requires
        0 <= k <= methods.len(),
    ensures
        forall|i: int, l: Seq<char>|
            0 <= i < service_byte_code::lower_methods(methods, k).len() && #[trigger] targets(
                service_byte_code::lower_methods(methods, k)[i],
                l,
            ) ==> l == "main"@,
        forall|j: int|
            0 <= j < k ==> defines(
                service_byte_code::lower_methods(methods, k),
                #[trigger] methods[j].name,
            ),
    decreases k,
{
    if k > 0 {
        let before = service_byte_code::lower_methods(methods, k - 1);
        let m = methods[k - 1];
        let last = service_byte_code::lower_method(m);
        lemma_declared_methods_shape(methods, k - 1);
        if m.calls is Some {
            lemma_calls_straight(m.calls->0, m.calls->0.len() as int);
        }
        let calls = match m.calls {
            Some(calls) => service_byte_code::lower_calls(calls, calls.len() as int),
            None => Seq::<SpecInstruction>::empty(),
        };
        let n = last.len() as int;
        assert(last[0] == SpecInstruction::Label(m.name));
        assert forall|i: int, l: Seq<char>| 0 <= i < n && #[trigger] targets(last[i], l) implies l
            == "main"@ by {
            let c0 = n - 2 - calls.len();
            if c0 <= i < n - 2 {
                assert(last[i] == calls[i - c0]);
            }
        }
        assert forall|j: int| 0 <= j < k implies defines(
            before + last,
            #[trigger] methods[j].name,
        ) by {
            lemma_defines_concat(before, last, methods[j].name);
        }
        assert forall|i: int, l: Seq<char>|
            0 <= i < (before + last).len() && #[trigger] targets((before + last)[i], l) implies l
            == "main"@ by {
            if i < before.len() {
                assert((before + last)[i] == before[i]);
            } else {
                assert((before + last)[i] == last[i - before.len()]);
            }
        }
    }
}

/// The jumps to the first `k` methods lead to the names of those methods.
proof fn lemma_method_jumps(methods: Seq<crate::config::SpecMethod>, k: int)
    requires
        0 <= k <= methods.len(),
    ensures
        service_byte_code::method_jumps(methods, k).len() == k,
        forall|i: int|
            0 <= i < k ==> #[trigger] service_byte_code::method_jumps(methods, k)[i]
                == SpecInstruction::Jump(methods[i].name),
    decreases k,
{
    if k > 0 {
        lemma_method_jumps(methods, k - 1);
    }
}

/// In the code of a declared service every jump leads to a label of that
/// code.
pub proof fn lemma_declared_service_jump_targets_are_labels(s: crate::config::SpecService)
    ensures
        targets_defined(service_byte_code::lower_service(s)),
{
    let code = service_byte_code::lower_service(s);
    let n = s.methods.len() as int;
    let methods = service_byte_code::lower_methods(s.methods, n);
    let jumps = service_byte_code::method_jumps(s.methods, n);
    let head = seq![SpecInstruction::StoreVar("name"@, s.name), SpecInstruction::Jump("main"@)];
    let tail = seq![SpecInstruction::Label("main"@)] + jumps + seq![
        SpecInstruction::Label("end_main"@),
    ];
    lemma_declared_methods_shape(s.methods, n);
    lemma_method_jumps(s.methods, n);
    let m0 = 2 + methods.len() as int;
    assert(code[m0] == SpecInstruction::Label("main"@));
    assert(code =~= (head + methods) + tail);
    assert forall|k: int, l: Seq<char>|
        0 <= k < code.len() && targets(#[trigger] code[k], l) implies #[trigger] label_to_offset(
        code,
    ).contains_key(l) by {
        if 2 <= k < m0 {
            assert(code[k] == methods[k - 2]);
        } else if m0 < k < m0 + 1 + n {
            let j = k - m0 - 1;
            assert(code[k] == jumps[j]);
            assert(defines(methods, s.methods[j].name));
            lemma_defines_concat(head, methods, l);
            lemma_defines_concat(head + methods, tail, l);
        }
        lemma_label_keys(code, l);
    }
}

} // verus!
