use mustermann::bytecode::generate_bytecode;
use mustermann::code_gen::instruction::{Instruction, StackValue};
use mustermann::code_gen::CodeGenerator;
use mustermann::parser;
use mustermann::vm::{Action, PrintMessage, VMError, VM};
use mustermann::vm_coordinator::ServiceMessage;

fn text(s: &str) -> Instruction {
    Instruction::Push(StackValue::String(s.to_string()))
}

fn number(n: u64) -> Instruction {
    Instruction::Push(StackValue::Int(n))
}

fn label(s: &str) -> Instruction {
    Instruction::Label(s.to_string())
}

/// Runs `code` with a limit of 100 instructions.
fn run(code: Vec<Instruction>) -> (Result<(), VMError>, Vec<Action>) {
    VM::new(code, "test").with_max_execution_counter(100).run()
}

fn stdout(line: &str) -> Action {
    Action::Print(PrintMessage::Stdout(line.to_string()))
}

fn stderr(line: &str) -> Action {
    Action::Print(PrintMessage::Stderr(line.to_string()))
}

#[test]
fn test_step_returns_the_action_of_each_instruction() {
    let mut vm = VM::new(vec![text("a"), Instruction::Stdout, Instruction::Sleep(5)], "test");
    assert_eq!(vm.ip(), 0);
    assert!(!vm.finished());
    assert_eq!(vm.current_opcode(), Some(0x01));
    assert_eq!(vm.step(), Ok(Action::Continue));
    assert_eq!(vm.ip(), 10);
    assert_eq!(vm.current_opcode(), Some(0x07));
    assert_eq!(vm.step(), Ok(stdout("a")));
    assert_eq!(vm.ip(), 11);
    assert_eq!(vm.step(), Ok(Action::Sleep(5)));
    assert_eq!(vm.ip(), 28);
    assert!(vm.finished());
    assert_eq!(vm.current_opcode(), None);
    assert_eq!(vm.executed(), 3);
}

#[test]
fn test_step_on_finished_machine() {
    let mut vm = VM::new(vec![Instruction::Dup], "test");
    assert_eq!(vm.step(), Err(VMError::StackUnderflow));
    assert_eq!(vm.ip(), 0);
    assert_eq!(vm.executed(), 0);
    let mut vm = VM::new(vec![label("a")], "test");
    assert_eq!(vm.step(), Ok(Action::Continue));
    assert_eq!(vm.step(), Err(VMError::IPOutOfBounds(10, 10)));
    assert_eq!(vm.executed(), 1);
    let mut vm = VM::new(vec![], "test");
    assert!(vm.finished());
    assert_eq!(vm.step(), Err(VMError::IPOutOfBounds(0, 0)));
}

#[test]
fn test_watchdog_counts_one_more_than_the_limit() {
    for limit in [0usize, 1, 2, 7] {
        let mut vm = VM::new(vec![label("a"), Instruction::Jump("a".to_string())], "test")
            .with_max_execution_counter(limit);
        let (res, _) = vm.run();
        assert_eq!(res, Err(VMError::MaxExecutionCounterReached));
        assert_eq!(vm.executed(), limit + 1);
        assert!(vm.watchdog_tripped());
        assert_eq!(vm.step(), Err(VMError::MaxExecutionCounterReached));
        assert_eq!(vm.executed(), limit + 1);
    }
}

#[test]
fn test_watchdog_is_asked_before_the_end_of_the_program() {
    let code = vec![text("a"), Instruction::Stdout];
    let (res, actions) = VM::new(code.clone(), "test").with_max_execution_counter(1).run();
    assert_eq!(res, Err(VMError::MaxExecutionCounterReached));
    assert_eq!(actions, vec![stdout("a")]);
    let (res, actions) = VM::new(code, "test").with_max_execution_counter(2).run();
    assert_eq!(res, Ok(()));
    assert_eq!(actions, vec![stdout("a")]);
}

#[test]
fn test_pop_drops_the_frame() {
    let mut vm = VM::new(vec![text("a"), Instruction::Pop, text("b")], "test");
    assert_eq!(vm.call_depth(), 1);
    assert_eq!(vm.step(), Ok(Action::Continue));
    assert_eq!(vm.step(), Ok(Action::Continue));
    assert_eq!(vm.call_depth(), 0);
    assert_eq!(vm.step(), Err(VMError::MissingStackFrame));
    let mut vm = VM::new(vec![Instruction::Pop, Instruction::Pop], "test");
    assert_eq!(vm.step(), Ok(Action::Continue));
    assert_eq!(vm.step(), Ok(Action::Continue));
    assert_eq!(vm.call_depth(), 0);
}

#[test]
fn test_missing_stack_frame() {
    for instruction in [
        text("a"),
        Instruction::Dec,
        Instruction::JmpIfZero("a".to_string()),
        Instruction::Stdout,
        Instruction::Stderr,
        Instruction::Dup,
        Instruction::Printf,
    ] {
        let (res, _) = run(vec![Instruction::Pop, instruction]);
        assert_eq!(res, Err(VMError::MissingStackFrame));
    }
    let (res, _) = run(vec![Instruction::Ret]);
    assert_eq!(res, Err(VMError::MissingStackFrame));
}

#[test]
fn test_stack_underflow() {
    for instruction in [
        Instruction::Dec,
        Instruction::JmpIfZero("a".to_string()),
        Instruction::Stdout,
        Instruction::Stderr,
        Instruction::Dup,
        Instruction::Printf,
    ] {
        let (res, _) = run(vec![instruction]);
        assert_eq!(res, Err(VMError::StackUnderflow));
    }
    let (res, _) = run(vec![text("only one"), Instruction::Printf]);
    assert_eq!(res, Err(VMError::StackUnderflow));
}

#[test]
fn test_dec() {
    let (res, actions) = run(vec![number(3), Instruction::Dec, Instruction::Stdout]);
    assert_eq!(res, Ok(()));
    assert_eq!(actions, vec![stdout("2")]);
    let (res, _) = run(vec![number(0), Instruction::Dec]);
    assert_eq!(res, Err(VMError::InvalidStackValue));
    let (res, _) = run(vec![text("3"), Instruction::Dec]);
    assert_eq!(res, Err(VMError::InvalidStackValue));
}

#[test]
fn test_jmp_if_zero_falls_through_on_nonzero() {
    let code = vec![
        text("reached"),
        number(1),
        Instruction::JmpIfZero("end".to_string()),
        Instruction::Stdout,
        label("end"),
    ];
    let (res, actions) = run(code);
    assert_eq!(res, Ok(()));
    assert_eq!(actions, vec![stdout("reached")]);
}

#[test]
fn test_jmp_if_zero_errors() {
    let (res, _) = run(vec![text("0"), Instruction::JmpIfZero("a".to_string()), label("a")]);
    assert_eq!(res, Err(VMError::InvalidStackValue));
    let (res, _) = run(vec![number(0), Instruction::JmpIfZero("nowhere".to_string())]);
    assert_eq!(res, Err(VMError::MissingLabel("nowhere".to_string())));
    // The label is looked up only where the jump is taken.
    let (res, actions) = run(vec![
        text("reached"),
        number(5),
        Instruction::JmpIfZero("nowhere".to_string()),
        Instruction::Stdout,
    ]);
    assert_eq!(res, Ok(()));
    assert_eq!(actions, vec![stdout("reached")]);
}

#[test]
fn test_counted_loop() {
    let code = vec![
        number(3),
        label("loop"),
        Instruction::Dup,
        Instruction::JmpIfZero("end".to_string()),
        Instruction::Dec,
        Instruction::Dup,
        Instruction::Stdout,
        Instruction::Jump("loop".to_string()),
        label("end"),
    ];
    let (res, actions) = run(code);
    assert_eq!(res, Ok(()));
    assert_eq!(actions, vec![stdout("2"), stdout("1"), stdout("0")]);
}

#[test]
fn test_stdout_prints_integers_and_stderr_does_not() {
    let (res, actions) = run(vec![number(18446744073709551615), Instruction::Stdout]);
    assert_eq!(res, Ok(()));
    assert_eq!(actions, vec![stdout("18446744073709551615")]);
    let (res, actions) = run(vec![number(0), Instruction::Stdout]);
    assert_eq!(res, Ok(()));
    assert_eq!(actions, vec![stdout("0")]);
    let (res, actions) = run(vec![text("e"), Instruction::Stderr]);
    assert_eq!(res, Ok(()));
    assert_eq!(actions, vec![stderr("e")]);
    let (res, actions) = run(vec![number(7), Instruction::Stderr]);
    assert_eq!(res, Err(VMError::InvalidStackValue));
    assert!(actions.is_empty());
}

#[test]
fn test_vars() {
    let code = vec![
        Instruction::StoreVar("k".to_string(), "first".to_string()),
        Instruction::StoreVar("k".to_string(), "second".to_string()),
        Instruction::LoadVar("k".to_string()),
        Instruction::Stdout,
        Instruction::LoadVar("other".to_string()),
    ];
    let (res, actions) = run(code);
    assert_eq!(res, Err(VMError::MissingVar("other".to_string())));
    assert_eq!(actions, vec![stdout("second")]);
}

#[test]
fn test_jump_to_missing_label() {
    let (res, _) = run(vec![Instruction::Jump("nowhere".to_string())]);
    assert_eq!(res, Err(VMError::MissingLabel("nowhere".to_string())));
    let (res, _) = run(vec![Instruction::Call("nowhere".to_string())]);
    assert_eq!(res, Err(VMError::MissingLabel("nowhere".to_string())));
}

#[test]
fn test_printf_replaces_only_the_first_placeholder() {
    let code = vec![text("%s and %s"), text("x"), Instruction::Printf, Instruction::Stdout];
    let (res, actions) = run(code);
    assert_eq!(res, Ok(()));
    assert_eq!(actions, vec![stdout("x and %s")]);
    let code = vec![text("a %d b %s c %d"), number(42), Instruction::Printf, Instruction::Stdout];
    let (res, actions) = run(code);
    assert_eq!(res, Ok(()));
    assert_eq!(actions, vec![stdout("a 42 b %s c %d")]);
    let code = vec![text("%%s%s"), text("x"), Instruction::Printf, Instruction::Stdout];
    let (res, actions) = run(code);
    assert_eq!(res, Ok(()));
    assert_eq!(actions, vec![stdout("%x%s")]);
}

#[test]
fn test_printf_needs_a_placeholder_that_fits_the_value() {
    let (res, _) = run(vec![text("%d"), text("x"), Instruction::Printf]);
    assert_eq!(res, Err(VMError::InvalidTemplate("%d".to_string())));
    let (res, _) = run(vec![text("%s"), number(1), Instruction::Printf]);
    assert_eq!(res, Err(VMError::InvalidTemplate("%s".to_string())));
    let (res, _) = run(vec![text("no placeholder"), text("x"), Instruction::Printf]);
    assert_eq!(res, Err(VMError::InvalidTemplate("no placeholder".to_string())));
    let (res, _) = run(vec![text(""), text("x"), Instruction::Printf]);
    assert_eq!(res, Err(VMError::InvalidTemplate("".to_string())));
    let (res, _) = run(vec![text("%"), text("x"), Instruction::Printf]);
    assert_eq!(res, Err(VMError::InvalidTemplate("%".to_string())));
    let (res, _) = run(vec![number(5), text("x"), Instruction::Printf]);
    assert_eq!(res, Err(VMError::InvalidStackValue));
}

#[test]
fn test_failing_step_leaves_the_machine_as_it_was() {
    let mut vm = VM::new(vec![text("none"), text("x"), Instruction::Printf], "test");
    assert_eq!(vm.step(), Ok(Action::Continue));
    assert_eq!(vm.step(), Ok(Action::Continue));
    let ip = vm.ip();
    assert_eq!(vm.step(), Err(VMError::InvalidTemplate("none".to_string())));
    assert_eq!(vm.ip(), ip);
    assert_eq!(vm.executed(), 2);
    assert_eq!(vm.step(), Err(VMError::InvalidTemplate("none".to_string())));
}

#[test]
fn test_call_and_ret_resume_behind_the_call() {
    let code = vec![
        Instruction::Jump("main".to_string()),
        label("f"),
        text("in f"),
        Instruction::Stdout,
        Instruction::Ret,
        label("main"),
        Instruction::Call("f".to_string()),
        text("after"),
        Instruction::Stdout,
    ];
    let (bytes, labels, _) = generate_bytecode(code.clone());
    let call_at = *labels.get("main").unwrap();
    let after_call = call_at + Instruction::Call("f".to_string()).to_bytes().len();
    let mut vm = VM::new(code, "test");
    assert_eq!(vm.step(), Ok(Action::Continue));
    assert_eq!(vm.ip(), call_at);
    let depth = vm.call_depth();
    assert_eq!(vm.step(), Ok(Action::LocalCall("f".to_string())));
    assert_eq!(vm.ip(), *labels.get("f").unwrap());
    assert_eq!(vm.call_depth(), depth + 1);
    assert_eq!(vm.step(), Ok(Action::Continue));
    assert_eq!(vm.step(), Ok(stdout("in f")));
    assert_eq!(vm.step(), Ok(Action::Continue));
    assert_eq!(vm.ip(), after_call);
    assert_eq!(vm.call_depth(), depth);
    assert_eq!(vm.step(), Ok(Action::Continue));
    assert_eq!(vm.step(), Ok(stdout("after")));
    assert_eq!(vm.ip(), bytes.len());
    assert!(vm.finished());
}

#[test]
fn test_nested_calls_return_behind_their_calls() {
    let code = vec![
        Instruction::Jump("main".to_string()),
        label("inner"),
        Instruction::StoreVar("seen".to_string(), "inner".to_string()),
        Instruction::Ret,
        label("outer"),
        Instruction::Call("inner".to_string()),
        text("outer"),
        Instruction::Stdout,
        Instruction::Ret,
        label("main"),
        text("kept"),
        Instruction::Call("outer".to_string()),
        Instruction::LoadVar("seen".to_string()),
        Instruction::Stdout,
        Instruction::Stdout,
    ];
    let (_, labels, _) = generate_bytecode(code.clone());
    let call_at = *labels.get("main").unwrap() + text("kept").to_bytes().len();
    let behind = call_at + Instruction::Call("outer".to_string()).to_bytes().len();
    let mut vm = VM::new(code, "test");
    assert_eq!(vm.step(), Ok(Action::Continue));
    assert_eq!(vm.step(), Ok(Action::Continue));
    assert_eq!(vm.ip(), call_at);
    let depth = vm.call_depth();
    assert_eq!(vm.step(), Ok(Action::LocalCall("outer".to_string())));
    assert_eq!(vm.step(), Ok(Action::LocalCall("inner".to_string())));
    assert_eq!(vm.call_depth(), depth + 2);
    assert_eq!(vm.step(), Ok(Action::Continue));
    assert_eq!(vm.step(), Ok(Action::Continue));
    assert_eq!(vm.call_depth(), depth + 1);
    assert_eq!(vm.step(), Ok(Action::Continue));
    assert_eq!(vm.step(), Ok(stdout("outer")));
    assert_eq!(vm.step(), Ok(Action::Continue));
    // Behind the call of `outer`, at the depth from before it.
    assert_eq!(vm.ip(), behind);
    assert_eq!(vm.call_depth(), depth);
    // What the callee stored is still there, and so is the caller's frame.
    assert_eq!(vm.step(), Ok(Action::Continue));
    assert_eq!(vm.step(), Ok(stdout("inner")));
    assert_eq!(vm.step(), Ok(stdout("kept")));
    assert!(vm.finished());
}

#[test]
fn test_printf_changes_only_the_top_of_the_frame() {
    let code = vec![
        Instruction::StoreVar("v".to_string(), "var".to_string()),
        text("below"),
        text("a %s b"),
        text("X"),
        Instruction::Printf,
        Instruction::Stdout,
        Instruction::Stdout,
        Instruction::LoadVar("v".to_string()),
        Instruction::Stdout,
    ];
    let mut vm = VM::new(code, "test");
    for _ in 0..4 {
        assert_eq!(vm.step(), Ok(Action::Continue));
    }
    let ip = vm.ip();
    let depth = vm.call_depth();
    // Printf asks the host for nothing and moves one byte on.
    assert_eq!(vm.step(), Ok(Action::Continue));
    assert_eq!(vm.ip(), ip + 1);
    assert_eq!(vm.call_depth(), depth);
    assert_eq!(vm.step(), Ok(stdout("a X b")));
    assert_eq!(vm.step(), Ok(stdout("below")));
    assert_eq!(vm.step(), Ok(Action::Continue));
    assert_eq!(vm.step(), Ok(stdout("var")));
    assert!(vm.finished());
}

#[test]
fn test_remote_call() {
    let code = vec![label("start_f"), text("svc"), text("m"), Instruction::RemoteCall];
    let (res, actions) = VM::new(code.clone(), "me")
        .with_max_execution_counter(100)
        .with_remote_call_tx()
        .run();
    assert_eq!(res, Ok(()));
    assert_eq!(
        actions,
        vec![Action::RemoteCall {
            message: ServiceMessage::Call {
                to: "svc".to_string(),
                function: "m".to_string(),
            },
            span: None,
        }]
    );
    let (res, actions) = VM::new(code.clone(), "me")
        .with_max_execution_counter(100)
        .with_remote_call_tx()
        .with_tracer()
        .run();
    assert_eq!(res, Err(VMError::MissingContext));
    assert!(actions.is_empty());
    let mut traced = vec![Instruction::StartContext];
    traced.extend(code);
    traced.push(Instruction::EndContext);
    let (res, actions) = VM::new(traced, "me")
        .with_max_execution_counter(100)
        .with_remote_call_tx()
        .with_tracer()
        .run();
    assert_eq!(res, Ok(()));
    assert_eq!(
        actions,
        vec![
            Action::StartContext("me/start_context".to_string()),
            Action::RemoteCall {
                message: ServiceMessage::Call {
                    to: "svc".to_string(),
                    function: "m".to_string(),
                },
                span: Some("me/start_f".to_string()),
            },
            Action::EndContext,
        ]
    );
}

#[test]
fn test_remote_call_errors() {
    let ready = |code: Vec<Instruction>| {
        VM::new(code, "me")
            .with_max_execution_counter(100)
            .with_remote_call_tx()
            .run()
            .0
    };
    assert_eq!(
        run(vec![label("f"), text("svc"), text("m"), Instruction::RemoteCall]).0,
        Err(VMError::RemoteCallError("Remote call tx not set".to_string()))
    );
    assert_eq!(
        ready(vec![Instruction::Pop, Instruction::RemoteCall]),
        Err(VMError::MissingStackFrame)
    );
    assert_eq!(
        ready(vec![label("f"), text("m"), Instruction::RemoteCall]),
        Err(VMError::StackUnderflow)
    );
    assert_eq!(
        ready(vec![label("f"), number(1), text("m"), Instruction::RemoteCall]),
        Err(VMError::InvalidStackValue)
    );
    assert_eq!(
        ready(vec![label("f"), text("svc"), number(2), Instruction::RemoteCall]),
        Err(VMError::InvalidStackValue)
    );
    assert_eq!(
        ready(vec![text("svc"), text("m"), Instruction::RemoteCall]),
        Err(VMError::MissingFunctionName)
    );
}

#[test]
fn test_remote_call_names_the_nearest_label_before_it() {
    let code = vec![
        Instruction::StartContext,
        label("outer"),
        label("inner"),
        text("svc"),
        text("m"),
        Instruction::RemoteCall,
        label("later"),
    ];
    let (_, actions) = VM::new(code, "me")
        .with_max_execution_counter(100)
        .with_remote_call_tx()
        .with_tracer()
        .run();
    match &actions[1] {
        Action::RemoteCall { span, .. } => assert_eq!(span, &Some("me/inner".to_string())),
        other => panic!("unexpected action {:?}", other),
    }
}

#[test]
fn test_trace_context() {
    let (res, actions) = run(vec![Instruction::StartContext, Instruction::EndContext]);
    assert_eq!(res, Err(VMError::MissingSpan));
    assert!(actions.is_empty());
    let (res, actions) = VM::new(
        vec![
            Instruction::StartContext,
            Instruction::StartContext,
            Instruction::EndContext,
            Instruction::EndContext,
        ],
        "svc",
    )
    .with_max_execution_counter(100)
    .with_tracer()
    .run();
    assert_eq!(res, Err(VMError::MissingSpan));
    assert_eq!(
        actions,
        vec![
            Action::StartContext("svc/start_context".to_string()),
            Action::StartContext("svc/start_context".to_string()),
            Action::EndContext,
        ]
    );
}

#[test]
fn test_check_interrupt_stays_in_place() {
    let mut vm = VM::new(vec![Instruction::CheckInterrupt, text("never")], "test");
    for _ in 0..5 {
        assert_eq!(vm.step(), Ok(Action::Continue));
        assert_eq!(vm.ip(), 0);
    }
    assert_eq!(vm.executed(), 5);
}

#[test]
fn test_check_interrupt_serves_invocations_at_its_cadence() {
    let code = vec![
        Instruction::Jump("main".to_string()),
        label("start_a"),
        text("a"),
        Instruction::Stdout,
        Instruction::Ret,
        label("start_b"),
        text("b"),
        Instruction::Stdout,
        Instruction::Ret,
        label("main"),
        Instruction::CheckInterrupt,
    ];
    let (_, labels, _) = generate_bytecode(code.clone());
    let main = *labels.get("main").unwrap();
    let mut vm = VM::new(code, "test")
        .with_custom_remote_call_limit(2)
        .with_remote_call_rx(vec!["b".to_string()]);
    assert!(vm.deliver_remote_call("a".to_string()));
    assert_eq!(vm.step(), Ok(Action::Continue));
    // Two executions pass before the inbox is looked at.
    assert_eq!(vm.step(), Ok(Action::Continue));
    assert_eq!(vm.ip(), main);
    assert_eq!(vm.step(), Ok(Action::Continue));
    assert_eq!(vm.ip(), main);
    // The third takes the oldest invocation.
    assert_eq!(vm.step(), Ok(Action::Continue));
    assert_eq!(vm.ip(), *labels.get("start_b").unwrap());
    assert_eq!(vm.call_depth(), 2);
    assert_eq!(vm.step(), Ok(Action::Continue));
    assert_eq!(vm.step(), Ok(stdout("b")));
    assert_eq!(vm.step(), Ok(Action::Continue));
    // The call returns to the instruction that made it.
    assert_eq!(vm.ip(), main);
    assert_eq!(vm.call_depth(), 1);
    assert_eq!(vm.step(), Ok(Action::Continue));
    assert_eq!(vm.step(), Ok(Action::Continue));
    assert_eq!(vm.ip(), main);
    assert_eq!(vm.step(), Ok(Action::Continue));
    assert_eq!(vm.ip(), *labels.get("start_a").unwrap());
}

#[test]
fn test_poll_due_follows_the_cadence() {
    let code = vec![label("start_a"), Instruction::CheckInterrupt];
    let mut vm = VM::new(code.clone(), "test")
        .with_custom_remote_call_limit(2)
        .with_remote_call_rx(Vec::new());
    // At the label no poll is due.
    assert!(!vm.poll_due());
    assert_eq!(vm.step(), Ok(Action::Continue));
    for _ in 0..3 {
        assert!(!vm.poll_due());
        assert_eq!(vm.step(), Ok(Action::Continue));
        assert!(!vm.poll_due());
        assert_eq!(vm.step(), Ok(Action::Continue));
        // Two executions have passed: the third looks at the inbox.
        assert!(vm.poll_due());
        assert_eq!(vm.step(), Ok(Action::Continue));
    }
    // A machine without an inbox never polls.
    let mut vm = VM::new(code, "test").with_custom_remote_call_limit(0);
    assert_eq!(vm.step(), Ok(Action::Continue));
    assert!(!vm.poll_due());
}

#[test]
fn test_check_interrupt_with_unknown_method() {
    let mut vm = VM::new(vec![Instruction::CheckInterrupt], "test")
        .with_custom_remote_call_limit(0)
        .with_remote_call_rx(vec!["nope".to_string()]);
    assert_eq!(
        vm.step(),
        Err(VMError::MissingLabel("start_nope".to_string()))
    );
}

#[test]
fn test_deliver_remote_call_without_inbox() {
    let mut vm = VM::new(vec![Instruction::CheckInterrupt], "test");
    assert!(!vm.deliver_remote_call("a".to_string()));
}

#[test]
fn test_idle_service_only_checks_for_interrupts() {
    let source = "service frontend { method main_page { print \"Main page\" } }";
    let ast = parser::parse(source).unwrap();
    let code = CodeGenerator::new(&ast.services[0]).process().unwrap();
    let (res, actions) = VM::new(code, "frontend").with_max_execution_counter(10).run();
    assert_eq!(res, Err(VMError::MaxExecutionCounterReached));
    assert!(actions.is_empty());
}

#[test]
fn test_empty_args_print_nothing() {
    let source = "
        service frontend {
            method main_page {
                print \"Main page %s\" with []
                sleep 5ms
            }
            loop { call main_page }
        }";
    let ast = parser::parse(source).unwrap();
    let code = CodeGenerator::new(&ast.services[0]).process().unwrap();
    let (res, actions) = VM::new(code, "frontend").with_max_execution_counter(6).run();
    assert_eq!(res, Err(VMError::MaxExecutionCounterReached));
    assert_eq!(
        actions,
        vec![
            Action::LocalCall("start_main_page".to_string()),
            Action::Sleep(5),
        ]
    );
}

#[test]
fn test_loop_calling_unknown_method_fails_at_run_time() {
    let ast = parser::parse("service a { loop { call nope } }").unwrap();
    let code = CodeGenerator::new(&ast.services[0]).process().unwrap();
    let (res, _) = VM::new(code, "a").with_max_execution_counter(10).run();
    assert_eq!(res, Err(VMError::MissingLabel("start_nope".to_string())));
}

#[test]
fn test_empty_loop_runs_to_the_end() {
    let ast = parser::parse("service a { loop { } }").unwrap();
    let code = CodeGenerator::new(&ast.services[0]).process().unwrap();
    let (res, actions) = VM::new(code, "a").with_max_execution_counter(10).run();
    assert_eq!(res, Ok(()));
    assert!(actions.is_empty());
}

#[test]
fn test_error_texts() {
    assert_eq!(VMError::StackUnderflow.to_string(), "Stack underflow");
    assert_eq!(VMError::InvalidStackValue.to_string(), "Invalid stack value");
    assert_eq!(
        VMError::MissingVar("x".to_string()).to_string(),
        "Missing variable: x"
    );
    assert_eq!(
        VMError::RemoteCallError("boom".to_string()).to_string(),
        "Remote call error: boom"
    );
    assert_eq!(
        VMError::MissingLabel("l".to_string()).to_string(),
        "Missing label: l"
    );
    assert_eq!(VMError::MissingSpan.to_string(), "Missing span");
    assert_eq!(
        VMError::PrintError(PrintMessage::Stdout("x".to_string())).to_string(),
        "Print error: channel closed"
    );
    assert_eq!(
        VMError::MaxExecutionCounterReached.to_string(),
        "Max execution counter reached"
    );
    assert_eq!(
        VMError::InvalidTemplate("t".to_string()).to_string(),
        "Invalid template: t"
    );
    assert_eq!(
        VMError::IPOutOfBounds(12, 10).to_string(),
        "Instruction Pointer out of bounds: 12 | No of instructions: 10"
    );
    assert_eq!(
        VMError::MissingFunctionName.to_string(),
        "Missing function name"
    );
    assert_eq!(VMError::MissingContext.to_string(), "Missing context");
    assert_eq!(
        VMError::InvalidInstruction(255).to_string(),
        "Invalid instruction: 255"
    );
    assert_eq!(VMError::MissingStackFrame.to_string(), "Missing stack frame");
}
