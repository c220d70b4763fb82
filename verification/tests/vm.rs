use mustermann::code_gen::instruction::{Instruction, StackValue};
use mustermann::code_gen::CodeGenerator;
use mustermann::parser;
use mustermann::vm::{Action, PrintMessage, VMError, VM};
use mustermann::vm_coordinator::ServiceMessage;

fn service() -> String {
    "
        service frontend {
            method main_page {
                print \"Main page\";
            }
        }
        "
    .to_string()
}

fn service_with_local_call() -> String {
    "
        service frontend {
            method main_page {
                print \"Main page\";
                sleep 1ms;
            }

            loop {
                call main_page;
            }
        }
        "
    .to_string()
}

fn service_with_print_template() -> String {
    "
        service frontend {
            method main_page {
                print \"Main page %s\" with [\"12345\", \"67890\"];
            }

            loop {
                call main_page;
            }
        }
        "
    .to_string()
}

fn service_with_stderr_template() -> String {
    "
        service frontend {
            method main_page {
                stderr \"Main page %s\" with [\"12345\", \"67890\"];
            }

            loop {
                call main_page;
            }
        }
        "
    .to_string()
}

fn service_with_broken_template() -> String {
    "
        service frontend {
            method main_page {
                print \"Main page\" with [\"12345\", \"67890\"];
            }

            loop {
                call main_page;
            }
        }
        "
    .to_string()
}

fn call_other_service() -> String {
    "
        service products {
            method get_products {
                print \"Fetching product orders %s\" with [\"12345\", \"67890\"];
                sleep 500ms;
            }
        }

        service frontend {
            method main_page {
                call products.get_products;
            }

            loop {
                call main_page;
            }
        }
        "
    .to_string()
}

/// The log lines among the actions, in order.
fn prints(actions: &[Action]) -> Vec<PrintMessage> {
    let mut lines = Vec::new();
    for action in actions {
        if let Action::Print(line) = action {
            lines.push(line.clone());
        }
    }
    lines
}

/// The messages for the coordinator among the actions, in order.
fn remote_calls(actions: &[Action]) -> Vec<ServiceMessage> {
    let mut messages = Vec::new();
    for action in actions {
        if let Action::RemoteCall { message, .. } = action {
            messages.push(message.clone());
        }
    }
    messages
}

#[test]
fn test_push_string() {
    let code = vec![
        Instruction::Push(StackValue::String("Hello, world!".to_string())),
        Instruction::Stdout,
    ];
    let mut vm = VM::new(code.clone(), "test").with_max_execution_counter(2);
    let (res, actions) = vm.run();
    assert_eq!(res, Ok(()));
    assert_eq!(
        prints(&actions),
        vec![PrintMessage::Stdout("Hello, world!".to_string())]
    );
}

#[test]
fn test_push_int() {
    let code = vec![
        Instruction::Push(StackValue::Int(12345)),
        Instruction::Stdout,
    ];
    let mut vm = VM::new(code.clone(), "test").with_max_execution_counter(2);
    let (res, actions) = vm.run();
    assert_eq!(res, Ok(()));
    assert_eq!(
        prints(&actions),
        vec![PrintMessage::Stdout("12345".to_string())]
    );
}

#[test]
fn test_jmp_if_zero() {
    let code = vec![
        Instruction::Push(StackValue::String("Unexpected Code Reached".to_string())),
        Instruction::Push(StackValue::Int(0)),
        Instruction::JmpIfZero("label".to_string()),
        Instruction::Stdout, //We're trying to skip this
        Instruction::Label("label".to_string()),
    ];
    let mut vm = VM::new(code.clone(), "test").with_max_execution_counter(4);
    let (res, actions) = vm.run();
    assert_eq!(res, Ok(()));
    assert_eq!(prints(&actions).len(), 0); //We should have skipped the stdout
}

#[test]
fn test_sleep() {
    let sleep_duration = 100;
    let code = vec![Instruction::Sleep(sleep_duration)];
    let mut vm = VM::new(code.clone(), "test").with_max_execution_counter(1);
    let (res, actions) = vm.run();
    assert_eq!(res, Ok(()));
    assert_eq!(prints(&actions).len(), 0);
    assert_eq!(actions, vec![Action::Sleep(sleep_duration)]);
}

#[test]
fn test_store_var() {
    let code = vec![
        Instruction::StoreVar("test".to_string(), "test".to_string()),
        Instruction::LoadVar("test".to_string()),
        Instruction::Stdout,
    ];
    let mut vm = VM::new(code.clone(), "test").with_max_execution_counter(3);
    let (res, actions) = vm.run();
    assert_eq!(res, Ok(()));
    assert_eq!(
        prints(&actions),
        vec![PrintMessage::Stdout("test".to_string())]
    );
}

#[test]
fn test_dup() {
    let code = vec![
        Instruction::Push(StackValue::String("Hello, world!".to_string())),
        Instruction::Dup,
        Instruction::Stdout,
        Instruction::Stdout,
    ];
    let mut vm = VM::new(code.clone(), "test").with_max_execution_counter(5);
    let (res, actions) = vm.run();
    assert_eq!(res, Ok(()));
    assert_eq!(prints(&actions).len(), 2);
}

#[test]
fn test_jump() {
    let code = vec![
        Instruction::Push(StackValue::String("Hello, world!".to_string())),
        Instruction::Jump("label".to_string()),
        Instruction::Stdout, //We're trying to skip this
        Instruction::Label("label".to_string()),
    ];
    let mut vm = VM::new(code.clone(), "test").with_max_execution_counter(3);
    let (res, actions) = vm.run();
    assert_eq!(res, Ok(()));
    assert_eq!(prints(&actions).len(), 0);
}

#[test]
fn test_printf() {
    let code = vec![
        Instruction::Push(StackValue::String("Hello, %s!".to_string())),
        Instruction::Push(StackValue::String("world".to_string())),
        Instruction::Printf,
        Instruction::Stdout,
    ];
    let mut vm = VM::new(code.clone(), "test").with_max_execution_counter(4);
    let (res, actions) = vm.run();
    assert_eq!(res, Ok(()));
    assert_eq!(
        prints(&actions),
        vec![PrintMessage::Stdout("Hello, world!".to_string())]
    );
}

#[test]
fn test_printf_with_int() {
    let code = vec![
        Instruction::Push(StackValue::String("Hello, %d!".to_string())),
        Instruction::Push(StackValue::Int(12345)),
        Instruction::Printf,
        Instruction::Stdout,
    ];
    let mut vm = VM::new(code.clone(), "test").with_max_execution_counter(4);
    let (res, actions) = vm.run();
    assert_eq!(res, Ok(()));
    assert_eq!(
        prints(&actions),
        vec![PrintMessage::Stdout("Hello, 12345!".to_string())]
    );
}

#[test]
fn test_printf_with_invalid_template() {
    let code = vec![
        Instruction::Push(StackValue::String("Hello, %!".to_string())),
        Instruction::Push(StackValue::Int(12345)),
        Instruction::Printf,
        Instruction::Stdout,
    ];
    let mut vm = VM::new(code.clone(), "test").with_max_execution_counter(4);
    let (res, actions) = vm.run();
    assert_eq!(res, Err(VMError::InvalidTemplate("Hello, %!".to_string())));
    assert_eq!(prints(&actions).len(), 0);
}

#[test]
fn test_vm_run() {
    let service = service();
    let ast = parser::parse(&service).unwrap();
    let code = CodeGenerator::new(&ast.services[0]).process().unwrap();

    let mut vm = VM::new(code.clone(), &ast.services[0].name).with_max_execution_counter(10);
    let (res, actions) = vm.run();
    assert!(prints(&actions).is_empty(), "Print messages should be empty");
    assert_eq!(res, Err(VMError::MaxExecutionCounterReached));
}

#[test]
fn test_vm_with_local_call() {
    let service = service_with_local_call();
    let ast = parser::parse(&service).unwrap();
    let code = CodeGenerator::new(&ast.services[0]).process().unwrap();

    let mut vm = VM::new(code.clone(), &ast.services[0].name).with_max_execution_counter(30);
    let (res, actions) = vm.run();
    assert_eq!(res, Err(VMError::MaxExecutionCounterReached));
    let lines = prints(&actions);
    assert_eq!(lines.len(), 5);
    for line in lines {
        assert_eq!(line, PrintMessage::Stdout("Main page".to_string()));
    }
}

#[test]
fn test_vm_with_print_template() {
    let service = service_with_print_template();
    let ast = parser::parse(&service).unwrap();
    let code = CodeGenerator::new(&ast.services[0]).process().unwrap();

    let mut vm = VM::new(code.clone(), &ast.services[0].name).with_max_execution_counter(15);
    let (res, actions) = vm.run();
    assert_eq!(res, Err(VMError::MaxExecutionCounterReached));
    assert_eq!(
        prints(&actions),
        vec![
            PrintMessage::Stdout("Main page 12345".to_string()),
            PrintMessage::Stdout("Main page 67890".to_string()),
        ]
    );
}

#[test]
fn test_vm_with_stderr_template() {
    let service = service_with_stderr_template();
    let ast = parser::parse(&service).unwrap();
    let code = CodeGenerator::new(&ast.services[0]).process().unwrap();

    let mut vm = VM::new(code.clone(), &ast.services[0].name).with_max_execution_counter(15);
    let (res, actions) = vm.run();
    assert_eq!(res, Err(VMError::MaxExecutionCounterReached));
    assert_eq!(
        prints(&actions),
        vec![
            PrintMessage::Stderr("Main page 12345".to_string()),
            PrintMessage::Stderr("Main page 67890".to_string()),
        ]
    );
}

#[test]
fn test_vm_with_broken_template() {
    let service = service_with_broken_template();
    let ast = parser::parse(&service).unwrap();
    let code = CodeGenerator::new(&ast.services[0]).process().unwrap();

    let mut vm = VM::new(code.clone(), &ast.services[0].name).with_max_execution_counter(10);
    let (res, actions) = vm.run();
    assert_eq!(res, Err(VMError::InvalidTemplate("Main page".to_string())));
    assert_eq!(prints(&actions).len(), 0);
}

#[test]
fn test_vm_with_remote_call_tx() {
    let service = call_other_service();
    let ast = parser::parse(&service).unwrap();
    let code = CodeGenerator::new(&ast.services[1]).process().unwrap();
    let mut vm = VM::new(code.clone(), &ast.services[1].name).with_max_execution_counter(10);
    let (res, _actions) = vm.run();
    assert_eq!(
        res,
        Err(VMError::RemoteCallError(
            "Remote call tx not set".to_string()
        ))
    );
}

#[test]
fn test_vm_with_remote_call() {
    let service = call_other_service();
    let ast = parser::parse(&service).unwrap();
    let code = CodeGenerator::new(&ast.services[1]).process().unwrap();

    let mut vm = VM::new(code.clone(), &ast.services[1].name)
        .with_max_execution_counter(10)
        .with_remote_call_tx();

    let (res, actions) = vm.run();
    assert_eq!(res, Err(VMError::MaxExecutionCounterReached));
    let messages = remote_calls(&actions);
    assert_eq!(messages.len(), 1);
    match &messages[0] {
        ServiceMessage::Call { to, function } => {
            assert_eq!(to, &"products".to_string());
            assert_eq!(function, &"get_products".to_string());
        }
    }
}

#[test]
fn test_vm_with_remote_call_and_receiver() {
    let service = call_other_service();
    let ast = parser::parse(&service).unwrap();
    let code = CodeGenerator::new(&ast.services[0]).process().unwrap();

    let mut vm = VM::new(code.clone(), &ast.services[0].name)
        .with_max_execution_counter(15)
        .with_custom_remote_call_limit(1)
        .with_remote_call_rx(vec!["get_products".to_string()]);

    let (res, actions) = vm.run();
    assert_eq!(res, Err(VMError::MaxExecutionCounterReached));
    let lines = prints(&actions);
    assert_eq!(lines.len(), 2);
    assert_eq!(
        lines[0],
        PrintMessage::Stdout("Fetching product orders 12345".to_string())
    );
}

#[test]
fn test_vm_creates_new_stackframe_on_call() {
    let code = vec![
        Instruction::Jump("main".to_string()),
        Instruction::Label("start_function".to_string()),
        Instruction::Stdout,
        Instruction::Ret,
        Instruction::Label("end_function".to_string()),
        Instruction::Label("main".to_string()),
        Instruction::Push(StackValue::String("world".to_string())),
        Instruction::Call("start_function".to_string()),
        Instruction::Stdout,
    ];

    let mut vm = VM::new(code.clone(), "test").with_max_execution_counter(15);

    let (res, actions) = vm.run();
    assert_eq!(res, Err(VMError::StackUnderflow));
    assert_eq!(prints(&actions).len(), 0);
}
