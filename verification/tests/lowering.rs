use mustermann::bytecode::generate_bytecode;
use mustermann::code_gen::error::{ByteCodeError, CodeGenError};
use mustermann::code_gen::instruction::{Instruction, StackValue};
use mustermann::code_gen::log_byte_code::LogByteCodeGenerator;
use mustermann::code_gen::service_byte_code::{MethodByteCodeGenerator, ServiceByteCodeGenerator};
use mustermann::code_gen::CodeGenerator;
use mustermann::config::{Call, Count, Method, Service, Severity, Task};
use mustermann::parser;

fn generate(source: &str) -> Result<Vec<Instruction>, CodeGenError> {
    let ast = parser::parse(source).unwrap();
    CodeGenerator::new(&ast.services[0]).process()
}

#[test]
fn test_local_call_in_method_is_rejected() {
    assert_eq!(
        generate("service a { method m { call other } }"),
        Err(CodeGenError::InvalidStatement(
            "Expected Remote Call - Got Call(.other)".to_string()
        ))
    );
}

#[test]
fn test_first_invalid_statement_is_reported() {
    assert_eq!(
        generate("service a { method m { print \"x\" call one } method n { call two } loop { sleep 1s } }"),
        Err(CodeGenError::InvalidStatement(
            "Expected Remote Call - Got Call(.one)".to_string()
        ))
    );
}

#[test]
fn test_remote_call_in_loop_is_rejected() {
    assert_eq!(
        generate("service a { loop { call b.c } }"),
        Err(CodeGenError::InvalidStatement(
            "Expected Local Call - Got Call(b.c)".to_string()
        ))
    );
}

#[test]
fn test_other_statements_in_loop_are_rejected() {
    assert_eq!(
        generate("service a { loop { print \"x\" with [\"a\"] } }"),
        Err(CodeGenError::InvalidStatement(
            "Expected Call - Got Print(x)([\"a\"])".to_string()
        ))
    );
    assert_eq!(
        generate("service a { loop { stderr \"x\" } }"),
        Err(CodeGenError::InvalidStatement(
            "Expected Call - Got Stderr(x)".to_string()
        ))
    );
    assert_eq!(
        generate("service a { loop { sleep 500ms } }"),
        Err(CodeGenError::InvalidStatement(
            "Expected Call - Got Sleep(500ms)".to_string()
        ))
    );
}

#[test]
fn test_code_gen_error_text() {
    assert_eq!(
        CodeGenError::InvalidStatement("Expected Call - Got Sleep(1s)".to_string()).to_string(),
        "Invalid statement: Expected Call - Got Sleep(1s)"
    );
    assert_eq!(
        ByteCodeError::UnsupportedConst("Twice".to_string()).to_string(),
        "Unsupported constant: Twice"
    );
}

#[test]
fn test_only_the_first_loop_and_its_first_statement_count() {
    let code = generate(
        "service a { method m { } loop { call m; call b.c; sleep 1s } loop { sleep 2s } }",
    )
    .unwrap();
    assert_eq!(
        code,
        vec![
            Instruction::Label("start_a".to_string()),
            Instruction::Jump("start_a_main".to_string()),
            Instruction::Label("start_m".to_string()),
            Instruction::Ret,
            Instruction::Label("end_m".to_string()),
            Instruction::Label("start_a_main".to_string()),
            Instruction::Label("start_loop".to_string()),
            Instruction::Call("start_m".to_string()),
            Instruction::Jump("start_loop".to_string()),
            Instruction::Label("end_loop".to_string()),
            Instruction::Label("end_a_main".to_string()),
            Instruction::Label("end_a".to_string()),
        ]
    );
}

#[test]
fn test_empty_loop_has_no_code() {
    assert_eq!(
        generate("service a { loop { } }").unwrap(),
        vec![
            Instruction::Label("start_a".to_string()),
            Instruction::Jump("start_a_main".to_string()),
            Instruction::Label("start_a_main".to_string()),
            Instruction::Label("end_a_main".to_string()),
            Instruction::Label("end_a".to_string()),
        ]
    );
}

#[test]
fn test_sleep_in_seconds_is_lowered_to_milliseconds() {
    let code = generate("service a { method m { sleep 3s } }").unwrap();
    assert_eq!(code[3], Instruction::Sleep(3000));
}

#[test]
fn test_jump_targets_are_labels() {
    let source = "
        service products {
            method get_products {
                print \"Fetching product orders %s\" with [\"12345\", \"67890\"]
                sleep 500ms
            }
        }

        service frontend {
            method main_page {
                call products.get_products
            }

            loop {
                call main_page
            }
        }
        ";
    let ast = parser::parse(source).unwrap();
    for service in &ast.services {
        let code = CodeGenerator::new(service).process().unwrap();
        let (_, labels, _) = generate_bytecode(code.clone());
        let mut targets = 0;
        for instruction in &code {
            match instruction {
                Instruction::Jump(l) | Instruction::JmpIfZero(l) | Instruction::Call(l) => {
                    targets += 1;
                    assert!(labels.contains_key(l), "no label {}", l);
                }
                _ => {}
            }
        }
        assert!(targets >= 2);
    }
}

#[test]
fn test_unsupported_count() {
    let task = Task {
        name: "test".to_string(),
        frequency: 1000,
        count: Count::Const("Twice".to_string()),
        template: "User logged in".to_string(),
        vars: vec![],
        severity: Severity::Info,
    };
    assert_eq!(
        LogByteCodeGenerator::new(&task).process_task(),
        Err(ByteCodeError::UnsupportedConst("Twice".to_string()))
    );
}

#[test]
fn test_log_task_with_many_vars() {
    let vars: Vec<String> = (0..11).map(|i| format!("v{}", i)).collect();
    let task = Task {
        name: "t".to_string(),
        frequency: 5,
        count: Count::Const("Infinite".to_string()),
        template: "%s".to_string(),
        vars: vars.clone(),
        severity: Severity::Error,
    };
    let code = LogByteCodeGenerator::new(&task).process_task().unwrap();
    assert_eq!(code.len(), 2 + 11 + 1 + 11 * 5 + 2);
    assert_eq!(
        code[2 + 10],
        Instruction::StoreVar("var_10".to_string(), "v10".to_string())
    );
    assert_eq!(code[13], Instruction::Label("loop_t".to_string()));
    let last = 14 + 10 * 5;
    assert_eq!(code[last], Instruction::LoadVar("var_10".to_string()));
    assert_eq!(code[last + 1], Instruction::LoadVar("template".to_string()));
    assert_eq!(code[last + 2], Instruction::Printf);
    assert_eq!(code[last + 3], Instruction::Stderr);
    assert_eq!(code[last + 4], Instruction::Sleep(5));
    assert_eq!(code[last + 5], Instruction::Jump("loop_t".to_string()));
    assert_eq!(code[last + 6], Instruction::Label("end_t".to_string()));
}

#[test]
fn test_method_byte_code() {
    let method = Method {
        name: "charge".to_string(),
        stdout: None,
        sleep_ms: None,
        calls: None,
    };
    assert_eq!(
        MethodByteCodeGenerator::new(&method).process_method(),
        Ok(vec![
            Instruction::Label("charge".to_string()),
            Instruction::Jump("main".to_string()),
            Instruction::Label("end_charge".to_string()),
        ])
    );
    let method = Method {
        name: "charge".to_string(),
        stdout: Some("Charging".to_string()),
        sleep_ms: Some(500),
        calls: Some(vec![
            Call {
                name: "checkout".to_string(),
                method: "process".to_string(),
            },
            Call {
                name: "mail".to_string(),
                method: "send".to_string(),
            },
        ]),
    };
    assert_eq!(
        MethodByteCodeGenerator::new(&method).process_method(),
        Ok(vec![
            Instruction::Label("charge".to_string()),
            Instruction::Push(StackValue::String("Charging".to_string())),
            Instruction::Stdout,
            Instruction::Sleep(500),
            Instruction::Push(StackValue::String("checkout".to_string())),
            Instruction::Push(StackValue::String("process".to_string())),
            Instruction::RemoteCall,
            Instruction::Push(StackValue::String("mail".to_string())),
            Instruction::Push(StackValue::String("send".to_string())),
            Instruction::RemoteCall,
            Instruction::Jump("main".to_string()),
            Instruction::Label("end_charge".to_string()),
        ])
    );
}

#[test]
fn test_service_byte_code_without_methods() {
    let service = Service {
        name: "empty".to_string(),
        methods: vec![],
    };
    assert_eq!(
        ServiceByteCodeGenerator::new(&service).process_service(),
        Ok(vec![
            Instruction::StoreVar("name".to_string(), "empty".to_string()),
            Instruction::Jump("main".to_string()),
            Instruction::Label("main".to_string()),
            Instruction::Label("end_main".to_string()),
        ])
    );
}

#[test]
fn test_count_text() {
    assert_eq!(Count::Amount(10).to_string(), "10");
    assert_eq!(Count::Const("Infinite".to_string()).to_string(), "Infinite");
}
