use mustermann::code_gen::instruction::{Instruction, StackValue};
use mustermann::code_gen::CodeGenerator;
use mustermann::parser;

fn service() -> String {
    "
        service frontend {
            method main_page {
                print \"Main page\"
            }
        }
        "
    .to_string()
}

fn service_with_sleep() -> String {
    "
        service frontend {
            method main_page {
                print \"Main page\"
                sleep 1000ms
            }
        }
        "
    .to_string()
}

fn service_with_main() -> String {
    "
        service frontend {
            method main_page {
                print \"Main page\"
                sleep 1000ms
            }

            loop {
                call main_page
            }
        }
        "
    .to_string()
}

fn service_with_template() -> String {
    "
        service products {
            method get_products {
                print \"Fetching product orders %s\" with [\"12345\", \"67890\"]
                sleep 500ms
            }
        }
        "
    .to_string()
}

fn service_with_stderr_template() -> String {
    "
        service products {
            method get_products {
                stderr \"Fetching product orders %s\" with [\"12345\", \"67890\"]
                sleep 500ms
            }
        }
        "
    .to_string()
}

fn service_with_template_and_empty_var_list() -> String {
    "
        service products {
            method get_products {
                print \"Fetching product orders %s\" with []
                sleep 500ms
            }
        }
        "
    .to_string()
}

fn service_with_stderr_template_and_empty_var_list() -> String {
    "
        service products {
            method get_products {
                stderr \"Fetching product orders %s\" with []
                sleep 500ms
            }
        }
        "
    .to_string()
}

fn call_other_service() -> String {
    "
        service products {
            method get_products {
                print \"Fetching product orders %s\" with [\"12345\", \"67890\"]
                sleep 500ms
            }
        }

        service frontend {
            method main_page {
                call products.get_products
            }

            loop {
                call main_page
            }
        }
        "
    .to_string()
}

fn call_other_service_without_loop() -> String {
    "
        service products {
            method get_products {
                print \"Fetching product orders %s\" with [\"12345\", \"67890\"]
                sleep 500ms
            }
        }

        service frontend {
            method main_page {
                call products.get_products
            }
        }
        "
    .to_string()
}

#[test]
fn test_log_byte_code() {
    let service = service();
    let ast = parser::parse(&service).unwrap();
    let code = CodeGenerator::new(&ast.services[0]).process().unwrap();

    let expected = vec![
        Instruction::Label("start_frontend".to_string()),
        Instruction::Jump("start_frontend_main".to_string()),
        Instruction::Label("start_main_page".to_string()),
        Instruction::Push(StackValue::String("Main page".to_string())),
        Instruction::Stdout,
        Instruction::Ret,
        Instruction::Label("end_main_page".to_string()),
        Instruction::Label("start_frontend_main".to_string()),
        Instruction::CheckInterrupt,
        Instruction::Jump("start_frontend_main".to_string()),
        Instruction::Label("end_frontend_main".to_string()),
        Instruction::Label("end_frontend".to_string()),
    ];
    assert_eq!(code, expected);
}

#[test]
fn test_service_with_sleep() {
    let service = service_with_sleep();
    let ast = parser::parse(&service).unwrap();
    let code = CodeGenerator::new(&ast.services[0]).process().unwrap();

    let expected = vec![
        Instruction::Label("start_frontend".to_string()),
        Instruction::Jump("start_frontend_main".to_string()),
        Instruction::Label("start_main_page".to_string()),
        Instruction::Push(StackValue::String("Main page".to_string())),
        Instruction::Stdout,
        Instruction::Sleep(1000),
        Instruction::Ret,
        Instruction::Label("end_main_page".to_string()),
        Instruction::Label("start_frontend_main".to_string()),
        Instruction::CheckInterrupt,
        Instruction::Jump("start_frontend_main".to_string()),
        Instruction::Label("end_frontend_main".to_string()),
        Instruction::Label("end_frontend".to_string()),
    ];
    assert_eq!(code, expected);
}

#[test]
fn test_service_with_main() {
    let service = service_with_main();
    let ast = parser::parse(&service).unwrap();
    let code = CodeGenerator::new(&ast.services[0]).process().unwrap();
    let expected = vec![
        Instruction::Label("start_frontend".to_string()),
        Instruction::Jump("start_frontend_main".to_string()),
        Instruction::Label("start_main_page".to_string()),
        Instruction::Push(StackValue::String("Main page".to_string())),
        Instruction::Stdout,
        Instruction::Sleep(1000),
        Instruction::Ret,
        Instruction::Label("end_main_page".to_string()),
        Instruction::Label("start_frontend_main".to_string()),
        Instruction::Label("start_loop".to_string()),
        Instruction::Call("start_main_page".to_string()),
        Instruction::Jump("start_loop".to_string()),
        Instruction::Label("end_loop".to_string()),
        Instruction::Label("end_frontend_main".to_string()),
        Instruction::Label("end_frontend".to_string()),
    ];
    assert_eq!(code, expected);
}

#[test]
fn test_service_with_template() {
    let service = service_with_template();
    let ast = parser::parse(&service).unwrap();
    let code = CodeGenerator::new(&ast.services[0]).process().unwrap();

    let expected = vec![
        Instruction::Label("start_products".to_string()),
        Instruction::Jump("start_products_main".to_string()),
        Instruction::Label("start_get_products".to_string()),
        Instruction::Push(StackValue::String("Fetching product orders %s".to_string())),
        Instruction::Push(StackValue::String("12345".to_string())),
        Instruction::Printf,
        Instruction::Stdout,
        Instruction::Push(StackValue::String("Fetching product orders %s".to_string())),
        Instruction::Push(StackValue::String("67890".to_string())),
        Instruction::Printf,
        Instruction::Stdout,
        Instruction::Sleep(500),
        Instruction::Ret,
        Instruction::Label("end_get_products".to_string()),
        Instruction::Label("start_products_main".to_string()),
        Instruction::CheckInterrupt,
        Instruction::Jump("start_products_main".to_string()),
        Instruction::Label("end_products_main".to_string()),
        Instruction::Label("end_products".to_string()),
    ];
    assert_eq!(code, expected);
}

#[test]
fn test_service_with_template_and_empty_var_list() {
    let service = service_with_template_and_empty_var_list();
    let ast = parser::parse(&service).unwrap();
    let code = CodeGenerator::new(&ast.services[0]).process().unwrap();

    let expected = vec![
        Instruction::Label("start_products".to_string()),
        Instruction::Jump("start_products_main".to_string()),
        Instruction::Label("start_get_products".to_string()),
        Instruction::Sleep(500),
        Instruction::Ret,
        Instruction::Label("end_get_products".to_string()),
        Instruction::Label("start_products_main".to_string()),
        Instruction::CheckInterrupt,
        Instruction::Jump("start_products_main".to_string()),
        Instruction::Label("end_products_main".to_string()),
        Instruction::Label("end_products".to_string()),
    ];
    assert_eq!(code, expected);
}

#[test]
fn test_service_with_stderr_template() {
    let service = service_with_stderr_template();
    let ast = parser::parse(&service).unwrap();
    let code = CodeGenerator::new(&ast.services[0]).process().unwrap();

    let expected = vec![
        Instruction::Label("start_products".to_string()),
        Instruction::Jump("start_products_main".to_string()),
        Instruction::Label("start_get_products".to_string()),
        Instruction::Push(StackValue::String("Fetching product orders %s".to_string())),
        Instruction::Push(StackValue::String("12345".to_string())),
        Instruction::Printf,
        Instruction::Stderr,
        Instruction::Push(StackValue::String("Fetching product orders %s".to_string())),
        Instruction::Push(StackValue::String("67890".to_string())),
        Instruction::Printf,
        Instruction::Stderr,
        Instruction::Sleep(500),
        Instruction::Ret,
        Instruction::Label("end_get_products".to_string()),
        Instruction::Label("start_products_main".to_string()),
        Instruction::CheckInterrupt,
        Instruction::Jump("start_products_main".to_string()),
        Instruction::Label("end_products_main".to_string()),
        Instruction::Label("end_products".to_string()),
    ];
    assert_eq!(code, expected);
}

#[test]
fn test_service_with_stderr_template_and_empty_var_list() {
    let service = service_with_stderr_template_and_empty_var_list();
    let ast = parser::parse(&service).unwrap();
    let code = CodeGenerator::new(&ast.services[0]).process().unwrap();

    let expected = vec![
        Instruction::Label("start_products".to_string()),
        Instruction::Jump("start_products_main".to_string()),
        Instruction::Label("start_get_products".to_string()),
        Instruction::Sleep(500),
        Instruction::Ret,
        Instruction::Label("end_get_products".to_string()),
        Instruction::Label("start_products_main".to_string()),
        Instruction::CheckInterrupt,
        Instruction::Jump("start_products_main".to_string()),
        Instruction::Label("end_products_main".to_string()),
        Instruction::Label("end_products".to_string()),
    ];
    assert_eq!(code, expected);
}

#[test]
fn test_call_other_service() {
    let service = call_other_service();
    let ast = parser::parse(&service).unwrap();
    let products_code = CodeGenerator::new(&ast.services[0]).process().unwrap();
    let frontend_code = CodeGenerator::new(&ast.services[1]).process().unwrap();

    let expected_products = vec![
        Instruction::Label("start_products".to_string()),
        Instruction::Jump("start_products_main".to_string()),
        Instruction::Label("start_get_products".to_string()),
        Instruction::Push(StackValue::String("Fetching product orders %s".to_string())),
        Instruction::Push(StackValue::String("12345".to_string())),
        Instruction::Printf,
        Instruction::Stdout,
        Instruction::Push(StackValue::String("Fetching product orders %s".to_string())),
        Instruction::Push(StackValue::String("67890".to_string())),
        Instruction::Printf,
        Instruction::Stdout,
        Instruction::Sleep(500),
        Instruction::Ret,
        Instruction::Label("end_get_products".to_string()),
        Instruction::Label("start_products_main".to_string()),
        Instruction::CheckInterrupt,
        Instruction::Jump("start_products_main".to_string()),
        Instruction::Label("end_products_main".to_string()),
        Instruction::Label("end_products".to_string()),
    ];
    assert_eq!(products_code, expected_products);

    let expected_frontend = vec![
        Instruction::Label("start_frontend".to_string()),
        Instruction::Jump("start_frontend_main".to_string()),
        Instruction::Label("start_main_page".to_string()),
        Instruction::Push(StackValue::String("products".to_string())),
        Instruction::Push(StackValue::String("get_products".to_string())),
        Instruction::RemoteCall,
        Instruction::Ret,
        Instruction::Label("end_main_page".to_string()),
        Instruction::Label("start_frontend_main".to_string()),
        Instruction::Label("start_loop".to_string()),
        Instruction::Call("start_main_page".to_string()),
        Instruction::Jump("start_loop".to_string()),
        Instruction::Label("end_loop".to_string()),
        Instruction::Label("end_frontend_main".to_string()),
        Instruction::Label("end_frontend".to_string()),
    ];
    assert_eq!(frontend_code, expected_frontend);
}

#[test]
fn test_call_other_service_without_loop() {
    let service = call_other_service_without_loop();
    let ast = parser::parse(&service).unwrap();
    let products_code = CodeGenerator::new(&ast.services[0]).process().unwrap();
    let frontend_code = CodeGenerator::new(&ast.services[1]).process().unwrap();

    let expected_products = vec![
        Instruction::Label("start_products".to_string()),
        Instruction::Jump("start_products_main".to_string()),
        Instruction::Label("start_get_products".to_string()),
        Instruction::Push(StackValue::String("Fetching product orders %s".to_string())),
        Instruction::Push(StackValue::String("12345".to_string())),
        Instruction::Printf,
        Instruction::Stdout,
        Instruction::Push(StackValue::String("Fetching product orders %s".to_string())),
        Instruction::Push(StackValue::String("67890".to_string())),
        Instruction::Printf,
        Instruction::Stdout,
        Instruction::Sleep(500),
        Instruction::Ret,
        Instruction::Label("end_get_products".to_string()),
        Instruction::Label("start_products_main".to_string()),
        Instruction::CheckInterrupt,
        Instruction::Jump("start_products_main".to_string()),
        Instruction::Label("end_products_main".to_string()),
        Instruction::Label("end_products".to_string()),
    ];
    assert_eq!(products_code, expected_products);

    let expected_frontend = vec![
        Instruction::Label("start_frontend".to_string()),
        Instruction::Jump("start_frontend_main".to_string()),
        Instruction::Label("start_main_page".to_string()),
        Instruction::Push(StackValue::String("products".to_string())),
        Instruction::Push(StackValue::String("get_products".to_string())),
        Instruction::RemoteCall,
        Instruction::Ret,
        Instruction::Label("end_main_page".to_string()),
        Instruction::Label("start_frontend_main".to_string()),
        Instruction::CheckInterrupt,
        Instruction::Jump("start_frontend_main".to_string()),
        Instruction::Label("end_frontend_main".to_string()),
        Instruction::Label("end_frontend".to_string()),
    ];
    assert_eq!(frontend_code, expected_frontend);
}
