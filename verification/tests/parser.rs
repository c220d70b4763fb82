use mustermann::parser::{parse, Statement};
use std::time::Duration;


#[test]
fn test_parse_service() {
    let service = "
        service products {
            method get_products {
                print \"Fetching product orders %s\" with []
            }
        }
        ";
    let ast = parse(service).unwrap();

    assert_eq!(ast.services.len(), 1);
    assert_eq!(ast.services[0].name, "products");
    assert_eq!(ast.services[0].methods.len(), 1);
    assert_eq!(ast.services[0].methods[0].name, "get_products");
}

#[test]
fn test_parse_service_with_empty_var_list() {
    let service = "
        service products {
            method get_products {
                print \"Fetching product orders %s\" with []
            }
        }
        ";
    let ast = parse(service).unwrap();

    assert_eq!(ast.services.len(), 1);
    assert_eq!(ast.services[0].name, "products");
    assert_eq!(ast.services[0].methods.len(), 1);
    assert_eq!(ast.services[0].methods[0].name, "get_products");
    assert_eq!(ast.services[0].methods[0].statements.len(), 1);
    assert_eq!(
        ast.services[0].methods[0].statements[0],
        Statement::Stdout {
            message: "Fetching product orders %s".to_string(),
            args: Some(vec![]),
        }
    );
}

#[test]
fn test_parse_service_with_empty_var_list_and_sleep() {
    let service = "
        service products {
            method get_products {
                print \"Fetching product orders %s\" with []
                sleep 1s
            }
        }
        ";
    let ast = parse(service).unwrap();

    assert_eq!(ast.services.len(), 1);
    assert_eq!(ast.services[0].name, "products");
    assert_eq!(ast.services[0].methods.len(), 1);
    assert_eq!(ast.services[0].methods[0].name, "get_products");
    assert_eq!(ast.services[0].methods[0].statements.len(), 2);
    assert_eq!(
        ast.services[0].methods[0].statements[0],
        Statement::Stdout {
            message: "Fetching product orders %s".to_string(),
            args: Some(vec![]),
        }
    );
    assert_eq!(
        ast.services[0].methods[0].statements[1],
        Statement::Sleep {
            duration: Duration::from_secs(1).as_millis() as u64,
        }
    );
}

#[test]
fn test_parse_service_with_stderr() {
    let service = "
        service products {
            method get_products {
                print \"Fetching product orders %s\" with []
                stderr \"Error fetching product orders\"
            }
        }
        ";
    let ast = parse(service).unwrap();

    assert_eq!(ast.services.len(), 1);
    assert_eq!(ast.services[0].name, "products");
    assert_eq!(ast.services[0].methods.len(), 1);
    assert_eq!(ast.services[0].methods[0].name, "get_products");
    assert_eq!(ast.services[0].methods[0].statements.len(), 2);
    assert_eq!(
        ast.services[0].methods[0].statements[0],
        Statement::Stdout {
            message: "Fetching product orders %s".to_string(),
            args: Some(vec![]),
        }
    );
    assert_eq!(
        ast.services[0].methods[0].statements[1],
        Statement::Stderr {
            message: "Error fetching product orders".to_string(),
            args: None,
        }
    );
}
