use mustermann::bytecode::{decode, decode_at, generate_bytecode, DecodeError};
use mustermann::code_gen::instruction::{code_to_name, Instruction, StackValue};
use mustermann::code_gen::CodeGenerator;
use mustermann::parser;

fn sample_program() -> Vec<Instruction> {
    vec![
        Instruction::Label("start".to_string()),
        Instruction::Push(StackValue::String("héllo".to_string())),
        Instruction::Push(StackValue::Int(4096)),
        Instruction::Pop,
        Instruction::Dec,
        Instruction::JmpIfZero("start".to_string()),
        Instruction::Stdout,
        Instruction::Stderr,
        Instruction::Sleep(1000),
        Instruction::StoreVar("key".to_string(), "value".to_string()),
        Instruction::LoadVar("key".to_string()),
        Instruction::Dup,
        Instruction::Jump("end".to_string()),
        Instruction::Printf,
        Instruction::RemoteCall,
        Instruction::StartContext,
        Instruction::EndContext,
        Instruction::CheckInterrupt,
        Instruction::Call("start".to_string()),
        Instruction::Ret,
        Instruction::Label("end".to_string()),
    ]
}

#[test]
fn test_push_int_exact_bytes() {
    let bytes = Instruction::Push(StackValue::Int(4096)).to_bytes();
    assert_eq!(
        bytes,
        vec![0x02, 8, 0, 0, 0, 0, 0, 0, 0, 0, 16, 0, 0, 0, 0, 0, 0]
    );
}

#[test]
fn test_push_string_exact_bytes() {
    let bytes = Instruction::Push(StackValue::String("ab".to_string())).to_bytes();
    assert_eq!(bytes, vec![0x01, 2, 0, 0, 0, 0, 0, 0, 0, b'a', b'b']);
}

#[test]
fn test_text_operand_length_counts_bytes() {
    let bytes = Instruction::Label("é".to_string()).to_bytes();
    assert_eq!(bytes, vec![0x06, 2, 0, 0, 0, 0, 0, 0, 0, 0xc3, 0xa9]);
}

#[test]
fn test_store_var_exact_bytes() {
    let bytes = Instruction::StoreVar("k".to_string(), "vw".to_string()).to_bytes();
    assert_eq!(
        bytes,
        vec![0x0a, 1, 0, 0, 0, 0, 0, 0, 0, b'k', 2, 0, 0, 0, 0, 0, 0, 0, b'v', b'w']
    );
}

#[test]
fn test_opcodes() {
    let expected: Vec<(Instruction, u8)> = vec![
        (Instruction::Push(StackValue::String(String::new())), 0x01),
        (Instruction::Push(StackValue::Int(0)), 0x02),
        (Instruction::Pop, 0x03),
        (Instruction::Dec, 0x04),
        (Instruction::JmpIfZero(String::new()), 0x05),
        (Instruction::Label(String::new()), 0x06),
        (Instruction::Stdout, 0x07),
        (Instruction::Stderr, 0x08),
        (Instruction::Sleep(0), 0x09),
        (Instruction::StoreVar(String::new(), String::new()), 0x0a),
        (Instruction::LoadVar(String::new()), 0x0b),
        (Instruction::Dup, 0x0c),
        (Instruction::Jump(String::new()), 0x0d),
        (Instruction::Printf, 0x0e),
        (Instruction::RemoteCall, 0x0f),
        (Instruction::StartContext, 0x10),
        (Instruction::EndContext, 0x11),
        (Instruction::CheckInterrupt, 0x12),
        (Instruction::Call(String::new()), 0x13),
        (Instruction::Ret, 0x14),
    ];
    for (instruction, code) in expected {
        assert_eq!(instruction.code(), code);
        assert_eq!(instruction.to_bytes()[0], code);
    }
}

#[test]
fn test_code_to_name() {
    assert_eq!(code_to_name(0x01), "PushString");
    assert_eq!(code_to_name(0x02), "PushInt");
    assert_eq!(code_to_name(0x05), "JmpIfZero");
    assert_eq!(code_to_name(0x12), "CheckInterrupt");
    assert_eq!(code_to_name(0x14), "Ret");
    assert_eq!(code_to_name(0x00), "Unknown");
    assert_eq!(code_to_name(0x15), "Unknown");
}

#[test]
fn test_generate_bytecode_concatenates_encodings() {
    let program = sample_program();
    let mut expected = Vec::new();
    for instruction in &program {
        expected.extend(instruction.to_bytes());
    }
    let (bytes, _, _) = generate_bytecode(program);
    assert_eq!(bytes, expected);
}

#[test]
fn test_label_offsets_point_past_the_label() {
    let program = vec![
        Instruction::Stdout,
        Instruction::Label("a".to_string()),
        Instruction::Dup,
        Instruction::Label("bc".to_string()),
    ];
    let (bytes, label_to_offset, offset_to_label) = generate_bytecode(program);
    // Stdout: 1 byte; Label("a"): 1 + 8 + 1; Dup: 1; Label("bc"): 1 + 8 + 2.
    assert_eq!(bytes.len(), 23);
    assert_eq!(label_to_offset.get("a"), Some(&11));
    assert_eq!(label_to_offset.get("bc"), Some(&23));
    assert_eq!(label_to_offset.get("missing"), None);
    assert_eq!(offset_to_label.get(&11), Some(&"a".to_string()));
    assert_eq!(offset_to_label.get(&23), Some(&"bc".to_string()));
    assert_eq!(offset_to_label.get(&12), None);
}

#[test]
fn test_repeated_label_keeps_the_last_offset() {
    let program = vec![
        Instruction::Label("a".to_string()),
        Instruction::Label("a".to_string()),
    ];
    let (_, label_to_offset, offset_to_label) = generate_bytecode(program);
    assert_eq!(label_to_offset.get("a"), Some(&20));
    assert_eq!(offset_to_label.get(&10), Some(&"a".to_string()));
    assert_eq!(offset_to_label.get(&20), Some(&"a".to_string()));
}

#[test]
fn test_decode_gives_the_program_back() {
    let program = sample_program();
    let (bytes, _, _) = generate_bytecode(program.clone());
    assert_eq!(decode(&bytes), Some(program));
}

#[test]
fn test_encode_decode_encode_is_stable() {
    let source = "
        service products {
            method get_products {
                print \"Fetching product orders %s\" with [\"12345\", \"67890\"]
                sleep 500ms
            }
            loop {
                call get_products
            }
        }
        ";
    let ast = parser::parse(source).unwrap();
    let program = CodeGenerator::new(&ast.services[0]).process().unwrap();
    let (bytes, labels, _) = generate_bytecode(program.clone());
    let decoded = decode(&bytes).unwrap();
    let (again, labels_again, _) = generate_bytecode(decoded);
    assert_eq!(again, bytes);
    for instruction in &program {
        if let Instruction::Label(label) = instruction {
            assert!(labels.get(label).is_some());
            assert_eq!(labels.get(label), labels_again.get(label));
        }
    }
}

#[test]
fn test_decode_at_reads_one_instruction() {
    let (bytes, _, _) = generate_bytecode(vec![
        Instruction::Sleep(7),
        Instruction::Push(StackValue::String("x".to_string())),
    ]);
    assert_eq!(decode_at(&bytes, 0), Ok((Instruction::Sleep(7), 17)));
    assert_eq!(
        decode_at(&bytes, 17),
        Ok((Instruction::Push(StackValue::String("x".to_string())), 27))
    );
    assert_eq!(decode_at(&bytes, 27), Err(DecodeError::Truncated));
}

#[test]
fn test_decode_rejects_unknown_opcode() {
    assert_eq!(decode_at(&vec![0x00], 0), Err(DecodeError::Malformed));
    assert_eq!(decode_at(&vec![0x15], 0), Err(DecodeError::Malformed));
    assert_eq!(decode(&vec![0x07, 0xff]), None);
}

#[test]
fn test_decode_rejects_truncated_operand() {
    // A length field that is cut short.
    assert_eq!(
        decode_at(&vec![0x01, 2, 0, 0], 0),
        Err(DecodeError::Truncated)
    );
    // A text that is shorter than its length field says.
    assert_eq!(
        decode_at(&vec![0x01, 2, 0, 0, 0, 0, 0, 0, 0, b'a'], 0),
        Err(DecodeError::Truncated)
    );
    // A length field that is larger than any image.
    assert_eq!(
        decode_at(&vec![0x01, 255, 255, 255, 255, 255, 255, 255, 255, b'a'], 0),
        Err(DecodeError::Truncated)
    );
    assert_eq!(decode(&vec![0x09, 8, 0, 0, 0, 0, 0, 0, 0, 1]), None);
}

#[test]
fn test_decode_rejects_malformed_operand() {
    // An integer operand whose length field is not 8.
    assert_eq!(
        decode_at(&vec![0x02, 4, 0, 0, 0, 0, 0, 0, 0, 1, 2, 3, 4], 0),
        Err(DecodeError::Malformed)
    );
    // A text operand that is not UTF-8.
    assert_eq!(
        decode_at(&vec![0x06, 1, 0, 0, 0, 0, 0, 0, 0, 0xff], 0),
        Err(DecodeError::Malformed)
    );
}

#[test]
fn test_decode_empty_image() {
    assert_eq!(decode(&Vec::new()), Some(Vec::new()));
}
