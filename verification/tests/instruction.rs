use mustermann::code_gen::instruction::{Instruction, StackValue};


#[test]
fn test_push_string_bytes() {
    let string_value = "Hello, world!".to_string();
    let string_len = string_value.len();
    let string_len_bytes = string_len.to_le_bytes();
    let instruction = Instruction::Push(StackValue::String(string_value.clone()));
    let bytes = instruction.to_bytes();
    assert_eq!(bytes[0], instruction.code());
    assert_eq!(bytes[1..string_len_bytes.len() + 1], string_len_bytes);
    assert_eq!(
        &bytes[string_len_bytes.len() + 1..],
        string_value.as_bytes()
    );
    assert_eq!(bytes.len(), 1 + string_len_bytes.len() + string_value.len());
}

#[test]
fn test_push_int_bytes() {
    let int_value: u64 = 4096;
    let int_value_bytes = int_value.to_le_bytes();
    let instruction = Instruction::Push(StackValue::Int(int_value));
    let bytes = instruction.to_bytes();
    assert_eq!(bytes[0], instruction.code());
    assert_eq!(
        bytes[1..int_value_bytes.len() + 1],
        int_value_bytes.len().to_le_bytes()
    );
    assert_eq!(&bytes[int_value_bytes.len() + 1..], &int_value_bytes);
    assert_eq!(
        bytes.len(),
        1 + int_value_bytes.len().to_le_bytes().len() + int_value_bytes.len()
    );
}

#[test]
fn test_jmp_if_zero_bytes() {
    let label = "label".to_string();
    let label_bytes = label.as_bytes();
    let instruction = Instruction::JmpIfZero(label.clone());
    let bytes = instruction.to_bytes();
    assert_eq!(bytes[0], instruction.code());
    assert_eq!(
        bytes[1..label_bytes.len().to_le_bytes().len() + 1],
        label_bytes.len().to_le_bytes()
    );
    assert_eq!(
        &bytes[label_bytes.len().to_le_bytes().len() + 1..],
        label_bytes
    );
    assert_eq!(
        bytes.len(),
        1 + label_bytes.len().to_le_bytes().len() + label_bytes.len()
    );
}

#[test]
fn test_label_bytes() {
    let label = "label".to_string();
    let label_bytes = label.as_bytes();
    let instruction = Instruction::Label(label.clone());
    let bytes = instruction.to_bytes();
    assert_eq!(bytes[0], instruction.code());
    assert_eq!(
        bytes[1..label_bytes.len().to_le_bytes().len() + 1],
        label_bytes.len().to_le_bytes()
    );
    assert_eq!(
        &bytes[label_bytes.len().to_le_bytes().len() + 1..],
        label_bytes
    );
    assert_eq!(
        bytes.len(),
        1 + label_bytes.len().to_le_bytes().len() + label_bytes.len()
    );
}

#[test]
fn test_stdout_bytes() {
    let instruction = Instruction::Stdout;
    let bytes = instruction.to_bytes();
    assert_eq!(bytes[0], instruction.code());
    assert_eq!(bytes.len(), 1);
}

#[test]
fn test_stderr_bytes() {
    let instruction = Instruction::Stderr;
    let bytes = instruction.to_bytes();
    assert_eq!(bytes[0], instruction.code());
    assert_eq!(bytes.len(), 1);
}

#[test]
fn test_sleep_bytes() {
    let ms = 1000;
    let instruction = Instruction::Sleep(ms);
    let bytes = instruction.to_bytes();
    assert_eq!(bytes[0], instruction.code());
    assert_eq!(
        bytes[1..ms.to_le_bytes().len().to_le_bytes().len() + 1],
        ms.to_le_bytes().len().to_le_bytes()
    );
    assert_eq!(
        &bytes[ms.to_le_bytes().len().to_le_bytes().len() + 1..],
        &ms.to_le_bytes()
    );
    assert_eq!(
        bytes.len(),
        1 + ms.to_le_bytes().len().to_le_bytes().len() + ms.to_le_bytes().len()
    );
}

#[test]
fn test_store_var_bytes() {
    let key = "key".to_string();
    let value = "value".to_string();

    let key_bytes = key.as_bytes();
    let value_bytes = value.as_bytes();

    let key_len = key_bytes.len();
    let value_len = value_bytes.len();

    let instruction = Instruction::StoreVar(key.clone(), value.clone());
    let bytes = instruction.to_bytes();
    assert_eq!(bytes[0], instruction.code());
    assert_eq!(
        bytes[1..key_len.to_le_bytes().len() + 1],
        key_len.to_le_bytes()
    );
    assert_eq!(
        &bytes[1 + key_len.to_le_bytes().len()
            ..1 + key_len.to_le_bytes().len() + key_bytes.len()],
        key_bytes
    );

    assert_eq!(
        bytes[1 + key_len.to_le_bytes().len() + key_bytes.len()
            ..1 + key_len.to_le_bytes().len()
                + key_bytes.len()
                + value_len.to_le_bytes().len()],
        value_len.to_le_bytes()
    );
    assert_eq!(
        &bytes[1
            + key_len.to_le_bytes().len()
            + key_bytes.len()
            + value_len.to_le_bytes().len()..],
        value_bytes
    );
}

#[test]
fn test_load_var_bytes() {
    let key = "key".to_string();
    let key_bytes = key.as_bytes();
    let key_len = key_bytes.len();
    let instruction = Instruction::LoadVar(key.clone());
    let bytes = instruction.to_bytes();
    assert_eq!(bytes[0], instruction.code());
    assert_eq!(
        bytes[1..key_len.to_le_bytes().len() + 1],
        key_len.to_le_bytes()
    );
    assert_eq!(&bytes[1 + key_len.to_le_bytes().len()..], key_bytes);
    assert_eq!(
        bytes.len(),
        1 + key_len.to_le_bytes().len() + key_bytes.len()
    );
}

#[test]
fn test_dup_bytes() {
    let instruction = Instruction::Dup;
    let bytes = instruction.to_bytes();
    assert_eq!(bytes[0], instruction.code());
    assert_eq!(bytes.len(), 1);
}

#[test]
fn test_jump_bytes() {
    let label = "label".to_string();
    let label_bytes = label.as_bytes();
    let instruction = Instruction::Jump(label.clone());
    let bytes = instruction.to_bytes();
    assert_eq!(bytes[0], instruction.code());
    assert_eq!(
        bytes[1..label_bytes.len().to_le_bytes().len() + 1],
        label_bytes.len().to_le_bytes()
    );
    assert_eq!(
        &bytes[1 + label_bytes.len().to_le_bytes().len()..],
        label_bytes
    );
    assert_eq!(
        bytes.len(),
        1 + label_bytes.len().to_le_bytes().len() + label_bytes.len()
    );
}

#[test]
fn test_printf_bytes() {
    let instruction = Instruction::Printf;
    let bytes = instruction.to_bytes();
    assert_eq!(bytes[0], instruction.code());
    assert_eq!(bytes.len(), 1);
}

#[test]
fn test_remote_call_bytes() {
    let instruction = Instruction::RemoteCall;
    let bytes = instruction.to_bytes();
    assert_eq!(bytes[0], instruction.code());
    assert_eq!(bytes.len(), 1);
}

#[test]
fn test_start_context_bytes() {
    let instruction = Instruction::StartContext;
    let bytes = instruction.to_bytes();
    assert_eq!(bytes[0], instruction.code());
    assert_eq!(bytes.len(), 1);
}

#[test]
fn test_end_context_bytes() {
    let instruction = Instruction::EndContext;
    let bytes = instruction.to_bytes();
    assert_eq!(bytes[0], instruction.code());
    assert_eq!(bytes.len(), 1);
}

#[test]
fn test_check_interrupt_bytes() {
    let instruction = Instruction::CheckInterrupt;
    let bytes = instruction.to_bytes();
    assert_eq!(bytes[0], instruction.code());
    assert_eq!(bytes.len(), 1);
}

#[test]
fn test_call_bytes() {
    let label = "label".to_string();
    let label_bytes = label.as_bytes();
    let instruction = Instruction::Call(label.clone());
    let bytes = instruction.to_bytes();
    assert_eq!(bytes[0], instruction.code());
    assert_eq!(
        bytes[1..label_bytes.len().to_le_bytes().len() + 1],
        label_bytes.len().to_le_bytes()
    );
}

#[test]
fn test_ret_bytes() {
    let instruction = Instruction::Ret;
    let bytes = instruction.to_bytes();
    assert_eq!(bytes[0], instruction.code());
    assert_eq!(bytes.len(), 1);
}
