//! The instruction set of the stack machine and its binary encoding.
//!
//! Each instruction is encoded as one opcode byte followed by its operands.
//! A text operand is a little-endian length followed by that many bytes of
//! UTF-8; an integer operand is the length 8 followed by the 8 little-endian
//! bytes of the value. A length field is 8 bytes wide, the width of a
//! pointer on a 64-bit host.

use crate::text::{decimal, decimal_digits, join};
use vstd::bytes::*;
use vstd::prelude::*;
use vstd::string::*;
use vstd::utf8::*;

verus! {

/// A value on an operand stack.
#[derive(Debug, Clone, PartialEq, Eq)]
pub enum StackValue {
    String(String),
    Int(u64),
}

/// The mathematical content of a [`StackValue`].
pub enum SpecValue {
    Text(Seq<char>),
    Int(u64),
}

impl View for StackValue {
    type V = SpecValue;

    open spec fn view(&self) -> SpecValue {
        match self {
            StackValue::String(s) => SpecValue::Text(s@),
            StackValue::Int(n) => SpecValue::Int(*n),
        }
    }
}

/// The text that a value is printed as: a text as it is, an integer as
/// its decimal numeral.
pub open spec fn display(v: SpecValue) -> Seq<char> {
    match v {
        SpecValue::Text(s) => s,
        SpecValue::Int(n) => decimal_digits(n as nat),
    }
}

impl StackValue {
    /// The text that the value is printed as.
    pub fn to_string(&self) -> (text: String)
        ensures
            text@ == display(self@),
    {
        match self {
            StackValue::String(s) => s.clone(),
            StackValue::Int(n) => decimal(*n),
        }
    }

    /// A copy of the value.
    pub fn duplicate(&self) -> (copy: StackValue)
        ensures
            copy@ == self@,
    {
        match self {
            StackValue::String(s) => StackValue::String(s.clone()),
            StackValue::Int(n) => StackValue::Int(*n),
        }
    }
}

/// An instruction of the stack machine.
#[derive(Debug, Clone, PartialEq, Eq)]
pub enum Instruction {
    /// Push a value onto the current frame
    Push(StackValue),
    /// Drop the current frame from the call stack
    Pop,
    /// Decrement the integer on top of the current frame
    Dec,
    /// Pop the top of the current frame and jump to a label if it is zero
    JmpIfZero(String),
    /// Anchor of a jump target
    Label(String),
    /// Print the top of the current frame to stdout
    Stdout,
    /// Print the top of the current frame to stderr
    Stderr,
    /// Sleep for a given number of milliseconds
    Sleep(u64),
    /// Store a text under a variable name
    StoreVar(String, String),
    /// Push the value of a variable
    LoadVar(String),
    /// Duplicate the top of the current frame
    Dup,
    /// Jump to a label
    Jump(String),
    /// Pop a value and a template, push the template with its first
    /// placeholder replaced by the value
    Printf,
    /// Pop a method name and a service name and ask the coordinator to
    /// invoke the method on the service
    RemoteCall,
    /// Start a new trace context
    StartContext,
    /// End the current trace context
    EndContext,
    /// Give pending remote invocations a chance to run
    CheckInterrupt,
    /// Call a local function, indicated by a label
    Call(String),
    /// Return from a local function
    Ret,
}

/// The mathematical content of an [`Instruction`].
pub enum SpecInstruction {
    Push(SpecValue),
    Pop,
    Dec,
    JmpIfZero(Seq<char>),
    Label(Seq<char>),
    Stdout,
    Stderr,
    Sleep(u64),
    StoreVar(Seq<char>, Seq<char>),
    LoadVar(Seq<char>),
    Dup,
    Jump(Seq<char>),
    Printf,
    RemoteCall,
    StartContext,
    EndContext,
    CheckInterrupt,
    Call(Seq<char>),
    Ret,
}

impl View for Instruction {
    type V = SpecInstruction;

    open spec fn view(&self) -> SpecInstruction {
        match self {
            Instruction::Push(v) => SpecInstruction::Push(v@),
            Instruction::Pop => SpecInstruction::Pop,
            Instruction::Dec => SpecInstruction::Dec,
            Instruction::JmpIfZero(l) => SpecInstruction::JmpIfZero(l@),
            Instruction::Label(l) => SpecInstruction::Label(l@),
            Instruction::Stdout => SpecInstruction::Stdout,
            Instruction::Stderr => SpecInstruction::Stderr,
            Instruction::Sleep(ms) => SpecInstruction::Sleep(*ms),
            Instruction::StoreVar(k, v) => SpecInstruction::StoreVar(k@, v@),
            Instruction::LoadVar(k) => SpecInstruction::LoadVar(k@),
            Instruction::Dup => SpecInstruction::Dup,
            Instruction::Jump(l) => SpecInstruction::Jump(l@),
            Instruction::Printf => SpecInstruction::Printf,
            Instruction::RemoteCall => SpecInstruction::RemoteCall,
            Instruction::StartContext => SpecInstruction::StartContext,
            Instruction::EndContext => SpecInstruction::EndContext,
            Instruction::CheckInterrupt => SpecInstruction::CheckInterrupt,
            Instruction::Call(l) => SpecInstruction::Call(l@),
            Instruction::Ret => SpecInstruction::Ret,
        }
    }
}

/// The name of an instruction with its operand in parentheses.
pub open spec fn with_operand(name: Seq<char>, operand: Seq<char>) -> Seq<char> {
    name + "("@ + operand + ")"@
}

/// The text that an instruction is shown as: its name and, in parentheses,
/// its operand; for `StoreVar`, the name of the variable, ` = ` and the text.
pub open spec fn instruction_text(i: SpecInstruction) -> Seq<char> {
    match i {
        SpecInstruction::Push(v) => with_operand("Push"@, display(v)),
        SpecInstruction::Pop => "Pop"@,
        SpecInstruction::Dec => "Dec"@,
        SpecInstruction::JmpIfZero(l) => with_operand("JmpIfZero"@, l),
        SpecInstruction::Label(l) => with_operand("Label"@, l),
        SpecInstruction::Stdout => "Stdout"@,
        SpecInstruction::Stderr => "Stderr"@,
        SpecInstruction::Sleep(ms) => with_operand("Sleep"@, decimal_digits(ms as nat)),
        SpecInstruction::StoreVar(k, v) => with_operand("StoreVar"@, k + " = "@ + v),
        SpecInstruction::LoadVar(k) => with_operand("LoadVar"@, k),
        SpecInstruction::Dup => "Dup"@,
        SpecInstruction::Jump(l) => with_operand("Jump"@, l),
        SpecInstruction::Printf => "Printf"@,
        SpecInstruction::RemoteCall => "RemoteCall"@,
        SpecInstruction::StartContext => "StartContext"@,
        SpecInstruction::EndContext => "EndContext"@,
        SpecInstruction::CheckInterrupt => "CheckInterrupt"@,
        SpecInstruction::Call(l) => with_operand("Call"@, l),
        SpecInstruction::Ret => "Ret"@,
    }
}

/// The name of an instruction with its operand in parentheses.
fn name_with_operand(name: &str, operand: &str) -> (text: String)
    ensures
        text@ == with_operand(name@, operand@),
{
    join(name, "(").concat(operand).concat(")")
}

/// The contents of a stream of instructions.
pub open spec fn stream_view(s: Seq<Instruction>) -> Seq<SpecInstruction> {
    Seq::new(s.len(), |i: int| s[i]@)
}

// The opcodes.
pub const PUSH_STRING_CODE: u8 = 0x01;
pub const PUSH_INT_CODE: u8 = 0x02;
pub const POP_CODE: u8 = 0x03;
pub const DEC_CODE: u8 = 0x04;
pub const JMP_IF_ZERO_CODE: u8 = 0x05;
pub const LABEL_CODE: u8 = 0x06;
pub const STDOUT_CODE: u8 = 0x07;
pub const STDERR_CODE: u8 = 0x08;
pub const SLEEP_CODE: u8 = 0x09;
pub const STORE_VAR_CODE: u8 = 0x0a;
pub const LOAD_VAR_CODE: u8 = 0x0b;
pub const DUP_CODE: u8 = 0x0c;
pub const JUMP_CODE: u8 = 0x0d;
pub const PRINTF_CODE: u8 = 0x0e;
pub const REMOTE_CALL_CODE: u8 = 0x0f;
pub const START_CONTEXT_CODE: u8 = 0x10;
pub const END_CONTEXT_CODE: u8 = 0x11;
pub const CHECK_INTERRUPT_CODE: u8 = 0x12;
pub const CALL_CODE: u8 = 0x13;
pub const RET_CODE: u8 = 0x14;

/// The name of the instruction that an opcode stands for.
pub open spec fn opcode_name(code: u8) -> Seq<char> {
    if code == PUSH_STRING_CODE {
        "PushString"@
    } else if code == PUSH_INT_CODE {
        "PushInt"@
    } else if code == POP_CODE {
        "Pop"@
    } else if code == DEC_CODE {
        "Dec"@
    } else if code == JMP_IF_ZERO_CODE {
        "JmpIfZero"@
    } else if code == LABEL_CODE {
        "Label"@
    } else if code == STDOUT_CODE {
        "Stdout"@
    } else if code == STDERR_CODE {
        "Stderr"@
    } else if code == SLEEP_CODE {
        "Sleep"@
    } else if code == STORE_VAR_CODE {
        "StoreVar"@
    } else if code == LOAD_VAR_CODE {
        "LoadVar"@
    } else if code == DUP_CODE {
        "Dup"@
    } else if code == JUMP_CODE {
        "Jump"@
    } else if code == PRINTF_CODE {
        "Printf"@
    } else if code == REMOTE_CALL_CODE {
        "RemoteCall"@
    } else if code == START_CONTEXT_CODE {
        "StartContext"@
    } else if code == END_CONTEXT_CODE {
        "EndContext"@
    } else if code == CHECK_INTERRUPT_CODE {
        "CheckInterrupt"@
    } else if code == CALL_CODE {
        "Call"@
    } else if code == RET_CODE {
        "Ret"@
    } else {
        "Unknown"@
    }
}

/// The name of the instruction that an opcode stands for; `Unknown` for a
/// byte that is no opcode.
pub fn code_to_name(code: u8) -> (name: String)
    ensures
        name@ == opcode_name(code),
{
    let name: &str = if code == PUSH_STRING_CODE {
        "PushString"
    } else if code == PUSH_INT_CODE {
        "PushInt"
    } else if code == POP_CODE {
        "Pop"
    } else if code == DEC_CODE {
        "Dec"
    } else if code == JMP_IF_ZERO_CODE {
        "JmpIfZero"
    } else if code == LABEL_CODE {
        "Label"
    } else if code == STDOUT_CODE {
        "Stdout"
    } else if code == STDERR_CODE {
        "Stderr"
    } else if code == SLEEP_CODE {
        "Sleep"
    } else if code == STORE_VAR_CODE {
        "StoreVar"
    } else if code == LOAD_VAR_CODE {
        "LoadVar"
    } else if code == DUP_CODE {
        "Dup"
    } else if code == JUMP_CODE {
        "Jump"
    } else if code == PRINTF_CODE {
        "Printf"
    } else if code == REMOTE_CALL_CODE {
        "RemoteCall"
    } else if code == START_CONTEXT_CODE {
        "StartContext"
    } else if code == END_CONTEXT_CODE {
        "EndContext"
    } else if code == CHECK_INTERRUPT_CODE {
        "CheckInterrupt"
    } else if code == CALL_CODE {
        "Call"
    } else if code == RET_CODE {
        "Ret"
    } else {
        "Unknown"
    };
    name.to_owned()
}

/// The opcode of an instruction.
pub open spec fn opcode(i: SpecInstruction) -> u8 {
    match i {
        SpecInstruction::Push(SpecValue::Text(_)) => PUSH_STRING_CODE,
        SpecInstruction::Push(SpecValue::Int(_)) => PUSH_INT_CODE,
        SpecInstruction::Pop => POP_CODE,
        SpecInstruction::Dec => DEC_CODE,
        SpecInstruction::JmpIfZero(_) => JMP_IF_ZERO_CODE,
        SpecInstruction::Label(_) => LABEL_CODE,
        SpecInstruction::Stdout => STDOUT_CODE,
        SpecInstruction::Stderr => STDERR_CODE,
        SpecInstruction::Sleep(_) => SLEEP_CODE,
        SpecInstruction::StoreVar(_, _) => STORE_VAR_CODE,
        SpecInstruction::LoadVar(_) => LOAD_VAR_CODE,
        SpecInstruction::Dup => DUP_CODE,
        SpecInstruction::Jump(_) => JUMP_CODE,
        SpecInstruction::Printf => PRINTF_CODE,
        SpecInstruction::RemoteCall => REMOTE_CALL_CODE,
        SpecInstruction::StartContext => START_CONTEXT_CODE,
        SpecInstruction::EndContext => END_CONTEXT_CODE,
        SpecInstruction::CheckInterrupt => CHECK_INTERRUPT_CODE,
        SpecInstruction::Call(_) => CALL_CODE,
        SpecInstruction::Ret => RET_CODE,
    }
}

/// The encoding of a text operand: its length in bytes, then its UTF-8 bytes.
pub open spec fn encode_text(s: Seq<char>) -> Seq<u8> {
    spec_u64_to_le_bytes(encode_utf8(s).len() as u64) + encode_utf8(s)
}

/// The encoding of an integer operand: the length 8, then the value.
pub open spec fn encode_int(n: u64) -> Seq<u8> {
    spec_u64_to_le_bytes(8) + spec_u64_to_le_bytes(n)
}

/// The operand bytes that follow the opcode of an instruction.
pub open spec fn encode_operands(i: SpecInstruction) -> Seq<u8> {
    match i {
        SpecInstruction::Push(SpecValue::Text(s)) => encode_text(s),
        SpecInstruction::Push(SpecValue::Int(n)) => encode_int(n),
        SpecInstruction::JmpIfZero(l) => encode_text(l),
        SpecInstruction::Label(l) => encode_text(l),
        SpecInstruction::Sleep(ms) => encode_int(ms),
        SpecInstruction::StoreVar(k, v) => encode_text(k) + encode_text(v),
        SpecInstruction::LoadVar(k) => encode_text(k),
        SpecInstruction::Jump(l) => encode_text(l),
        SpecInstruction::Call(l) => encode_text(l),
        _ => Seq::<u8>::empty(),
    }
}

/// The binary encoding of one instruction.
pub open spec fn encode_instruction(i: SpecInstruction) -> Seq<u8> {
    seq![opcode(i)] + encode_operands(i)
}

/// Whether the length of every text operand of `i` fits its length field.
pub open spec fn well_sized(i: SpecInstruction) -> bool {
    match i {
        SpecInstruction::Push(SpecValue::Text(s)) => encode_utf8(s).len() <= u64::MAX,
        SpecInstruction::JmpIfZero(l) => encode_utf8(l).len() <= u64::MAX,
        SpecInstruction::Label(l) => encode_utf8(l).len() <= u64::MAX,
        SpecInstruction::StoreVar(k, v) => encode_utf8(k).len() <= u64::MAX && encode_utf8(
            v,
        ).len() <= u64::MAX,
        SpecInstruction::LoadVar(k) => encode_utf8(k).len() <= u64::MAX,
        SpecInstruction::Jump(l) => encode_utf8(l).len() <= u64::MAX,
        SpecInstruction::Call(l) => encode_utf8(l).len() <= u64::MAX,
        _ => true,
    }
}

/// Appends the encoding of a text operand to `bytes`.
fn push_text(bytes: &mut Vec<u8>, s: &str)
    ensures
        final(bytes)@ == old(bytes)@ + encode_text(s@),
        encode_utf8(s@).len() <= u64::MAX,
{
    let raw = s.as_bytes();
    let mut len_bytes = u64_to_le_bytes(raw.len() as u64);
    bytes.append(&mut len_bytes);
    bytes.extend_from_slice(raw);
}

/// Appends the encoding of an integer operand to `bytes`.
fn push_int(bytes: &mut Vec<u8>, n: u64)
    ensures
        final(bytes)@ == old(bytes)@ + encode_int(n),
{
    let mut len_bytes = u64_to_le_bytes(8);
    let mut value_bytes = u64_to_le_bytes(n);
    bytes.append(&mut len_bytes);
    bytes.append(&mut value_bytes);
}

impl Instruction {
    /// The text that the instruction is shown as.
    pub fn to_string(&self) -> (text: String)
        ensures
            text@ == instruction_text(self@),
    {
        match self {
            Instruction::Push(value) => {
                let shown = value.to_string();
                name_with_operand("Push", shown.as_str())
            },
            Instruction::Pop => "Pop".to_owned(),
            Instruction::Dec => "Dec".to_owned(),
            Instruction::JmpIfZero(label) => name_with_operand("JmpIfZero", label.as_str()),
            Instruction::Label(label) => name_with_operand("Label", label.as_str()),
            Instruction::Stdout => "Stdout".to_owned(),
            Instruction::Stderr => "Stderr".to_owned(),
            Instruction::Sleep(ms) => {
                let shown = decimal(*ms);
                name_with_operand("Sleep", shown.as_str())
            },
            Instruction::StoreVar(key, value) => {
                let shown = join(key.as_str(), " = ").concat(value.as_str());
                name_with_operand("StoreVar", shown.as_str())
            },
            Instruction::LoadVar(key) => name_with_operand("LoadVar", key.as_str()),
            Instruction::Dup => "Dup".to_owned(),
            Instruction::Jump(label) => name_with_operand("Jump", label.as_str()),
            Instruction::Printf => "Printf".to_owned(),
            Instruction::RemoteCall => "RemoteCall".to_owned(),
            Instruction::StartContext => "StartContext".to_owned(),
            Instruction::EndContext => "EndContext".to_owned(),
            Instruction::CheckInterrupt => "CheckInterrupt".to_owned(),
            Instruction::Call(label) => name_with_operand("Call", label.as_str()),
            Instruction::Ret => "Ret".to_owned(),
        }
    }

    /// The opcode of the instruction.
    pub fn code(&self) -> (code: u8)
        ensures
            code == opcode(self@),
    {
        match self {
            Instruction::Push(StackValue::String(_)) => PUSH_STRING_CODE,
            Instruction::Push(StackValue::Int(_)) => PUSH_INT_CODE,
            Instruction::Pop => POP_CODE,
            Instruction::Dec => DEC_CODE,
            Instruction::JmpIfZero(_) => JMP_IF_ZERO_CODE,
            Instruction::Label(_) => LABEL_CODE,
            Instruction::Stdout => STDOUT_CODE,
            Instruction::Stderr => STDERR_CODE,
            Instruction::Sleep(_) => SLEEP_CODE,
            Instruction::StoreVar(_, _) => STORE_VAR_CODE,
            Instruction::LoadVar(_) => LOAD_VAR_CODE,
            Instruction::Dup => DUP_CODE,
            Instruction::Jump(_) => JUMP_CODE,
            Instruction::Printf => PRINTF_CODE,
            Instruction::RemoteCall => REMOTE_CALL_CODE,
            Instruction::StartContext => START_CONTEXT_CODE,
            Instruction::EndContext => END_CONTEXT_CODE,
            Instruction::CheckInterrupt => CHECK_INTERRUPT_CODE,
            Instruction::Call(_) => CALL_CODE,
            Instruction::Ret => RET_CODE,
        }
    }

    /// The binary encoding of the instruction.
    pub fn to_bytes(&self) -> (bytes: Vec<u8>)
        ensures
            bytes@ == encode_instruction(self@),
            well_sized(self@),
    {
        let mut bytes: Vec<u8> = Vec::new();
        bytes.push(self.code());
        match self {
            Instruction::Push(StackValue::String(s)) => push_text(&mut bytes, s.as_str()),
            Instruction::Push(StackValue::Int(n)) => push_int(&mut bytes, *n),
            Instruction::JmpIfZero(label) => push_text(&mut bytes, label.as_str()),
            Instruction::Label(label) => push_text(&mut bytes, label.as_str()),
            Instruction::Sleep(ms) => push_int(&mut bytes, *ms),
            Instruction::StoreVar(key, value) => {
                push_text(&mut bytes, key.as_str());
                push_text(&mut bytes, value.as_str());
            },
            Instruction::LoadVar(key) => push_text(&mut bytes, key.as_str()),
            Instruction::Jump(label) => push_text(&mut bytes, label.as_str()),
            Instruction::Call(label) => push_text(&mut bytes, label.as_str()),
            _ => {},
        }
        proof {
            assert(bytes@ =~= encode_instruction(self@));
        }
        bytes
    }
}

} // verus!
