//! Listings of generated code: for each instruction its name and a
//! description.

use crate::code_gen::instruction::{Instruction, SpecInstruction, SpecValue, StackValue};
use crate::text::{debug_str, debug_str_text, decimal, decimal_digits, join};
use vstd::prelude::*;

verus! {

/// A row of a listing.
pub struct AnnotatedInstruction {
    instruction: String,
    description: String,
}

/// The mathematical content of an [`AnnotatedInstruction`].
pub struct SpecAnnotatedInstruction {
    pub instruction: Seq<char>,
    pub description: Seq<char>,
}

impl View for AnnotatedInstruction {
    type V = SpecAnnotatedInstruction;

    closed spec fn view(&self) -> SpecAnnotatedInstruction {
        SpecAnnotatedInstruction {
            instruction: self.instruction@,
            description: self.description@,
        }
    }
}

/// How a value is shown in a listing: its kind, and in parentheses the
/// text in the form of a literal or the number.
pub open spec fn value_text(v: SpecValue) -> Seq<char> {
    match v {
        SpecValue::Text(s) => "String("@ + debug_str_text(s) + ")"@,
        SpecValue::Int(n) => "Int("@ + decimal_digits(n as nat) + ")"@,
    }
}

/// The row of a listing for an instruction.
pub open spec fn annotation(i: SpecInstruction) -> SpecAnnotatedInstruction {
    match i {
        SpecInstruction::Push(v) => SpecAnnotatedInstruction {
            instruction: "Push"@,
            description: "Push "@ + value_text(v),
        },
        SpecInstruction::Pop => SpecAnnotatedInstruction {
            instruction: "Pop"@,
            description: "Pop the top of the stack"@,
        },
        SpecInstruction::Dec => SpecAnnotatedInstruction {
            instruction: "Dec"@,
            description: "Decrement the top of the stack"@,
        },
        SpecInstruction::JmpIfZero(label) => SpecAnnotatedInstruction {
            instruction: "JmpIfZero"@,
            description: "Jump if the top of the stack is zero to "@ + label,
        },
        SpecInstruction::Label(label) => SpecAnnotatedInstruction {
            instruction: "Label"@,
            description: "Label "@ + label,
        },
        SpecInstruction::Stdout => SpecAnnotatedInstruction {
            instruction: "Stdout"@,
            description: "Print the top of the stack to stdout"@,
        },
        SpecInstruction::Stderr => SpecAnnotatedInstruction {
            instruction: "Stderr"@,
            description: "Print the top of the stack to stderr"@,
        },
        SpecInstruction::Sleep(ms) => SpecAnnotatedInstruction {
            instruction: "Sleep"@,
            description: "Sleep for "@ + decimal_digits(ms as nat) + "ms"@,
        },
        SpecInstruction::StoreVar(var, _) => SpecAnnotatedInstruction {
            instruction: "StoreVar"@,
            description: "Store the top of the stack in the variable "@ + var,
        },
        SpecInstruction::LoadVar(var) => SpecAnnotatedInstruction {
            instruction: "LoadVar"@,
            description: "Load the variable "@ + var + " into the top of the stack"@,
        },
        SpecInstruction::Dup => SpecAnnotatedInstruction {
            instruction: "Dup"@,
            description: "Duplicate the top of the stack"@,
        },
        SpecInstruction::Jump(label) => SpecAnnotatedInstruction {
            instruction: "Jump"@,
            description: "Jump to "@ + label,
        },
        SpecInstruction::Printf => SpecAnnotatedInstruction {
            instruction: "Printf"@,
            description: "Takes the top two values of the stack, and pushes the formatted string back onto the stack"@,
        },
        SpecInstruction::RemoteCall => SpecAnnotatedInstruction {
            instruction: "RemoteCall"@,
            description: "Call a remote service"@,
        },
        SpecInstruction::StartContext => SpecAnnotatedInstruction {
            instruction: "StartContext"@,
            description: "Start a new context"@,
        },
        SpecInstruction::EndContext => SpecAnnotatedInstruction {
            instruction: "EndContext"@,
            description: "End the current context"@,
        },
        SpecInstruction::CheckInterrupt => SpecAnnotatedInstruction {
            instruction: "CheckInterrupt"@,
            description: "No operation"@,
        },
        SpecInstruction::Call(label) => SpecAnnotatedInstruction {
            instruction: "Call"@,
            description: "Call "@ + label,
        },
        SpecInstruction::Ret => SpecAnnotatedInstruction {
            instruction: "Ret"@,
            description: "Return from the current function"@,
        },
    }
}

/// Shows a value as a listing does.
fn value_to_string(v: &StackValue) -> (text: String)
    ensures
        text@ == value_text(v@),
{
    match v {
        StackValue::String(s) => {
            let shown = debug_str(s.as_str());
            join("String(", shown.as_str()).concat(")")
        },
        StackValue::Int(n) => {
            let shown = decimal(*n);
            join("Int(", shown.as_str()).concat(")")
        },
    }
}

impl AnnotatedInstruction {
    /// A row with the given name and description.
    pub fn new(instruction: String, description: String) -> (row: Self)
        ensures
            row@ == (SpecAnnotatedInstruction {
                instruction: instruction@,
                description: description@,
            }),
    {
        Self { instruction, description }
    }

    /// The name of the instruction.
    pub fn instruction(&self) -> (name: &String)
        ensures
            name@ == self@.instruction,
    {
        &self.instruction
    }

    /// What the instruction does.
    pub fn description(&self) -> (text: &String)
        ensures
            text@ == self@.description,
    {
        &self.description
    }

    /// The row of a listing for `instruction`.
    pub fn annotate(instruction: &Instruction) -> (row: Self)
        ensures
            row@ == annotation(instruction@),
    {
        match instruction {
            Instruction::Push(stack_value) => {
                let shown = value_to_string(stack_value);
                Self::new("Push".to_owned(), join("Push ", shown.as_str()))
            },
            Instruction::Pop => Self::new("Pop".to_owned(), "Pop the top of the stack".to_owned()),
            Instruction::Dec => Self::new(
                "Dec".to_owned(),
                "Decrement the top of the stack".to_owned(),
            ),
            Instruction::JmpIfZero(label) => Self::new(
                "JmpIfZero".to_owned(),
                join("Jump if the top of the stack is zero to ", label.as_str()),
            ),
            Instruction::Label(label) => Self::new(
                "Label".to_owned(),
                join("Label ", label.as_str()),
            ),
            Instruction::Stdout => Self::new(
                "Stdout".to_owned(),
                "Print the top of the stack to stdout".to_owned(),
            ),
            Instruction::Stderr => Self::new(
                "Stderr".to_owned(),
                "Print the top of the stack to stderr".to_owned(),
            ),
            Instruction::Sleep(ms) => {
                let shown = decimal(*ms);
                Self::new("Sleep".to_owned(), join("Sleep for ", shown.as_str()).concat("ms"))
            },
            Instruction::StoreVar(var, _) => Self::new(
                "StoreVar".to_owned(),
                join("Store the top of the stack in the variable ", var.as_str()),
            ),
            Instruction::LoadVar(var) => Self::new(
                "LoadVar".to_owned(),
                join("Load the variable ", var.as_str()).concat(" into the top of the stack"),
            ),
            Instruction::Dup => Self::new(
                "Dup".to_owned(),
                "Duplicate the top of the stack".to_owned(),
            ),
            Instruction::Jump(label) => Self::new(
                "Jump".to_owned(),
                join("Jump to ", label.as_str()),
            ),
            Instruction::Printf => Self::new(
                "Printf".to_owned(),
                "Takes the top two values of the stack, and pushes the formatted string back onto the stack".to_owned(),
            ),
            Instruction::RemoteCall => Self::new(
                "RemoteCall".to_owned(),
                "Call a remote service".to_owned(),
            ),
            Instruction::StartContext => Self::new(
                "StartContext".to_owned(),
                "Start a new context".to_owned(),
            ),
            Instruction::EndContext => Self::new(
                "EndContext".to_owned(),
                "End the current context".to_owned(),
            ),
            Instruction::CheckInterrupt => Self::new(
                "CheckInterrupt".to_owned(),
                "No operation".to_owned(),
            ),
            Instruction::Call(label) => Self::new(
                "Call".to_owned(),
                join("Call ", label.as_str()),
            ),
            Instruction::Ret => Self::new(
                "Ret".to_owned(),
                "Return from the current function".to_owned(),
            ),
        }
    }
}

} // verus!
