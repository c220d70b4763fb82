//! The bytecode image of an instruction stream: the concatenated encodings
//! of its instructions, and two indexes that relate labels to byte offsets.

use crate::code_gen::instruction::{
    encode_instruction, opcode, stream_view, well_sized, Instruction, SpecInstruction, SpecValue,
    StackValue, CALL_CODE, CHECK_INTERRUPT_CODE, DEC_CODE, DUP_CODE, END_CONTEXT_CODE,
    JMP_IF_ZERO_CODE, JUMP_CODE, LABEL_CODE, LOAD_VAR_CODE, POP_CODE, PRINTF_CODE, PUSH_INT_CODE,
    PUSH_STRING_CODE, REMOTE_CALL_CODE, RET_CODE, SLEEP_CODE, START_CONTEXT_CODE, STDERR_CODE,
    STDOUT_CODE, STORE_VAR_CODE,
};
use crate::text::string_from_utf8;
use vstd::bytes::*;
use vstd::hash_map::*;
use vstd::prelude::*;
use vstd::slice::*;
use vstd::utf8::*;

pub mod laws;
pub mod roundtrip;

verus! {

/// The encodings of the instructions of `s`, one after the other.
pub open spec fn encode_stream(s: Seq<SpecInstruction>) -> Seq<u8>
    decreases s.len(),
{
    if s.len() == 0 {
        Seq::<u8>::empty()
    } else {
        encode_stream(s.drop_last()) + encode_instruction(s.last())
    }
}

/// The byte offset at which instruction `k` of `s` starts; for `k == s.len()`,
/// the length of the whole image.
pub open spec fn offset_of(s: Seq<SpecInstruction>, k: int) -> nat {
    encode_stream(s.take(k)).len()
}

/// For each label, the offset just past the last `Label` instruction that
/// carries it.
pub open spec fn label_to_offset(s: Seq<SpecInstruction>) -> Map<Seq<char>, usize>
    decreases s.len(),
{
    if s.len() == 0 {
        Map::<Seq<char>, usize>::empty()
    } else {
        let before = label_to_offset(s.drop_last());
        match s.last() {
            SpecInstruction::Label(l) => before.insert(l, encode_stream(s).len() as usize),
            _ => before,
        }
    }
}

/// For each offset just past a `Label` instruction, the label it carries.
pub open spec fn offset_to_label(s: Seq<SpecInstruction>) -> Map<usize, Seq<char>>
    decreases s.len(),
{
    if s.len() == 0 {
        Map::<usize, Seq<char>>::empty()
    } else {
        let before = offset_to_label(s.drop_last());
        match s.last() {
            SpecInstruction::Label(l) => before.insert(encode_stream(s).len() as usize, l),
            _ => before,
        }
    }
}

/// Whether every text operand in `s` is short enough for its length field.
/// This holds of every stream that exists at run time.
pub open spec fn all_well_sized(s: Seq<SpecInstruction>) -> bool {
    forall|k: int| 0 <= k < s.len() ==> well_sized(#[trigger] s[k])
}

/// The contents of an offset index: each label seen as its characters.
pub open spec fn index_view(m: Map<usize, String>) -> Map<usize, Seq<char>> {
    m.map_values(|l: String| l@)
}

/// Encodes `instructions` and records where each label points.
///
/// Returns the image, the map from label to the offset just past its `Label`
/// instruction, and the inverse map from such offsets to labels.
pub fn generate_bytecode(instructions: Vec<Instruction>) -> (image: (
    Vec<u8>,
    StringHashMap<usize>,
    HashMapWithView<usize, String>,
))
    ensures
        image.0@ == encode_stream(stream_view(instructions@)),
        image.1@ == label_to_offset(stream_view(instructions@)),
        index_view(image.2@) == offset_to_label(stream_view(instructions@)),
        all_well_sized(stream_view(instructions@)),
{
    broadcast use vstd::std_specs::hash::group_hash_axioms;

    let mut bytes: Vec<u8> = Vec::new();
    let mut label_jump_map: StringHashMap<usize> = StringHashMap::new();
    let mut label_index_map: HashMapWithView<usize, String> = HashMapWithView::new();
    let ghost stream = stream_view(instructions@);
    proof {
        assert(index_view(label_index_map@) =~= offset_to_label(stream.take(0)));
    }
    let mut k: usize = 0;
    while k < instructions.len()
        invariant
            k <= instructions.len(),
            stream == stream_view(instructions@),
            bytes@ == encode_stream(stream.take(k as int)),
            label_jump_map@ == label_to_offset(stream.take(k as int)),
            index_view(label_index_map@) == offset_to_label(stream.take(k as int)),
            forall|j: int| 0 <= j < k ==> well_sized(#[trigger] stream[j]),
        decreases instructions.len() - k,
    {
        let instruction = &instructions[k];
        let mut instruction_bytes = instruction.to_bytes();
        bytes.append(&mut instruction_bytes);
        proof {
            let next = stream.take(k + 1);
            assert(next.drop_last() =~= stream.take(k as int));
            assert(next.last() == instruction@);
        }
        if let Instruction::Label(label) = instruction {
            let ghost index_before = label_index_map@;
            label_jump_map.insert(label.clone(), bytes.len());
            label_index_map.insert(bytes.len(), label.clone());
            proof {
                assert(index_view(label_index_map@) =~= index_view(index_before).insert(
                    bytes.len(),
                    label@,
                ));
            }
        }
        k += 1;
    }
    proof {
        assert(stream.take(k as int) =~= stream);
    }
    (bytes, label_jump_map, label_index_map)
}

/// What reading a value at some offset of an image yields.
pub enum Decoded<T> {
    /// The value, and the offset just past its encoding.
    Done(T, int),
    /// The encoding would run past the end of the image.
    Truncated,
    /// The bytes at the offset are no encoding of such a value.
    Malformed,
}

/// Why an instruction could not be read from an image.
#[derive(Debug, Clone, Copy, PartialEq, Eq)]
pub enum DecodeError {
    /// The encoding would run past the end of the image.
    Truncated,
    /// The opcode is unknown, or an operand is not what the opcode asks for.
    Malformed,
}

/// The length field at offset `at`, if the image holds one there.
pub open spec fn decode_length(bytes: Seq<u8>, at: int) -> Option<nat> {
    if 0 <= at && at + 8 <= bytes.len() {
        Some(spec_u64_from_le_bytes(bytes.subrange(at, at + 8)) as nat)
    } else {
        None
    }
}

/// The text operand at offset `at`: a length field, then that many bytes of
/// valid UTF-8.
pub open spec fn decode_text(bytes: Seq<u8>, at: int) -> Decoded<Seq<char>> {
    match decode_length(bytes, at) {
        None => Decoded::Truncated,
        Some(n) => if at + 8 + n > bytes.len() {
            Decoded::Truncated
        } else if valid_utf8(bytes.subrange(at + 8, at + 8 + n)) {
            Decoded::Done(decode_utf8(bytes.subrange(at + 8, at + 8 + n)), at + 8 + n)
        } else {
            Decoded::Malformed
        },
    }
}

/// The integer operand at offset `at`: the length field 8, then 8 bytes.
pub open spec fn decode_int(bytes: Seq<u8>, at: int) -> Decoded<u64> {
    match decode_length(bytes, at) {
        None => Decoded::Truncated,
        Some(n) => if n != 8 {
            Decoded::Malformed
        } else if at + 16 > bytes.len() {
            Decoded::Truncated
        } else {
            Decoded::Done(spec_u64_from_le_bytes(bytes.subrange(at + 8, at + 16)), at + 16)
        },
    }
}

/// Whether `op` is the opcode of an instruction with one text operand.
pub open spec fn takes_text(op: u8) -> bool {
    op == PUSH_STRING_CODE || op == JMP_IF_ZERO_CODE || op == LABEL_CODE || op == LOAD_VAR_CODE
        || op == JUMP_CODE || op == CALL_CODE
}

/// Whether `op` is the opcode of an instruction with one integer operand.
pub open spec fn takes_int(op: u8) -> bool {
    op == PUSH_INT_CODE || op == SLEEP_CODE
}

/// The instruction with opcode `op` and text operand `s`.
pub open spec fn text_instruction(op: u8, s: Seq<char>) -> SpecInstruction
    recommends
        takes_text(op),
{
    if op == PUSH_STRING_CODE {
        SpecInstruction::Push(SpecValue::Text(s))
    } else if op == JMP_IF_ZERO_CODE {
        SpecInstruction::JmpIfZero(s)
    } else if op == LABEL_CODE {
        SpecInstruction::Label(s)
    } else if op == LOAD_VAR_CODE {
        SpecInstruction::LoadVar(s)
    } else if op == JUMP_CODE {
        SpecInstruction::Jump(s)
    } else {
        SpecInstruction::Call(s)
    }
}

/// The instruction with opcode `op` and integer operand `n`.
pub open spec fn int_instruction(op: u8, n: u64) -> SpecInstruction
    recommends
        takes_int(op),
{
    if op == PUSH_INT_CODE {
        SpecInstruction::Push(SpecValue::Int(n))
    } else {
        SpecInstruction::Sleep(n)
    }
}

/// The instruction without operands that has opcode `op`, if there is one.
pub open spec fn plain_instruction(op: u8) -> Option<SpecInstruction> {
    if op == POP_CODE {
        Some(SpecInstruction::Pop)
    } else if op == DEC_CODE {
        Some(SpecInstruction::Dec)
    } else if op == STDOUT_CODE {
        Some(SpecInstruction::Stdout)
    } else if op == STDERR_CODE {
        Some(SpecInstruction::Stderr)
    } else if op == DUP_CODE {
        Some(SpecInstruction::Dup)
    } else if op == PRINTF_CODE {
        Some(SpecInstruction::Printf)
    } else if op == REMOTE_CALL_CODE {
        Some(SpecInstruction::RemoteCall)
    } else if op == START_CONTEXT_CODE {
        Some(SpecInstruction::StartContext)
    } else if op == END_CONTEXT_CODE {
        Some(SpecInstruction::EndContext)
    } else if op == CHECK_INTERRUPT_CODE {
        Some(SpecInstruction::CheckInterrupt)
    } else if op == RET_CODE {
        Some(SpecInstruction::Ret)
    } else {
        None
    }
}

/// The instruction whose encoding starts at offset `ip` of the image.
pub open spec fn decode_instruction(bytes: Seq<u8>, ip: int) -> Decoded<SpecInstruction> {
    if !(0 <= ip < bytes.len()) {
        Decoded::Truncated
    } else if takes_text(bytes[ip]) {
        match decode_text(bytes, ip + 1) {
            Decoded::Done(s, next) => Decoded::Done(text_instruction(bytes[ip], s), next),
            Decoded::Truncated => Decoded::Truncated,
            Decoded::Malformed => Decoded::Malformed,
        }
    } else if takes_int(bytes[ip]) {
        match decode_int(bytes, ip + 1) {
            Decoded::Done(n, next) => Decoded::Done(int_instruction(bytes[ip], n), next),
            Decoded::Truncated => Decoded::Truncated,
            Decoded::Malformed => Decoded::Malformed,
        }
    } else if bytes[ip] == STORE_VAR_CODE {
        match decode_text(bytes, ip + 1) {
            Decoded::Done(k, mid) => match decode_text(bytes, mid) {
                Decoded::Done(v, next) => Decoded::Done(SpecInstruction::StoreVar(k, v), next),
                Decoded::Truncated => Decoded::Truncated,
                Decoded::Malformed => Decoded::Malformed,
            },
            Decoded::Truncated => Decoded::Truncated,
            Decoded::Malformed => Decoded::Malformed,
        }
    } else {
        match plain_instruction(bytes[ip]) {
            Some(i) => Decoded::Done(i, ip + 1),
            None => Decoded::Malformed,
        }
    }
}

/// The instructions encoded from offset `ip` to the end of the image, if
/// the bytes from there on are a sequence of encodings.
pub open spec fn decode_stream(bytes: Seq<u8>, ip: int) -> Option<Seq<SpecInstruction>>
    decreases bytes.len() - ip,
{
    if ip < 0 || ip >= bytes.len() {
        Some(Seq::<SpecInstruction>::empty())
    } else {
        match decode_instruction(bytes, ip) {
            Decoded::Done(i, next) => if next > ip {
                match decode_stream(bytes, next) {
                    Some(rest) => Some(seq![i] + rest),
                    None => None,
                }
            } else {
                None
            },
            _ => None,
        }
    }
}

/// Whether the outcome `res` of reading a text is what `d` describes.
pub open spec fn text_read_as(res: Result<(String, usize), DecodeError>, d: Decoded<Seq<char>>) -> bool {
    match d {
        Decoded::Done(s, next) => res matches Ok((t, n)) && t@ == s && n == next,
        Decoded::Truncated => res matches Err(DecodeError::Truncated),
        Decoded::Malformed => res matches Err(DecodeError::Malformed),
    }
}

/// Whether the outcome `res` of reading an integer is what `d` describes.
pub open spec fn int_read_as(res: Result<(u64, usize), DecodeError>, d: Decoded<u64>) -> bool {
    match d {
        Decoded::Done(v, next) => res matches Ok((w, n)) && w == v && n == next,
        Decoded::Truncated => res matches Err(DecodeError::Truncated),
        Decoded::Malformed => res matches Err(DecodeError::Malformed),
    }
}

/// Whether the outcome `res` of reading an instruction is what `d` describes.
pub open spec fn instruction_read_as(
    res: Result<(Instruction, usize), DecodeError>,
    d: Decoded<SpecInstruction>,
) -> bool {
    match d {
        Decoded::Done(i, next) => res matches Ok((j, n)) && j@ == i && n == next,
        Decoded::Truncated => res matches Err(DecodeError::Truncated),
        Decoded::Malformed => res matches Err(DecodeError::Malformed),
    }
}

/// Reads the length field at offset `at`.
fn read_length(bytes: &Vec<u8>, at: usize) -> (res: Option<u64>)
    ensures
        match decode_length(bytes@, at as int) {
            Some(n) => res == Some(n as u64) && n <= u64::MAX,
            None => res is None,
        },
        res is Some ==> at + 8 <= bytes.len(),
{
    if bytes.len() < 8 || at > bytes.len() - 8 {
        None
    } else {
        Some(u64_from_le_bytes(slice_subrange(bytes.as_slice(), at, at + 8)))
    }
}

/// Reads the text operand at offset `at`.
fn read_text(bytes: &Vec<u8>, at: usize) -> (res: Result<(String, usize), DecodeError>)
    ensures
        text_read_as(res, decode_text(bytes@, at as int)),
{
    match read_length(bytes, at) {
        None => Err(DecodeError::Truncated),
        Some(n) => {
            let start = at + 8;
            if n > (bytes.len() - start) as u64 {
                Err(DecodeError::Truncated)
            } else {
                let end = start + n as usize;
                match string_from_utf8(slice_subrange(bytes.as_slice(), start, end)) {
                    Some(s) => Ok((s, end)),
                    None => Err(DecodeError::Malformed),
                }
            }
        },
    }
}

/// Reads the integer operand at offset `at`.
fn read_int(bytes: &Vec<u8>, at: usize) -> (res: Result<(u64, usize), DecodeError>)
    ensures
        int_read_as(res, decode_int(bytes@, at as int)),
{
    match read_length(bytes, at) {
        None => Err(DecodeError::Truncated),
        Some(n) => {
            let start = at + 8;
            if n != 8 {
                Err(DecodeError::Malformed)
            } else if bytes.len() - start < 8 {
                Err(DecodeError::Truncated)
            } else {
                let end = start + 8;
                Ok((u64_from_le_bytes(slice_subrange(bytes.as_slice(), start, end)), end))
            }
        },
    }
}

/// Reads the instruction whose encoding starts at offset `ip`.
pub fn decode_at(bytes: &Vec<u8>, ip: usize) -> (res: Result<(Instruction, usize), DecodeError>)
    ensures
        instruction_read_as(res, decode_instruction(bytes@, ip as int)),
        res matches Ok((_, next)) ==> ip < next <= bytes.len(),
{
    if ip >= bytes.len() {
        return Err(DecodeError::Truncated);
    }
    let op = bytes[ip];
    if op == PUSH_STRING_CODE || op == JMP_IF_ZERO_CODE || op == LABEL_CODE || op == LOAD_VAR_CODE
        || op == JUMP_CODE || op == CALL_CODE {
        match read_text(bytes, ip + 1) {
            Err(e) => Err(e),
            Ok((s, next)) => {
                let instruction = if op == PUSH_STRING_CODE {
                    Instruction::Push(StackValue::String(s))
                } else if op == JMP_IF_ZERO_CODE {
                    Instruction::JmpIfZero(s)
                } else if op == LABEL_CODE {
                    Instruction::Label(s)
                } else if op == LOAD_VAR_CODE {
                    Instruction::LoadVar(s)
                } else if op == JUMP_CODE {
                    Instruction::Jump(s)
                } else {
                    Instruction::Call(s)
                };
                Ok((instruction, next))
            },
        }
    } else if op == PUSH_INT_CODE || op == SLEEP_CODE {
        match read_int(bytes, ip + 1) {
            Err(e) => Err(e),
            Ok((n, next)) => {
                let instruction = if op == PUSH_INT_CODE {
                    Instruction::Push(StackValue::Int(n))
                } else {
                    Instruction::Sleep(n)
                };
                Ok((instruction, next))
            },
        }
    } else if op == STORE_VAR_CODE {
        match read_text(bytes, ip + 1) {
            Err(e) => Err(e),
            Ok((key, mid)) => match read_text(bytes, mid) {
                Err(e) => Err(e),
                Ok((value, next)) => Ok((Instruction::StoreVar(key, value), next)),
            },
        }
    } else {
        let instruction = if op == POP_CODE {
            Instruction::Pop
        } else if op == DEC_CODE {
            Instruction::Dec
        } else if op == STDOUT_CODE {
            Instruction::Stdout
        } else if op == STDERR_CODE {
            Instruction::Stderr
        } else if op == DUP_CODE {
            Instruction::Dup
        } else if op == PRINTF_CODE {
            Instruction::Printf
        } else if op == REMOTE_CALL_CODE {
            Instruction::RemoteCall
        } else if op == START_CONTEXT_CODE {
            Instruction::StartContext
        } else if op == END_CONTEXT_CODE {
            Instruction::EndContext
        } else if op == CHECK_INTERRUPT_CODE {
            Instruction::CheckInterrupt
        } else if op == RET_CODE {
            Instruction::Ret
        } else {
            return Err(DecodeError::Malformed);
        };
        Ok((instruction, ip + 1))
    }
}

/// Reads back the instruction stream that an image encodes. Returns `None`
/// when the image is not a sequence of instruction encodings.
pub fn decode(bytes: &Vec<u8>) -> (res: Option<Vec<Instruction>>)
    ensures
        match decode_stream(bytes@, 0) {
            Some(s) => res matches Some(v) && stream_view(v@) == s,
            None => res is None,
        },
{
    let mut instructions: Vec<Instruction> = Vec::new();
    let mut ip: usize = 0;
    while ip < bytes.len()
        invariant
            ip <= bytes.len(),
            decode_stream(bytes@, 0) == match decode_stream(bytes@, ip as int) {
                Some(rest) => Some(stream_view(instructions@) + rest),
                None => None,
            },
        decreases bytes.len() - ip,
    {
        match decode_at(bytes, ip) {
            Err(_) => {
                return None;
            },
            Ok((instruction, next)) => {
                proof {
                    let done = stream_view(instructions@);
                    let after = stream_view(instructions@.push(instruction));
                    assert(after =~= done + seq![instruction@]);
                    match decode_stream(bytes@, next as int) {
                        Some(rest) => {
                            assert(done + (seq![instruction@] + rest) =~= after + rest);
                        },
                        None => {},
                    }
                }
                instructions.push(instruction);
                ip = next;
            },
        }
    }
    proof {
        assert(stream_view(instructions@) + Seq::<SpecInstruction>::empty() =~= stream_view(
            instructions@,
        ));
    }
    Some(instructions)
}

} // verus!
