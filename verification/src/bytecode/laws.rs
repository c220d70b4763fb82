//! Laws of the label maps of an image.

use crate::bytecode::roundtrip::{lemma_encode_stream_split, lemma_offset_of_end};
use crate::bytecode::{
    decode_instruction, encode_stream, label_to_offset, offset_of, offset_to_label, Decoded,
};
use crate::code_gen::instruction::SpecInstruction;
use vstd::prelude::*;

verus! {

/// Whether offset `x` is the start of an instruction of `program` or the
/// end of its image.
pub open spec fn is_boundary(program: Seq<SpecInstruction>, x: int) -> bool {
    exists|k: int| 0 <= k <= program.len() && x == #[trigger] offset_of(program, k)
}

/// The start of an instruction lies inside the image.
pub proof fn lemma_offset_bound(program: Seq<SpecInstruction>, k: int)
    requires
        0 <= k <= program.len(),
    ensures
        offset_of(program, k) <= encode_stream(program).len(),
    decreases program.len() - k,
{
    if k == program.len() {
        lemma_offset_of_end(program);
    } else {
        lemma_encode_stream_split(program, k);
        lemma_offset_bound(program, k + 1);
    }
}

/// A label is a key of the label map exactly if the program holds a `Label`
/// instruction for it.
pub proof fn lemma_label_keys(program: Seq<SpecInstruction>, l: Seq<char>)
    ensures
        label_to_offset(program).contains_key(l) <==> program.contains(SpecInstruction::Label(l)),
    decreases program.len(),
{
    if program.len() > 0 {
        let before = program.drop_last();
        lemma_label_keys(before, l);
        if before.contains(SpecInstruction::Label(l)) {
            let j = choose|j: int| 0 <= j < before.len() && before[j] == SpecInstruction::Label(l);
            assert(program[j] == SpecInstruction::Label(l));
        }
        if program.contains(SpecInstruction::Label(l)) && program.last()
            != SpecInstruction::Label(l) {
            let j = choose|j: int|
                0 <= j < program.len() && program[j] == SpecInstruction::Label(l);
            assert(before[j] == SpecInstruction::Label(l));
        }
        if program.last() == SpecInstruction::Label(l) {
            assert(program[program.len() - 1] == SpecInstruction::Label(l));
        }
    }
}

/// Every label points just past a `Label` instruction that carries it: to
/// the start of the next instruction, or to the end of the image.
pub proof fn lemma_labels_are_boundaries(program: Seq<SpecInstruction>, l: Seq<char>)
    requires
        encode_stream(program).len() <= usize::MAX,
        label_to_offset(program).contains_key(l),
    ensures
        is_boundary(program, label_to_offset(program)[l] as int),
        exists|j: int|
            0 <= j < program.len() && program[j] == SpecInstruction::Label(l)
                && label_to_offset(program)[l] == #[trigger] offset_of(program, j + 1),
    decreases program.len(),
{
    if program.len() > 0 {
        let before = program.drop_last();
        lemma_offset_of_end(program);
        if program.last() == SpecInstruction::Label(l) {
            let j = program.len() - 1;
            assert(label_to_offset(program)[l] == offset_of(program, j + 1));
        } else {
            lemma_offset_bound(program, program.len() - 1);
            assert(before =~= program.take(program.len() - 1));
            lemma_labels_are_boundaries(before, l);
            let j = choose|j: int|
                0 <= j < before.len() && before[j] == SpecInstruction::Label(l) && label_to_offset(
                    before,
                )[l] == #[trigger] offset_of(before, j + 1);
            assert(before.take(j + 1) =~= program.take(j + 1));
            assert(label_to_offset(program)[l] == offset_of(program, j + 1));
        }
    }
}

/// The offset map is the inverse of the label map: at the offset that a
/// label points to, the offset map holds that label.
pub proof fn lemma_offset_map_inverts_label_map(program: Seq<SpecInstruction>, l: Seq<char>)
    requires
        encode_stream(program).len() <= usize::MAX,
        label_to_offset(program).contains_key(l),
    ensures
        offset_to_label(program).contains_key(label_to_offset(program)[l]),
        offset_to_label(program)[label_to_offset(program)[l]] == l,
    decreases program.len(),
{
    if program.len() > 0 {
        let before = program.drop_last();
        let k = program.len() - 1;
        assert(before =~= program.take(k));
        lemma_offset_of_end(program);
        lemma_encode_stream_split(program, k);
        lemma_offset_bound(program, k);
        if program.last() != SpecInstruction::Label(l) {
            lemma_offset_map_inverts_label_map(before, l);
            lemma_labels_are_boundaries(before, l);
            let j = choose|j: int|
                0 <= j < before.len() && before[j] == SpecInstruction::Label(l) && label_to_offset(
                    before,
                )[l] == #[trigger] offset_of(before, j + 1);
            lemma_offset_bound(before, j + 1);
            lemma_offset_of_end(before);
            assert(label_to_offset(before)[l] <= encode_stream(before).len());
            assert(encode_stream(before).len() < encode_stream(program).len());
        }
    }
}

/// An instruction that is read from an image ends behind its start and
/// inside the image.
pub proof fn lemma_decode_bounds(bytes: Seq<u8>, ip: int)
    ensures
        decode_instruction(bytes, ip) matches Decoded::Done(_, next) ==> 0 <= ip < next
            <= bytes.len(),
{
}

} // verus!
