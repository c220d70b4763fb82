//! Decoding undoes encoding: an image built from an instruction stream
//! decodes to that stream, instruction by instruction and as a whole.

use crate::bytecode::{
    all_well_sized, decode_instruction, decode_int, decode_length, decode_stream, decode_text,
    encode_stream, label_to_offset, offset_of, offset_to_label, Decoded,
};
use crate::code_gen::instruction::{
    encode_instruction, encode_int, encode_operands, encode_text, opcode, well_sized,
    SpecInstruction, SpecValue,
};
use vstd::bytes::*;
use vstd::prelude::*;
use vstd::utf8::*;

verus! {

/// The image of a concatenation is the concatenation of the images.
pub proof fn lemma_encode_stream_concat(a: Seq<SpecInstruction>, b: Seq<SpecInstruction>)
    ensures
        encode_stream(a + b) == encode_stream(a) + encode_stream(b),
    decreases b.len(),
{
    if b.len() == 0 {
        assert(a + b =~= a);
        assert(encode_stream(a) + encode_stream(b) =~= encode_stream(a));
    } else {
        lemma_encode_stream_concat(a, b.drop_last());
        assert((a + b).drop_last() =~= a + b.drop_last());
        assert((a + b).last() == b.last());
        assert(encode_stream(a + b) =~= encode_stream(a) + encode_stream(b));
    }
}

/// An image splits at every instruction: the part before instruction `k`,
/// the encoding of instruction `k`, and the part after it.
pub proof fn lemma_encode_stream_split(s: Seq<SpecInstruction>, k: int)
    requires
        0 <= k < s.len(),
    ensures
        encode_stream(s) == encode_stream(s.take(k)) + encode_instruction(s[k]) + encode_stream(
            s.skip(k + 1),
        ),
        encode_stream(s.take(k + 1)) == encode_stream(s.take(k)) + encode_instruction(s[k]),
        offset_of(s, k + 1) == offset_of(s, k) + encode_instruction(s[k]).len(),
        offset_of(s, k + 1) <= encode_stream(s).len(),
{
    assert(s.take(k + 1).drop_last() =~= s.take(k));
    assert(s.take(k + 1).last() == s[k]);
    assert(s =~= s.take(k + 1) + s.skip(k + 1));
    lemma_encode_stream_concat(s.take(k + 1), s.skip(k + 1));
}

/// The offset of the end of the stream is the length of the image.
pub proof fn lemma_offset_of_end(s: Seq<SpecInstruction>)
    ensures
        offset_of(s, s.len() as int) == encode_stream(s).len(),
{
    assert(s.take(s.len() as int) =~= s);
}

/// A length field that was written is read back.
proof fn lemma_decode_length_encoded(pre: Seq<u8>, n: u64, post: Seq<u8>)
    ensures
        decode_length(pre + spec_u64_to_le_bytes(n) + post, pre.len() as int) == Some(n as nat),
{
    lemma_auto_spec_u64_to_from_le_bytes();
    let field = spec_u64_to_le_bytes(n);
    let all = pre + field + post;
    assert(all.subrange(pre.len() as int, pre.len() as int + 8) =~= field);
}

/// A text operand that was written is read back.
pub proof fn lemma_decode_text_encoded(pre: Seq<u8>, s: Seq<char>, post: Seq<u8>)
    requires
        encode_utf8(s).len() <= u64::MAX,
    ensures
        decode_text(pre + encode_text(s) + post, pre.len() as int) == Decoded::Done(
            s,
            (pre.len() + encode_text(s).len()) as int,
        ),
        encode_text(s).len() == 8 + encode_utf8(s).len(),
{
    broadcast use encode_utf8_valid_utf8, encode_utf8_decode_utf8;

    lemma_auto_spec_u64_to_from_le_bytes();
    let raw = encode_utf8(s);
    let field = spec_u64_to_le_bytes(raw.len() as u64);
    let all = pre + encode_text(s) + post;
    assert(all =~= pre + field + (raw + post));
    lemma_decode_length_encoded(pre, raw.len() as u64, raw + post);
    assert(all.subrange(pre.len() as int + 8, pre.len() as int + 8 + raw.len()) =~= raw);
}

/// An integer operand that was written is read back.
pub proof fn lemma_decode_int_encoded(pre: Seq<u8>, n: u64, post: Seq<u8>)
    ensures
        decode_int(pre + encode_int(n) + post, pre.len() as int) == Decoded::Done(
            n,
            pre.len() as int + 16,
        ),
        encode_int(n).len() == 16,
{
    lemma_auto_spec_u64_to_from_le_bytes();
    let field = spec_u64_to_le_bytes(8);
    let value = spec_u64_to_le_bytes(n);
    let all = pre + encode_int(n) + post;
    assert(all =~= pre + field + (value + post));
    lemma_decode_length_encoded(pre, 8, value + post);
    assert(all.subrange(pre.len() as int + 8, pre.len() as int + 16) =~= value);
}

/// An instruction that was written is read back, whatever surrounds its
/// encoding.
pub proof fn lemma_decode_instruction_encoded(pre: Seq<u8>, i: SpecInstruction, post: Seq<u8>)
    requires
        well_sized(i),
    ensures
        decode_instruction(pre + encode_instruction(i) + post, pre.len() as int) == Decoded::Done(
            i,
            (pre.len() + encode_instruction(i).len()) as int,
        ),
        encode_instruction(i).len() >= 1,
{
    let op = opcode(i);
    let operands = encode_operands(i);
    let all = pre + encode_instruction(i) + post;
    let head = pre + seq![op];
    assert(all =~= head + operands + post);
    assert(all[pre.len() as int] == op);
    match i {
        SpecInstruction::Push(SpecValue::Text(s)) => {
            lemma_decode_text_encoded(head, s, post);
        },
        SpecInstruction::Push(SpecValue::Int(n)) => {
            lemma_decode_int_encoded(head, n, post);
        },
        SpecInstruction::JmpIfZero(l) => {
            lemma_decode_text_encoded(head, l, post);
        },
        SpecInstruction::Label(l) => {
            lemma_decode_text_encoded(head, l, post);
        },
        SpecInstruction::Sleep(ms) => {
            lemma_decode_int_encoded(head, ms, post);
        },
        SpecInstruction::StoreVar(k, v) => {
            lemma_decode_text_encoded(head, k, encode_text(v) + post);
            assert(all =~= head + encode_text(k) + (encode_text(v) + post));
            lemma_decode_text_encoded(head + encode_text(k), v, post);
            assert(all =~= head + encode_text(k) + encode_text(v) + post);
        },
        SpecInstruction::LoadVar(k) => {
            lemma_decode_text_encoded(head, k, post);
        },
        SpecInstruction::Jump(l) => {
            lemma_decode_text_encoded(head, l, post);
        },
        SpecInstruction::Call(l) => {
            lemma_decode_text_encoded(head, l, post);
        },
        _ => {
            assert(operands =~= Seq::<u8>::empty());
        },
    }
}

/// In the image of `s`, the instruction read at the offset of instruction
/// `k` is instruction `k`, and it ends where instruction `k + 1` starts.
pub proof fn lemma_decode_at_offset(s: Seq<SpecInstruction>, k: int)
    requires
        all_well_sized(s),
        0 <= k < s.len(),
    ensures
        decode_instruction(encode_stream(s), offset_of(s, k) as int) == Decoded::Done(
            s[k],
            offset_of(s, k + 1) as int,
        ),
        offset_of(s, k) < offset_of(s, k + 1) <= encode_stream(s).len(),
{
    lemma_encode_stream_split(s, k);
    lemma_decode_instruction_encoded(
        encode_stream(s.take(k)),
        s[k],
        encode_stream(s.skip(k + 1)),
    );
}

/// In the image of `s`, decoding from the offset of instruction `k` yields
/// the instructions from `k` on.
proof fn lemma_decode_stream_from(s: Seq<SpecInstruction>, k: int)
    requires
        all_well_sized(s),
        0 <= k <= s.len(),
    ensures
        decode_stream(encode_stream(s), offset_of(s, k) as int) == Some(s.skip(k)),
    decreases s.len() - k,
{
    if k == s.len() {
        lemma_offset_of_end(s);
        assert(s.skip(k) =~= Seq::<SpecInstruction>::empty());
    } else {
        lemma_decode_at_offset(s, k);
        lemma_decode_stream_from(s, k + 1);
        assert(seq![s[k]] + s.skip(k + 1) =~= s.skip(k));
    }
}

/// Decoding the image of a stream gives the stream back. Hence encoding
/// what was decoded gives the same image and the same label maps.
pub proof fn lemma_decode_encode_roundtrip(s: Seq<SpecInstruction>)
    requires
        all_well_sized(s),
    ensures
        decode_stream(encode_stream(s), 0) == Some(s),
        decode_stream(encode_stream(s), 0) matches Some(d) && encode_stream(d) == encode_stream(s)
            && label_to_offset(d) == label_to_offset(s) && offset_to_label(d) == offset_to_label(
            s,
        ),
{
    lemma_decode_stream_from(s, 0);
    assert(s.take(0) =~= Seq::<SpecInstruction>::empty());
    assert(s.skip(0) =~= s);
}

} // verus!
