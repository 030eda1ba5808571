//! Output scripts: the instructions that a script decodes to, and the
//! payload of a marker output.

use vstd::prelude::*;
use vstd::slice::slice_to_vec;

verus! {

/// The opcode that makes an output unspendable, `OP_RETURN`.
pub const OP_RETURN: u8 = 0x6a;

/// One instruction of a script.
#[derive(Debug, Clone, PartialEq, Eq)]
pub enum Instruction {
    /// A push of the bytes given.
    PushBytes(Vec<u8>),
    /// An opcode that pushes no data, by its byte.
    Op(u8),
    /// The script could not be decoded further.
    Invalid,
}

/// One instruction of a script, over byte strings.
pub enum InstructionView {
    PushBytes(Seq<u8>),
    Op(u8),
    Invalid,
}

impl View for Instruction {
    type V = InstructionView;

    open spec fn view(&self) -> InstructionView {
        match self {
            Instruction::PushBytes(bytes) => InstructionView::PushBytes(bytes@),
            Instruction::Op(code) => InstructionView::Op(*code),
            Instruction::Invalid => InstructionView::Invalid,
        }
    }
}

/// The instructions that a list holds, over byte strings.
pub open spec fn instructions_view(items: Seq<Instruction>) -> Seq<InstructionView> {
    Seq::new(items.len(), |i: int| items[i]@)
}

/// The instructions that the bytes of a script decode to, in order. Where
/// the script cannot be decoded to its end, the last one is `Invalid`.
pub uninterp spec fn script_instructions(script: Seq<u8>) -> Seq<InstructionView>;

/// Walks `bitcoin::Script::instructions` over the script made of `script`
/// by `Script::from_bytes` and hands each item out: a push with its bytes,
/// any other opcode as its byte, an error as `Invalid`. Trusted: the list is
/// `script_instructions` of the script's bytes.
#[verifier::external_body]
fn decode_instructions(script: &[u8]) -> (items: Vec<Instruction>)
    ensures
        instructions_view(items@) == script_instructions(script@),
{
    bitcoin::Script::from_bytes(script)
        .instructions()
        .map(|item| match item {
            Ok(bitcoin::script::Instruction::PushBytes(bytes)) => {
                Instruction::PushBytes(bytes.as_bytes().to_vec())
            },
            Ok(bitcoin::script::Instruction::Op(opcode)) => Instruction::Op(opcode.to_u8()),
            Err(_) => Instruction::Invalid,
        })
        .collect()
}

/// The payload of a marker output: the bytes of the push, where the script
/// is `OP_RETURN` followed by one push and nothing else.
pub open spec fn marker_payload(items: Seq<InstructionView>) -> Option<Seq<u8>> {
    if items.len() == 2 && items[0] == InstructionView::Op(OP_RETURN) {
        match items[1] {
            InstructionView::PushBytes(bytes) => Some(bytes),
            _ => None,
        }
    } else {
        None
    }
}

/// The payload that a script carries, by its bytes.
pub open spec fn script_payload(script: Seq<u8>) -> Option<Seq<u8>> {
    marker_payload(script_instructions(script))
}

/// What an optional vector holds, as an optional byte string.
pub open spec fn option_view(bytes: Option<Vec<u8>>) -> Option<Seq<u8>> {
    match bytes {
        Some(b) => Some(b@),
        None => None,
    }
}

/// The payload of a marker output, from the instructions of its script: the
/// bytes of the push where the instructions are `OP_RETURN` and one push,
/// nothing for any other list.
pub fn marker_payload_of(items: &Vec<Instruction>) -> (payload: Option<Vec<u8>>)
    ensures
        option_view(payload) == marker_payload(instructions_view(items@)),
{
    if items.len() != 2 {
        return None;
    }
    match &items[0] {
        Instruction::Op(code) => {
            if *code != OP_RETURN {
                return None;
            }
        },
        _ => {
            return None;
        },
    }
    match &items[1] {
        Instruction::PushBytes(bytes) => Some(slice_to_vec(bytes.as_slice())),
        _ => None,
    }
}

/// The payload that an output script carries: the bytes of its data push
/// where the script is a marker output, nothing for any other script.
pub fn extract_op_return_data(script: &[u8]) -> (payload: Option<Vec<u8>>)
    ensures
        option_view(payload) == script_payload(script@),
{
    let items = decode_instructions(script);
    marker_payload_of(&items)
}

} // verus!
