use bitcoin::opcodes::all::{OP_DUP, OP_RETURN};
use bitcoin::script::{Builder, PushBytesBuf};
use corelane_proof::script::{extract_op_return_data, marker_payload_of, Instruction};

fn marker_script(payload: &[u8]) -> Vec<u8> {
    let push = PushBytesBuf::try_from(payload.to_vec()).unwrap();
    Builder::new().push_opcode(OP_RETURN).push_slice(push).into_script().to_bytes()
}

#[test]
fn marker_output_gives_the_bytes_of_its_push() {
    let script = marker_script(b"BRN1 and more");
    assert_eq!(extract_op_return_data(&script), Some(b"BRN1 and more".to_vec()));
    assert_eq!(extract_op_return_data(&[0x6a, 0x03, 1, 2, 3]), Some(vec![1, 2, 3]));
}

#[test]
fn marker_output_with_a_long_push_gives_all_of_it() {
    let payload = vec![0x5a; 200];
    let script = marker_script(&payload);
    assert_eq!(script[0], 0x6a);
    assert_eq!(script[1], 0x4c);
    assert_eq!(extract_op_return_data(&script), Some(payload));
}

#[test]
fn marker_output_with_an_empty_push_gives_no_bytes() {
    assert_eq!(extract_op_return_data(&[0x6a, 0x00]), Some(Vec::new()));
}

#[test]
fn script_that_is_no_marker_output_gives_nothing() {
    assert_eq!(extract_op_return_data(&[]), None);
    assert_eq!(extract_op_return_data(&[0x6a]), None);
    assert_eq!(extract_op_return_data(&[0x03, 1, 2, 3]), None);
    let p2pkh = Builder::new()
        .push_opcode(OP_DUP)
        .push_slice([7u8; 20])
        .into_script()
        .to_bytes();
    assert_eq!(extract_op_return_data(&p2pkh), None);
}

#[test]
fn op_return_followed_by_more_than_one_push_gives_nothing() {
    let script = Builder::new()
        .push_opcode(OP_RETURN)
        .push_slice(*b"BRN1")
        .push_slice([0x00, 0x00, 0x00, 0x01])
        .push_slice([0x42; 20])
        .into_script()
        .to_bytes();
    assert_eq!(extract_op_return_data(&script), None);
    assert_eq!(extract_op_return_data(&[0x6a, 0x01, 9, 0x6a]), None);
    assert_eq!(extract_op_return_data(&[0x6a, 0x6a, 0x01, 9]), None);
}

#[test]
fn op_return_followed_by_a_cut_push_gives_nothing() {
    assert_eq!(extract_op_return_data(&[0x6a, 0x05, 1, 2]), None);
    assert_eq!(extract_op_return_data(&[0x6a, 0x4c]), None);
}

#[test]
fn payload_is_read_from_the_instructions_of_a_script() {
    let marker = vec![Instruction::Op(0x6a), Instruction::PushBytes(vec![1, 2])];
    assert_eq!(marker_payload_of(&marker), Some(vec![1, 2]));
    assert_eq!(marker_payload_of(&Vec::new()), None);
    assert_eq!(marker_payload_of(&vec![Instruction::Op(0x6a)]), None);
    assert_eq!(
        marker_payload_of(&vec![Instruction::Op(0x76), Instruction::PushBytes(vec![1])]),
        None
    );
    assert_eq!(
        marker_payload_of(&vec![Instruction::PushBytes(vec![0x6a]), Instruction::PushBytes(vec![1])]),
        None
    );
    assert_eq!(marker_payload_of(&vec![Instruction::Op(0x6a), Instruction::Op(0x6a)]), None);
    assert_eq!(marker_payload_of(&vec![Instruction::Op(0x6a), Instruction::Invalid]), None);
    assert_eq!(
        marker_payload_of(&vec![
            Instruction::Op(0x6a),
            Instruction::PushBytes(vec![1]),
            Instruction::PushBytes(vec![2])
        ]),
        None
    );
}
