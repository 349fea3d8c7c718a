//! End-to-end tests of the instruction stream codec.
use beamop::decode_instructions;
use beamop::encode_instructions;
use beamop::error::DecodeError;
use beamop::instruction::Allocate;
use beamop::instruction::InitYregs;
use beamop::instruction::Instruction;
use beamop::instruction::Label;
use beamop::instruction::MPlus;
use beamop::instruction::Move;
use beamop::instruction::Return;
use beamop::reader::Reader;
use beamop::term::Allocation;
use beamop::term::AllocationList;
use beamop::term::AllocationListItem;
use beamop::term::Atom;
use beamop::term::Register;
use beamop::term::Term;
use beamop::term::TermKind;
use beamop::term::TypedRegister;
use beamop::term::XRegister;
use beamop::term::YRegister;

fn round_trips(bytes: &[u8]) -> Vec<Instruction> {
    let decoded = decode_instructions(bytes).expect("decode failure");
    let encoded = encode_instructions(&decoded).expect("encode failure");
    assert_eq!(&encoded[..], bytes);
    decoded
}

#[test]
fn empty_chunk() {
    let decoded = decode_instructions(&[]).expect("decode failure");
    assert_eq!(decoded, Vec::new());
    let encoded = encode_instructions(&decoded).expect("encode failure");
    assert_eq!(encoded, Vec::<u8>::new());
}

#[test]
fn label_opcode() {
    let decoded = round_trips(&[0x01, 0x10]);
    assert_eq!(decoded, vec![Instruction::Label(Label { literal: 1 })]);
}

#[test]
fn return_opcode() {
    let decoded = round_trips(&[0x13]);
    assert_eq!(decoded, vec![Instruction::Return(Return {})]);
}

#[test]
fn move_to_x_register() {
    let decoded = round_trips(&[0x40, 0x02, 0x13]);
    assert_eq!(
        decoded,
        vec![Instruction::Move(Move {
            src: Term::Atom(Atom { value: 0 }),
            dst: Register::X(XRegister { value: 1, ty: None }),
        })]
    );
}

#[test]
fn init_yregs_list() {
    let decoded = round_trips(&[0xAC, 0x17, 0x20, 0x04, 0x14]);
    assert_eq!(
        decoded,
        vec![Instruction::InitYregs(InitYregs {
            registers: vec![
                YRegister { value: 0, ty: None },
                YRegister { value: 1, ty: None },
            ],
        })]
    );
}

#[test]
fn deprecated_opcode() {
    // opcode 27 is deprecated but still round-trips
    let decoded = round_trips(&[27, 0x00, 0x10, 0x20, 0x30]);
    assert_eq!(
        decoded,
        vec![Instruction::MPlus(MPlus {
            arg1: Term::Usize(0),
            arg2: Term::Usize(1),
            arg3: Term::Usize(2),
            arg4: Term::Usize(3),
        })]
    );
}

#[test]
fn allocation_list_operand() {
    let decoded = round_trips(&[12, 0x37, 0x20, 0x00, 0x10, 0x10, 0x20, 0x10]);
    assert_eq!(
        decoded,
        vec![Instruction::Allocate(Allocate {
            stack_need: Allocation::List(AllocationList {
                items: vec![AllocationListItem::Words(1), AllocationListItem::Floats(2)],
            }),
            live: 1,
        })]
    );
}

#[test]
fn typed_register_operand() {
    let decoded = round_trips(&[0x40, 0x02, 0x57, 0x13, 0x30]);
    assert_eq!(
        decoded,
        vec![Instruction::Move(Move {
            src: Term::Atom(Atom { value: 0 }),
            dst: Register::Typed(TypedRegister::X {
                register: XRegister { value: 1, ty: None },
                ty: 3,
            }),
        })]
    );
}

#[test]
fn extended_literal_and_float_register_operands() {
    // opcode 71 takes one untyped term
    round_trips(&[71, 0x47, 0x20]);
    round_trips(&[71, 0x27, 0x30]);
    round_trips(&[71, 0x16]);
}

#[test]
fn big_integer_operands_round_trip() {
    let decoded = round_trips(&[71, 0x19, 0xFE, 0xBD]);
    match &decoded[0] {
        Instruction::Put(p) => {
            assert_eq!(
                p.arg1,
                Term::Integer(beamop::bigint::BigInt::from_i64(-323)),
            );
        },
        other => panic!("unexpected instruction {:?}", other),
    }
    round_trips(&[71, 0x59, 0x07, 0x5B, 0xCD, 0x15]);
    round_trips(&[71, 0xF9, 0x00, 0x00, 0x89, 0x10, 0x87, 0xB8, 0xB0, 0x34, 0x71, 0x15]);
}

#[test]
fn nested_list_operand() {
    // opcode 59 takes a term, a label, and a list
    let bytes = [59, 0x00, 0x15, 0x17, 0x20, 0x12, 0x23];
    round_trips(&bytes);
}

#[test]
fn several_instructions_round_trip() {
    let mut bytes: Vec<u8> = Vec::new();
    bytes.extend([0x01, 0x10]);
    bytes.extend([0x40, 0x02, 0x13]);
    bytes.extend([0x13]);
    bytes.extend([0xAC, 0x17, 0x20, 0x04, 0x14]);
    let decoded = round_trips(&bytes);
    assert_eq!(decoded.len(), 4);
}

#[test]
fn non_canonical_input_renormalizes() {
    // 5 written in the wider eleven-bit form decodes, and re-encodes in
    // the canonical four-bit form
    let decoded = decode_instructions(&[0x01, 0x08, 0x05]).expect("decode failure");
    assert_eq!(decoded, vec![Instruction::Label(Label { literal: 5 })]);
    let encoded = encode_instructions(&decoded).expect("encode failure");
    assert_eq!(encoded, vec![0x01, 0x50]);
}

#[test]
fn unknown_opcode_is_rejected() {
    assert!(matches!(
        decode_instructions(&[200]),
        Err(DecodeError::UnknownOpcode { opcode: 200 })
    ));
}

#[test]
fn unknown_term_tag_is_rejected() {
    assert!(matches!(
        decode_instructions(&[71, 0x67]),
        Err(DecodeError::UnknownTermTag { tag: 0x67 })
    ));
}

#[test]
fn unexpected_term_is_rejected() {
    // the destination of a move must be a register, not an atom
    match decode_instructions(&[0x40, 0x02, 0x02]) {
        Err(DecodeError::UnexpectedTerm { expected, actual }) => {
            assert_eq!(
                expected,
                vec![
                    TermKind::XRegister,
                    TermKind::YRegister,
                    TermKind::TypedRegister,
                ]
            );
            assert_eq!(actual, TermKind::Atom);
        },
        other => panic!("unexpected result {:?}", other),
    }
}

#[test]
fn invalid_unicode_codepoint_is_rejected() {
    // a surrogate in a character term
    assert!(matches!(
        decode_instructions(&[71, 0x3E, 0x00, 0xD8, 0x00]),
        Err(DecodeError::InvalidUnicodeCodepoint { value: 0xD800 })
    ));
}

#[test]
fn unknown_allocation_list_item_tag_is_rejected() {
    assert!(matches!(
        decode_instructions(&[12, 0x37, 0x10, 0x30, 0x10, 0x10]),
        Err(DecodeError::UnknownAllocationListItemTag { tag: 3 })
    ));
}

#[test]
fn truncated_input_is_rejected() {
    assert!(matches!(decode_instructions(&[0x01]), Err(DecodeError::IoError)));
}

#[test]
fn term_kind_tags() {
    assert_eq!(TermKind::from_tag(0x00), TermKind::Usize);
    assert_eq!(TermKind::from_tag(0x13), TermKind::XRegister);
    assert_eq!(TermKind::from_tag(0x17), TermKind::List);
    assert_eq!(TermKind::from_tag(0x57), TermKind::TypedRegister);
    assert_eq!(TermKind::from_tag(0x67), TermKind::Unknown(0x67));
    assert_eq!(TermKind::List.tag(), 0x17);
    assert_eq!(TermKind::Atom.tag(), 2);
    assert!(TermKind::Atom.expect(&[TermKind::Usize, TermKind::Atom]).is_ok());
    assert!(matches!(
        TermKind::Atom.expect(&[TermKind::Usize]),
        Err(DecodeError::UnexpectedTerm { .. })
    ));
}

#[test]
fn term_decode_and_encode_agree() {
    let bytes = [0x17, 0x30, 0x12, 0x23, 0x19, 0xFE, 0xBD];
    let mut reader = Reader::new(&bytes);
    let term = Term::decode(&mut reader).expect("decode failure");
    let mut out: Vec<u8> = Vec::new();
    term.encode(&mut out).expect("encode failure");
    assert_eq!(&out[..], &bytes[..]);
}
