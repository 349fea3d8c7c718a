//! The instruction schema: one struct per opcode, with the operand kinds
//! the stream stores for it, and the dispatch that decodes and encodes any
//! instruction.
use crate::error::DecodeError;
use crate::error::DecodeErrorV;
use crate::error::EncodeError;
use crate::reader::Reader;
use crate::term::Allocation;
use crate::term::Atom;
use crate::term::List;
use crate::term::Register;
use crate::term::Term;
use crate::term::YRegister;
use crate::wire;
use crate::wire::ArgKind;
use crate::wire::TermV;
use vstd::prelude::*;

verus! {

broadcast use crate::wire::lemma_skip_skip;

/// The opcode byte of an instruction type.
pub trait Opcode {
    const CODE: u8;
}
/// Decode 0 operands of the given kinds, back to back.
pub open spec fn chain0(s: Seq<u8>) -> Result<(Seq<TermV>, nat), DecodeErrorV> {
    Ok((Seq::empty(), 0))
}

/// Decode 1 operand of the given kinds, back to back.
pub open spec fn chain1(k1: ArgKind, s: Seq<u8>) -> Result<(Seq<TermV>, nat), DecodeErrorV> {
    match wire::dec_arg_at(k1, s) {
        Err(e) => Err(e),
        Ok((t1, n1)) => {
            Ok((seq![t1], (n1) as nat))
        },
    }
}

/// Decode 2 operands of the given kinds, back to back.
pub open spec fn chain2(k1: ArgKind, k2: ArgKind, s: Seq<u8>) -> Result<(Seq<TermV>, nat), DecodeErrorV> {
    match wire::dec_arg_at(k1, s) {
        Err(e) => Err(e),
        Ok((t1, n1)) => {
            match wire::dec_arg_at(k2, s.skip(n1 as int)) {
                Err(e) => Err(e),
                Ok((t2, n2)) => {
                    Ok((seq![t1, t2], (n1 + n2) as nat))
                },
            }
        },
    }
}

/// Decode 3 operands of the given kinds, back to back.
pub open spec fn chain3(k1: ArgKind, k2: ArgKind, k3: ArgKind, s: Seq<u8>) -> Result<(Seq<TermV>, nat), DecodeErrorV> {
    match wire::dec_arg_at(k1, s) {
        Err(e) => Err(e),
        Ok((t1, n1)) => {
            match wire::dec_arg_at(k2, s.skip(n1 as int)) {
                Err(e) => Err(e),
                Ok((t2, n2)) => {
                    match wire::dec_arg_at(k3, s.skip(n1 as int).skip(n2 as int)) {
                        Err(e) => Err(e),
                        Ok((t3, n3)) => {
                            Ok((seq![t1, t2, t3], (n1 + n2 + n3) as nat))
                        },
                    }
                },
            }
        },
    }
}

/// Decode 4 operands of the given kinds, back to back.
pub open spec fn chain4(k1: ArgKind, k2: ArgKind, k3: ArgKind, k4: ArgKind, s: Seq<u8>) -> Result<(Seq<TermV>, nat), DecodeErrorV> {
    match wire::dec_arg_at(k1, s) {
        Err(e) => Err(e),
        Ok((t1, n1)) => {
            match wire::dec_arg_at(k2, s.skip(n1 as int)) {
                Err(e) => Err(e),
                Ok((t2, n2)) => {
                    match wire::dec_arg_at(k3, s.skip(n1 as int).skip(n2 as int)) {
                        Err(e) => Err(e),
                        Ok((t3, n3)) => {
                            match wire::dec_arg_at(k4, s.skip(n1 as int).skip(n2 as int).skip(n3 as int)) {
                                Err(e) => Err(e),
                                Ok((t4, n4)) => {
                                    Ok((seq![t1, t2, t3, t4], (n1 + n2 + n3 + n4) as nat))
                                },
                            }
                        },
                    }
                },
            }
        },
    }
}

/// Decode 5 operands of the given kinds, back to back.
pub open spec fn chain5(k1: ArgKind, k2: ArgKind, k3: ArgKind, k4: ArgKind, k5: ArgKind, s: Seq<u8>) -> Result<(Seq<TermV>, nat), DecodeErrorV> {
    match wire::dec_arg_at(k1, s) {
        Err(e) => Err(e),
        Ok((t1, n1)) => {
            match wire::dec_arg_at(k2, s.skip(n1 as int)) {
                Err(e) => Err(e),
                Ok((t2, n2)) => {
                    match wire::dec_arg_at(k3, s.skip(n1 as int).skip(n2 as int)) {
                        Err(e) => Err(e),
                        Ok((t3, n3)) => {
                            match wire::dec_arg_at(k4, s.skip(n1 as int).skip(n2 as int).skip(n3 as int)) {
                                Err(e) => Err(e),
                                Ok((t4, n4)) => {
                                    match wire::dec_arg_at(k5, s.skip(n1 as int).skip(n2 as int).skip(n3 as int).skip(n4 as int)) {
                                        Err(e) => Err(e),
                                        Ok((t5, n5)) => {
                                            Ok((seq![t1, t2, t3, t4, t5], (n1 + n2 + n3 + n4 + n5) as nat))
                                        },
                                    }
                                },
                            }
                        },
                    }
                },
            }
        },
    }
}

/// Decode 6 operands of the given kinds, back to back.
pub open spec fn chain6(k1: ArgKind, k2: ArgKind, k3: ArgKind, k4: ArgKind, k5: ArgKind, k6: ArgKind, s: Seq<u8>) -> Result<(Seq<TermV>, nat), DecodeErrorV> {
    match wire::dec_arg_at(k1, s) {
        Err(e) => Err(e),
        Ok((t1, n1)) => {
            match wire::dec_arg_at(k2, s.skip(n1 as int)) {
                Err(e) => Err(e),
                Ok((t2, n2)) => {
                    match wire::dec_arg_at(k3, s.skip(n1 as int).skip(n2 as int)) {
                        Err(e) => Err(e),
                        Ok((t3, n3)) => {
                            match wire::dec_arg_at(k4, s.skip(n1 as int).skip(n2 as int).skip(n3 as int)) {
                                Err(e) => Err(e),
                                Ok((t4, n4)) => {
                                    match wire::dec_arg_at(k5, s.skip(n1 as int).skip(n2 as int).skip(n3 as int).skip(n4 as int)) {
                                        Err(e) => Err(e),
                                        Ok((t5, n5)) => {
                                            match wire::dec_arg_at(k6, s.skip(n1 as int).skip(n2 as int).skip(n3 as int).skip(n4 as int).skip(n5 as int)) {
                                                Err(e) => Err(e),
                                                Ok((t6, n6)) => {
                                                    Ok((seq![t1, t2, t3, t4, t5, t6], (n1 + n2 + n3 + n4 + n5 + n6) as nat))
                                                },
                                            }
                                        },
                                    }
                                },
                            }
                        },
                    }
                },
            }
        },
    }
}

/// Decode 7 operands of the given kinds, back to back.
pub open spec fn chain7(k1: ArgKind, k2: ArgKind, k3: ArgKind, k4: ArgKind, k5: ArgKind, k6: ArgKind, k7: ArgKind, s: Seq<u8>) -> Result<(Seq<TermV>, nat), DecodeErrorV> {
    match wire::dec_arg_at(k1, s) {
        Err(e) => Err(e),
        Ok((t1, n1)) => {
            match wire::dec_arg_at(k2, s.skip(n1 as int)) {
                Err(e) => Err(e),
                Ok((t2, n2)) => {
                    match wire::dec_arg_at(k3, s.skip(n1 as int).skip(n2 as int)) {
                        Err(e) => Err(e),
                        Ok((t3, n3)) => {
                            match wire::dec_arg_at(k4, s.skip(n1 as int).skip(n2 as int).skip(n3 as int)) {
                                Err(e) => Err(e),
                                Ok((t4, n4)) => {
                                    match wire::dec_arg_at(k5, s.skip(n1 as int).skip(n2 as int).skip(n3 as int).skip(n4 as int)) {
                                        Err(e) => Err(e),
                                        Ok((t5, n5)) => {
                                            match wire::dec_arg_at(k6, s.skip(n1 as int).skip(n2 as int).skip(n3 as int).skip(n4 as int).skip(n5 as int)) {
                                                Err(e) => Err(e),
                                                Ok((t6, n6)) => {
                                                    match wire::dec_arg_at(k7, s.skip(n1 as int).skip(n2 as int).skip(n3 as int).skip(n4 as int).skip(n5 as int).skip(n6 as int)) {
                                                        Err(e) => Err(e),
                                                        Ok((t7, n7)) => {
                                                            Ok((seq![t1, t2, t3, t4, t5, t6, t7], (n1 + n2 + n3 + n4 + n5 + n6 + n7) as nat))
                                                        },
                                                    }
                                                },
                                            }
                                        },
                                    }
                                },
                            }
                        },
                    }
                },
            }
        },
    }
}

/// Decode 8 operands of the given kinds, back to back.
pub open spec fn chain8(k1: ArgKind, k2: ArgKind, k3: ArgKind, k4: ArgKind, k5: ArgKind, k6: ArgKind, k7: ArgKind, k8: ArgKind, s: Seq<u8>) -> Result<(Seq<TermV>, nat), DecodeErrorV> {
    match wire::dec_arg_at(k1, s) {
        Err(e) => Err(e),
        Ok((t1, n1)) => {
            match wire::dec_arg_at(k2, s.skip(n1 as int)) {
                Err(e) => Err(e),
                Ok((t2, n2)) => {
                    match wire::dec_arg_at(k3, s.skip(n1 as int).skip(n2 as int)) {
                        Err(e) => Err(e),
                        Ok((t3, n3)) => {
                            match wire::dec_arg_at(k4, s.skip(n1 as int).skip(n2 as int).skip(n3 as int)) {
                                Err(e) => Err(e),
                                Ok((t4, n4)) => {
                                    match wire::dec_arg_at(k5, s.skip(n1 as int).skip(n2 as int).skip(n3 as int).skip(n4 as int)) {
                                        Err(e) => Err(e),
                                        Ok((t5, n5)) => {
                                            match wire::dec_arg_at(k6, s.skip(n1 as int).skip(n2 as int).skip(n3 as int).skip(n4 as int).skip(n5 as int)) {
                                                Err(e) => Err(e),
                                                Ok((t6, n6)) => {
                                                    match wire::dec_arg_at(k7, s.skip(n1 as int).skip(n2 as int).skip(n3 as int).skip(n4 as int).skip(n5 as int).skip(n6 as int)) {
                                                        Err(e) => Err(e),
                                                        Ok((t7, n7)) => {
                                                            match wire::dec_arg_at(k8, s.skip(n1 as int).skip(n2 as int).skip(n3 as int).skip(n4 as int).skip(n5 as int).skip(n6 as int).skip(n7 as int)) {
                                                                Err(e) => Err(e),
                                                                Ok((t8, n8)) => {
                                                                    Ok((seq![t1, t2, t3, t4, t5, t6, t7, t8], (n1 + n2 + n3 + n4 + n5 + n6 + n7 + n8) as nat))
                                                                },
                                                            }
                                                        },
                                                    }
                                                },
                                            }
                                        },
                                    }
                                },
                            }
                        },
                    }
                },
            }
        },
    }
}

/// The operand fields of each opcode, applied to the bytes after the
/// opcode byte.
pub open spec fn dec_ops(op: u8, s: Seq<u8>) -> Result<(Seq<TermV>, nat), DecodeErrorV> {
    match op {
        1u8 => chain1(ArgKind::U, s),
        2u8 => chain3(ArgKind::Atm, ArgKind::Atm, ArgKind::U, s),
        3u8 => chain0(s),
        4u8 => chain2(ArgKind::U, ArgKind::Lbl, s),
        5u8 => chain3(ArgKind::Any, ArgKind::Any, ArgKind::Any, s),
        6u8 => chain2(ArgKind::U, ArgKind::Lbl, s),
        7u8 => chain2(ArgKind::U, ArgKind::U, s),
        8u8 => chain3(ArgKind::U, ArgKind::U, ArgKind::U, s),
        9u8 => chain2(ArgKind::Any, ArgKind::Any, s),
        10u8 => chain4(ArgKind::Any, ArgKind::Any, ArgKind::Any, ArgKind::Any, s),
        11u8 => chain5(ArgKind::Any, ArgKind::Any, ArgKind::Any, ArgKind::Any, ArgKind::Any, s),
        12u8 => chain2(ArgKind::Alloc, ArgKind::U, s),
        13u8 => chain3(ArgKind::Alloc, ArgKind::Alloc, ArgKind::U, s),
        14u8 => chain2(ArgKind::Any, ArgKind::Any, s),
        15u8 => chain3(ArgKind::Alloc, ArgKind::Alloc, ArgKind::U, s),
        16u8 => chain2(ArgKind::Alloc, ArgKind::U, s),
        17u8 => chain1(ArgKind::Any, s),
        18u8 => chain1(ArgKind::U, s),
        19u8 => chain0(s),
        20u8 => chain0(s),
        21u8 => chain0(s),
        22u8 => chain0(s),
        23u8 => chain2(ArgKind::Any, ArgKind::Any, s),
        24u8 => chain1(ArgKind::Any, s),
        25u8 => chain1(ArgKind::Any, s),
        26u8 => chain2(ArgKind::Any, ArgKind::Any, s),
        27u8 => chain4(ArgKind::Any, ArgKind::Any, ArgKind::Any, ArgKind::Any, s),
        28u8 => chain4(ArgKind::Any, ArgKind::Any, ArgKind::Any, ArgKind::Any, s),
        29u8 => chain4(ArgKind::Any, ArgKind::Any, ArgKind::Any, ArgKind::Any, s),
        30u8 => chain4(ArgKind::Any, ArgKind::Any, ArgKind::Any, ArgKind::Any, s),
        31u8 => chain4(ArgKind::Any, ArgKind::Any, ArgKind::Any, ArgKind::Any, s),
        32u8 => chain4(ArgKind::Any, ArgKind::Any, ArgKind::Any, ArgKind::Any, s),
        33u8 => chain4(ArgKind::Any, ArgKind::Any, ArgKind::Any, ArgKind::Any, s),
        34u8 => chain4(ArgKind::Any, ArgKind::Any, ArgKind::Any, ArgKind::Any, s),
        35u8 => chain4(ArgKind::Any, ArgKind::Any, ArgKind::Any, ArgKind::Any, s),
        36u8 => chain4(ArgKind::Any, ArgKind::Any, ArgKind::Any, ArgKind::Any, s),
        37u8 => chain4(ArgKind::Any, ArgKind::Any, ArgKind::Any, ArgKind::Any, s),
        38u8 => chain3(ArgKind::Any, ArgKind::Any, ArgKind::Any, s),
        39u8 => chain3(ArgKind::Any, ArgKind::Any, ArgKind::Any, s),
        40u8 => chain3(ArgKind::Any, ArgKind::Any, ArgKind::Any, s),
        41u8 => chain3(ArgKind::Any, ArgKind::Any, ArgKind::Any, s),
        42u8 => chain3(ArgKind::Any, ArgKind::Any, ArgKind::Any, s),
        43u8 => chain3(ArgKind::Lbl, ArgKind::Any, ArgKind::Any, s),
        44u8 => chain3(ArgKind::Lbl, ArgKind::Any, ArgKind::Any, s),
        45u8 => chain2(ArgKind::Lbl, ArgKind::Any, s),
        46u8 => chain2(ArgKind::Lbl, ArgKind::Any, s),
        47u8 => chain2(ArgKind::Lbl, ArgKind::Any, s),
        48u8 => chain2(ArgKind::Lbl, ArgKind::Any, s),
        49u8 => chain2(ArgKind::Lbl, ArgKind::Any, s),
        50u8 => chain2(ArgKind::Lbl, ArgKind::Any, s),
        51u8 => chain2(ArgKind::Lbl, ArgKind::Any, s),
        52u8 => chain2(ArgKind::Lbl, ArgKind::Any, s),
        53u8 => chain2(ArgKind::Lbl, ArgKind::Any, s),
        54u8 => chain2(ArgKind::Lbl, ArgKind::Any, s),
        55u8 => chain2(ArgKind::Lbl, ArgKind::Any, s),
        56u8 => chain2(ArgKind::Lbl, ArgKind::Any, s),
        57u8 => chain2(ArgKind::Lbl, ArgKind::Any, s),
        58u8 => chain3(ArgKind::Lbl, ArgKind::Any, ArgKind::U, s),
        59u8 => chain3(ArgKind::Any, ArgKind::Lbl, ArgKind::Lst, s),
        60u8 => chain3(ArgKind::Any, ArgKind::Any, ArgKind::Any, s),
        61u8 => chain1(ArgKind::Lbl, s),
        62u8 => chain2(ArgKind::Any, ArgKind::Any, s),
        63u8 => chain1(ArgKind::Any, s),
        64u8 => chain2(ArgKind::Any, ArgKind::Reg, s),
        65u8 => chain3(ArgKind::Any, ArgKind::Reg, ArgKind::Reg, s),
        66u8 => chain3(ArgKind::Reg, ArgKind::U, ArgKind::Reg, s),
        67u8 => chain3(ArgKind::Any, ArgKind::Any, ArgKind::Any, s),
        68u8 => chain3(ArgKind::Any, ArgKind::Any, ArgKind::Any, s),
        69u8 => chain3(ArgKind::Any, ArgKind::Any, ArgKind::Reg, s),
        70u8 => chain2(ArgKind::Any, ArgKind::Any, s),
        71u8 => chain1(ArgKind::Any, s),
        72u8 => chain1(ArgKind::Any, s),
        73u8 => chain0(s),
        74u8 => chain1(ArgKind::Any, s),
        75u8 => chain1(ArgKind::Any, s),
        76u8 => chain3(ArgKind::Any, ArgKind::Any, ArgKind::Any, s),
        77u8 => chain2(ArgKind::Any, ArgKind::Any, s),
        78u8 => chain2(ArgKind::U, ArgKind::U, s),
        79u8 => chain2(ArgKind::Any, ArgKind::Any, s),
        80u8 => chain5(ArgKind::Any, ArgKind::Any, ArgKind::Any, ArgKind::Any, ArgKind::Any, s),
        81u8 => chain5(ArgKind::Any, ArgKind::Any, ArgKind::Any, ArgKind::Any, ArgKind::Any, s),
        82u8 => chain5(ArgKind::Any, ArgKind::Any, ArgKind::Any, ArgKind::Any, ArgKind::Any, s),
        83u8 => chain4(ArgKind::Any, ArgKind::Any, ArgKind::Any, ArgKind::Any, s),
        84u8 => chain2(ArgKind::Any, ArgKind::Any, s),
        85u8 => chain1(ArgKind::Any, s),
        86u8 => chain1(ArgKind::Any, s),
        87u8 => chain2(ArgKind::Any, ArgKind::Any, s),
        88u8 => chain2(ArgKind::Any, ArgKind::Any, s),
        89u8 => chain5(ArgKind::Any, ArgKind::Any, ArgKind::Any, ArgKind::Any, ArgKind::Any, s),
        90u8 => chain5(ArgKind::Any, ArgKind::Any, ArgKind::Any, ArgKind::Any, ArgKind::Any, s),
        91u8 => chain5(ArgKind::Any, ArgKind::Any, ArgKind::Any, ArgKind::Any, ArgKind::Any, s),
        92u8 => chain2(ArgKind::Any, ArgKind::Any, s),
        93u8 => chain1(ArgKind::Any, s),
        94u8 => chain0(s),
        95u8 => chain1(ArgKind::Any, s),
        96u8 => chain2(ArgKind::Any, ArgKind::Any, s),
        97u8 => chain2(ArgKind::Any, ArgKind::Any, s),
        98u8 => chain4(ArgKind::Any, ArgKind::Any, ArgKind::Any, ArgKind::Any, s),
        99u8 => chain4(ArgKind::Any, ArgKind::Any, ArgKind::Any, ArgKind::Any, s),
        100u8 => chain4(ArgKind::Any, ArgKind::Any, ArgKind::Any, ArgKind::Any, s),
        101u8 => chain4(ArgKind::Any, ArgKind::Any, ArgKind::Any, ArgKind::Any, s),
        102u8 => chain3(ArgKind::Any, ArgKind::Any, ArgKind::Any, s),
        103u8 => chain1(ArgKind::Any, s),
        104u8 => chain2(ArgKind::Reg, ArgKind::Lbl, s),
        105u8 => chain1(ArgKind::Reg, s),
        106u8 => chain1(ArgKind::Reg, s),
        107u8 => chain1(ArgKind::Any, s),
        108u8 => chain2(ArgKind::Any, ArgKind::Any, s),
        109u8 => chain6(ArgKind::Any, ArgKind::Any, ArgKind::Any, ArgKind::Any, ArgKind::Any, ArgKind::Any, s),
        110u8 => chain3(ArgKind::Any, ArgKind::Any, ArgKind::Any, s),
        111u8 => chain5(ArgKind::Any, ArgKind::Any, ArgKind::Any, ArgKind::Any, ArgKind::Any, s),
        112u8 => chain1(ArgKind::Any, s),
        113u8 => chain2(ArgKind::Any, ArgKind::Any, s),
        114u8 => chain2(ArgKind::Any, ArgKind::Any, s),
        115u8 => chain3(ArgKind::Any, ArgKind::Any, ArgKind::Any, s),
        116u8 => chain5(ArgKind::Any, ArgKind::Any, ArgKind::Any, ArgKind::Any, ArgKind::Any, s),
        117u8 => chain7(ArgKind::Any, ArgKind::Any, ArgKind::Any, ArgKind::Any, ArgKind::Any, ArgKind::Any, ArgKind::Any, s),
        118u8 => chain7(ArgKind::Any, ArgKind::Any, ArgKind::Any, ArgKind::Any, ArgKind::Any, ArgKind::Any, ArgKind::Any, s),
        119u8 => chain7(ArgKind::Any, ArgKind::Any, ArgKind::Any, ArgKind::Any, ArgKind::Any, ArgKind::Any, ArgKind::Any, s),
        120u8 => chain5(ArgKind::Any, ArgKind::Any, ArgKind::Any, ArgKind::Any, ArgKind::Any, s),
        121u8 => chain3(ArgKind::Any, ArgKind::Any, ArgKind::Any, s),
        122u8 => chain2(ArgKind::Any, ArgKind::Any, s),
        123u8 => chain2(ArgKind::Any, ArgKind::Any, s),
        124u8 => chain5(ArgKind::Any, ArgKind::Any, ArgKind::Any, ArgKind::Any, ArgKind::Any, s),
        125u8 => chain6(ArgKind::Any, ArgKind::Any, ArgKind::Any, ArgKind::Any, ArgKind::Any, ArgKind::Any, s),
        126u8 => chain2(ArgKind::Any, ArgKind::Any, s),
        127u8 => chain2(ArgKind::Any, ArgKind::Any, s),
        128u8 => chain2(ArgKind::Any, ArgKind::Any, s),
        129u8 => chain2(ArgKind::Any, ArgKind::Any, s),
        130u8 => chain1(ArgKind::Any, s),
        131u8 => chain3(ArgKind::Any, ArgKind::Any, ArgKind::Any, s),
        132u8 => chain4(ArgKind::Any, ArgKind::Any, ArgKind::Any, ArgKind::Any, s),
        133u8 => chain0(s),
        134u8 => chain8(ArgKind::Any, ArgKind::Any, ArgKind::Any, ArgKind::Any, ArgKind::Any, ArgKind::Any, ArgKind::Any, ArgKind::Any, s),
        135u8 => chain6(ArgKind::Any, ArgKind::Any, ArgKind::Any, ArgKind::Any, ArgKind::Any, ArgKind::Any, s),
        136u8 => chain2(ArgKind::Any, ArgKind::Any, s),
        137u8 => chain6(ArgKind::Any, ArgKind::Any, ArgKind::Any, ArgKind::Any, ArgKind::Any, ArgKind::Any, s),
        138u8 => chain5(ArgKind::Any, ArgKind::Any, ArgKind::Any, ArgKind::Any, ArgKind::Any, s),
        139u8 => chain4(ArgKind::Any, ArgKind::Any, ArgKind::Any, ArgKind::Any, s),
        140u8 => chain5(ArgKind::Any, ArgKind::Any, ArgKind::Any, ArgKind::Any, ArgKind::Any, s),
        141u8 => chain4(ArgKind::Any, ArgKind::Any, ArgKind::Any, ArgKind::Any, s),
        142u8 => chain5(ArgKind::Any, ArgKind::Any, ArgKind::Any, ArgKind::Any, ArgKind::Any, s),
        143u8 => chain4(ArgKind::Any, ArgKind::Any, ArgKind::Any, ArgKind::Any, s),
        144u8 => chain3(ArgKind::Any, ArgKind::Any, ArgKind::Any, s),
        145u8 => chain3(ArgKind::Any, ArgKind::Any, ArgKind::Any, s),
        146u8 => chain3(ArgKind::Any, ArgKind::Any, ArgKind::Any, s),
        147u8 => chain3(ArgKind::Any, ArgKind::Any, ArgKind::Any, s),
        148u8 => chain3(ArgKind::Any, ArgKind::Any, ArgKind::Any, s),
        149u8 => chain0(s),
        150u8 => chain1(ArgKind::Any, s),
        151u8 => chain1(ArgKind::Any, s),
        152u8 => chain7(ArgKind::Any, ArgKind::Any, ArgKind::Any, ArgKind::Any, ArgKind::Any, ArgKind::Any, ArgKind::Any, s),
        153u8 => chain1(ArgKind::U, s),
        154u8 => chain5(ArgKind::Any, ArgKind::Any, ArgKind::Any, ArgKind::Any, ArgKind::Any, s),
        155u8 => chain5(ArgKind::Any, ArgKind::Any, ArgKind::Any, ArgKind::Any, ArgKind::Any, s),
        156u8 => chain2(ArgKind::Any, ArgKind::Any, s),
        157u8 => chain3(ArgKind::Any, ArgKind::Any, ArgKind::Any, s),
        158u8 => chain3(ArgKind::Any, ArgKind::Any, ArgKind::Any, s),
        159u8 => chain4(ArgKind::Lbl, ArgKind::Reg, ArgKind::U, ArgKind::Atm, s),
        160u8 => chain0(s),
        161u8 => chain0(s),
        162u8 => chain2(ArgKind::Any, ArgKind::Any, s),
        163u8 => chain2(ArgKind::Any, ArgKind::Any, s),
        164u8 => chain2(ArgKind::Reg, ArgKind::Lst, s),
        165u8 => chain3(ArgKind::Any, ArgKind::Reg, ArgKind::U, s),
        166u8 => chain4(ArgKind::Lbl, ArgKind::Any, ArgKind::U, ArgKind::Reg, s),
        167u8 => chain3(ArgKind::Any, ArgKind::Reg, ArgKind::U, s),
        168u8 => chain2(ArgKind::Any, ArgKind::Any, s),
        169u8 => chain2(ArgKind::Any, ArgKind::Any, s),
        170u8 => chain4(ArgKind::Any, ArgKind::Any, ArgKind::Any, ArgKind::Any, s),
        171u8 => chain3(ArgKind::Any, ArgKind::Any, ArgKind::Any, s),
        172u8 => chain1(ArgKind::Ys, s),
        173u8 => chain2(ArgKind::Any, ArgKind::Any, s),
        174u8 => chain1(ArgKind::Any, s),
        175u8 => chain1(ArgKind::Any, s),
        176u8 => chain1(ArgKind::Any, s),
        177u8 => chain6(ArgKind::Any, ArgKind::Any, ArgKind::Any, ArgKind::Any, ArgKind::Any, ArgKind::Any, s),
        178u8 => chain3(ArgKind::Any, ArgKind::Any, ArgKind::Any, s),
        179u8 => chain0(s),
        180u8 => chain1(ArgKind::Any, s),
        _ => Err(DecodeErrorV::UnknownOpcode { opcode: op }),
    }
}

#[derive(Debug, PartialEq)]
pub struct Label {
    pub literal: usize,
}

impl Opcode for Label {
    const CODE: u8 = 1;
}

impl Label {
    /// The operand views of this instruction, in wire order.
    pub open spec fn args(&self) -> Seq<TermV> {
        seq![
            TermV::Usize(self.literal as int),
        ]
    }

    /// The canonical byte string of this instruction.
    pub open spec fn enc(&self) -> Seq<u8> {
        seq![1u8] + wire::enc_termv(TermV::Usize(self.literal as int))
    }

    pub(crate) fn decode_operands(r: &mut Reader<'_>) -> (res: Result<Label, DecodeError>)
        ensures
            match res {
                Ok(v) => chain1(ArgKind::U, old(r).remaining()) matches Ok((args, n)) && args == v.args()
                    && n <= old(r).remaining().len() && final(r).remaining() == old(r).remaining().skip(n as int),
                Err(e) => chain1(ArgKind::U, old(r).remaining()) matches Err(se) && se == e@,
            },
    {
        let literal = crate::term::decode_usize_arg(r)?;
        Ok(Label { literal })
    }

    pub(crate) fn encode_operands(&self, out: &mut Vec<u8>) -> (res: Result<(), EncodeError>)
        ensures
            res is Ok,
            final(out)@ == old(out)@ + self.enc(),
    {
        out.push(1);
        crate::term::encode_usize(0, self.literal, out);
        proof {
            assert(out@ =~= old(out)@ + self.enc());
        }
        Ok(())
    }
}

#[derive(Debug, PartialEq)]
pub struct FuncInfo {
    pub module: Atom,
    pub function: Atom,
    pub arity: usize,
}

impl Opcode for FuncInfo {
    const CODE: u8 = 2;
}

impl FuncInfo {
    /// The operand views of this instruction, in wire order.
    pub open spec fn args(&self) -> Seq<TermV> {
        seq![
            TermV::Atom(self.module.value as int),
            TermV::Atom(self.function.value as int),
            TermV::Usize(self.arity as int),
        ]
    }

    /// The canonical byte string of this instruction.
    pub open spec fn enc(&self) -> Seq<u8> {
        seq![2u8] + wire::enc_termv(TermV::Atom(self.module.value as int)) + wire::enc_termv(TermV::Atom(self.function.value as int)) + wire::enc_termv(TermV::Usize(self.arity as int))
    }

    pub(crate) fn decode_operands(r: &mut Reader<'_>) -> (res: Result<FuncInfo, DecodeError>)
        ensures
            match res {
                Ok(v) => chain3(ArgKind::Atm, ArgKind::Atm, ArgKind::U, old(r).remaining()) matches Ok((args, n)) && args == v.args()
                    && n <= old(r).remaining().len() && final(r).remaining() == old(r).remaining().skip(n as int),
                Err(e) => chain3(ArgKind::Atm, ArgKind::Atm, ArgKind::U, old(r).remaining()) matches Err(se) && se == e@,
            },
    {
        let module = Atom::decode(r)?;
        let function = Atom::decode(r)?;
        let arity = crate::term::decode_usize_arg(r)?;
        Ok(FuncInfo { module, function, arity })
    }

    pub(crate) fn encode_operands(&self, out: &mut Vec<u8>) -> (res: Result<(), EncodeError>)
        ensures
            res is Ok,
            final(out)@ == old(out)@ + self.enc(),
    {
        out.push(2);
        self.module.encode(out)?;
        self.function.encode(out)?;
        crate::term::encode_usize(0, self.arity, out);
        proof {
            assert(out@ =~= old(out)@ + self.enc());
        }
        Ok(())
    }
}

#[derive(Debug, PartialEq)]
pub struct IntCodeEnd {}

impl Opcode for IntCodeEnd {
    const CODE: u8 = 3;
}

impl IntCodeEnd {
    /// The operand views of this instruction, in wire order.
    pub open spec fn args(&self) -> Seq<TermV> {
        Seq::empty()
    }

    /// The canonical byte string of this instruction.
    pub open spec fn enc(&self) -> Seq<u8> {
        seq![3u8]
    }

    pub(crate) fn decode_operands(r: &mut Reader<'_>) -> (res: Result<IntCodeEnd, DecodeError>)
        ensures
            match res {
                Ok(v) => chain0(old(r).remaining()) matches Ok((args, n)) && args == v.args()
                    && n <= old(r).remaining().len() && final(r).remaining() == old(r).remaining().skip(n as int),
                Err(e) => chain0(old(r).remaining()) matches Err(se) && se == e@,
            },
    {
        proof {
            assert(old(r).remaining().skip(0) =~= old(r).remaining());
        }
        Ok(IntCodeEnd {  })
    }

    pub(crate) fn encode_operands(&self, out: &mut Vec<u8>) -> (res: Result<(), EncodeError>)
        ensures
            res is Ok,
            final(out)@ == old(out)@ + self.enc(),
    {
        out.push(3);
        proof {
            assert(out@ =~= old(out)@ + self.enc());
        }
        Ok(())
    }
}

#[derive(Debug, PartialEq)]
pub struct Call {
    pub arity: usize,
    pub label: crate::term::Label,
}

impl Opcode for Call {
    const CODE: u8 = 4;
}

impl Call {
    /// The operand views of this instruction, in wire order.
    pub open spec fn args(&self) -> Seq<TermV> {
        seq![
            TermV::Usize(self.arity as int),
            TermV::Label(self.label.value as int),
        ]
    }

    /// The canonical byte string of this instruction.
    pub open spec fn enc(&self) -> Seq<u8> {
        seq![4u8] + wire::enc_termv(TermV::Usize(self.arity as int)) + wire::enc_termv(TermV::Label(self.label.value as int))
    }

    pub(crate) fn decode_operands(r: &mut Reader<'_>) -> (res: Result<Call, DecodeError>)
        ensures
            match res {
                Ok(v) => chain2(ArgKind::U, ArgKind::Lbl, old(r).remaining()) matches Ok((args, n)) && args == v.args()
                    && n <= old(r).remaining().len() && final(r).remaining() == old(r).remaining().skip(n as int),
                Err(e) => chain2(ArgKind::U, ArgKind::Lbl, old(r).remaining()) matches Err(se) && se == e@,
            },
    {
        let arity = crate::term::decode_usize_arg(r)?;
        let label = crate::term::Label::decode(r)?;
        Ok(Call { arity, label })
    }

    pub(crate) fn encode_operands(&self, out: &mut Vec<u8>) -> (res: Result<(), EncodeError>)
        ensures
            res is Ok,
            final(out)@ == old(out)@ + self.enc(),
    {
        out.push(4);
        crate::term::encode_usize(0, self.arity, out);
        self.label.encode(out)?;
        proof {
            assert(out@ =~= old(out)@ + self.enc());
        }
        Ok(())
    }
}

#[derive(Debug, PartialEq)]
pub struct CallLast {
    pub arg1: Term,
    pub arg2: Term,
    pub arg3: Term,
}

impl Opcode for CallLast {
    const CODE: u8 = 5;
}

impl CallLast {
    /// The operand views of this instruction, in wire order.
    pub open spec fn args(&self) -> Seq<TermV> {
        seq![
            self.arg1@,
            self.arg2@,
            self.arg3@,
        ]
    }

    /// The canonical byte string of this instruction.
    pub open spec fn enc(&self) -> Seq<u8> {
        seq![5u8] + wire::enc_termv(self.arg1@) + wire::enc_termv(self.arg2@) + wire::enc_termv(self.arg3@)
    }

    pub(crate) fn decode_operands(r: &mut Reader<'_>) -> (res: Result<CallLast, DecodeError>)
        ensures
            match res {
                Ok(v) => chain3(ArgKind::Any, ArgKind::Any, ArgKind::Any, old(r).remaining()) matches Ok((args, n)) && args == v.args()
                    && n <= old(r).remaining().len() && final(r).remaining() == old(r).remaining().skip(n as int),
                Err(e) => chain3(ArgKind::Any, ArgKind::Any, ArgKind::Any, old(r).remaining()) matches Err(se) && se == e@,
            },
    {
        let arg1 = crate::term::decode_term_arg(r)?;
        let arg2 = crate::term::decode_term_arg(r)?;
        let arg3 = crate::term::decode_term_arg(r)?;
        Ok(CallLast { arg1, arg2, arg3 })
    }

    pub(crate) fn encode_operands(&self, out: &mut Vec<u8>) -> (res: Result<(), EncodeError>)
        ensures
            res is Ok,
            final(out)@ == old(out)@ + self.enc(),
    {
        out.push(5);
        self.arg1.encode(out)?;
        self.arg2.encode(out)?;
        self.arg3.encode(out)?;
        proof {
            assert(out@ =~= old(out)@ + self.enc());
        }
        Ok(())
    }
}

#[derive(Debug, PartialEq)]
pub struct CallOnly {
    pub arity: usize,
    pub label: crate::term::Label,
}

impl Opcode for CallOnly {
    const CODE: u8 = 6;
}

impl CallOnly {
    /// The operand views of this instruction, in wire order.
    pub open spec fn args(&self) -> Seq<TermV> {
        seq![
            TermV::Usize(self.arity as int),
            TermV::Label(self.label.value as int),
        ]
    }

    /// The canonical byte string of this instruction.
    pub open spec fn enc(&self) -> Seq<u8> {
        seq![6u8] + wire::enc_termv(TermV::Usize(self.arity as int)) + wire::enc_termv(TermV::Label(self.label.value as int))
    }

    pub(crate) fn decode_operands(r: &mut Reader<'_>) -> (res: Result<CallOnly, DecodeError>)
        ensures
            match res {
                Ok(v) => chain2(ArgKind::U, ArgKind::Lbl, old(r).remaining()) matches Ok((args, n)) && args == v.args()
                    && n <= old(r).remaining().len() && final(r).remaining() == old(r).remaining().skip(n as int),
                Err(e) => chain2(ArgKind::U, ArgKind::Lbl, old(r).remaining()) matches Err(se) && se == e@,
            },
    {
        let arity = crate::term::decode_usize_arg(r)?;
        let label = crate::term::Label::decode(r)?;
        Ok(CallOnly { arity, label })
    }

    pub(crate) fn encode_operands(&self, out: &mut Vec<u8>) -> (res: Result<(), EncodeError>)
        ensures
            res is Ok,
            final(out)@ == old(out)@ + self.enc(),
    {
        out.push(6);
        crate::term::encode_usize(0, self.arity, out);
        self.label.encode(out)?;
        proof {
            assert(out@ =~= old(out)@ + self.enc());
        }
        Ok(())
    }
}

#[derive(Debug, PartialEq)]
pub struct CallExt {
    pub arity: usize,
    pub destination: usize,
}

impl Opcode for CallExt {
    const CODE: u8 = 7;
}

impl CallExt {
    /// The operand views of this instruction, in wire order.
    pub open spec fn args(&self) -> Seq<TermV> {
        seq![
            TermV::Usize(self.arity as int),
            TermV::Usize(self.destination as int),
        ]
    }

    /// The canonical byte string of this instruction.
    pub open spec fn enc(&self) -> Seq<u8> {
        seq![7u8] + wire::enc_termv(TermV::Usize(self.arity as int)) + wire::enc_termv(TermV::Usize(self.destination as int))
    }

    pub(crate) fn decode_operands(r: &mut Reader<'_>) -> (res: Result<CallExt, DecodeError>)
        ensures
            match res {
                Ok(v) => chain2(ArgKind::U, ArgKind::U, old(r).remaining()) matches Ok((args, n)) && args == v.args()
                    && n <= old(r).remaining().len() && final(r).remaining() == old(r).remaining().skip(n as int),
                Err(e) => chain2(ArgKind::U, ArgKind::U, old(r).remaining()) matches Err(se) && se == e@,
            },
    {
        let arity = crate::term::decode_usize_arg(r)?;
        let destination = crate::term::decode_usize_arg(r)?;
        Ok(CallExt { arity, destination })
    }

    pub(crate) fn encode_operands(&self, out: &mut Vec<u8>) -> (res: Result<(), EncodeError>)
        ensures
            res is Ok,
            final(out)@ == old(out)@ + self.enc(),
    {
        out.push(7);
        crate::term::encode_usize(0, self.arity, out);
        crate::term::encode_usize(0, self.destination, out);
        proof {
            assert(out@ =~= old(out)@ + self.enc());
        }
        Ok(())
    }
}

#[derive(Debug, PartialEq)]
pub struct CallExtLast {
    pub arity: usize,
    pub destination: usize,
    pub deallocate: usize,
}

impl Opcode for CallExtLast {
    const CODE: u8 = 8;
}

impl CallExtLast {
    /// The operand views of this instruction, in wire order.
    pub open spec fn args(&self) -> Seq<TermV> {
        seq![
            TermV::Usize(self.arity as int),
            TermV::Usize(self.destination as int),
            TermV::Usize(self.deallocate as int),
        ]
    }

    /// The canonical byte string of this instruction.
    pub open spec fn enc(&self) -> Seq<u8> {
        seq![8u8] + wire::enc_termv(TermV::Usize(self.arity as int)) + wire::enc_termv(TermV::Usize(self.destination as int)) + wire::enc_termv(TermV::Usize(self.deallocate as int))
    }

    pub(crate) fn decode_operands(r: &mut Reader<'_>) -> (res: Result<CallExtLast, DecodeError>)
        ensures
            match res {
                Ok(v) => chain3(ArgKind::U, ArgKind::U, ArgKind::U, old(r).remaining()) matches Ok((args, n)) && args == v.args()
                    && n <= old(r).remaining().len() && final(r).remaining() == old(r).remaining().skip(n as int),
                Err(e) => chain3(ArgKind::U, ArgKind::U, ArgKind::U, old(r).remaining()) matches Err(se) && se == e@,
            },
    {
        let arity = crate::term::decode_usize_arg(r)?;
        let destination = crate::term::decode_usize_arg(r)?;
        let deallocate = crate::term::decode_usize_arg(r)?;
        Ok(CallExtLast { arity, destination, deallocate })
    }

    pub(crate) fn encode_operands(&self, out: &mut Vec<u8>) -> (res: Result<(), EncodeError>)
        ensures
            res is Ok,
            final(out)@ == old(out)@ + self.enc(),
    {
        out.push(8);
        crate::term::encode_usize(0, self.arity, out);
        crate::term::encode_usize(0, self.destination, out);
        crate::term::encode_usize(0, self.deallocate, out);
        proof {
            assert(out@ =~= old(out)@ + self.enc());
        }
        Ok(())
    }
}

#[derive(Debug, PartialEq)]
pub struct Bif0 {
    pub arg1: Term,
    pub arg2: Term,
}

impl Opcode for Bif0 {
    const CODE: u8 = 9;
}

impl Bif0 {
    /// The operand views of this instruction, in wire order.
    pub open spec fn args(&self) -> Seq<TermV> {
        seq![
            self.arg1@,
            self.arg2@,
        ]
    }

    /// The canonical byte string of this instruction.
    pub open spec fn enc(&self) -> Seq<u8> {
        seq![9u8] + wire::enc_termv(self.arg1@) + wire::enc_termv(self.arg2@)
    }

    pub(crate) fn decode_operands(r: &mut Reader<'_>) -> (res: Result<Bif0, DecodeError>)
        ensures
            match res {
                Ok(v) => chain2(ArgKind::Any, ArgKind::Any, old(r).remaining()) matches Ok((args, n)) && args == v.args()
                    && n <= old(r).remaining().len() && final(r).remaining() == old(r).remaining().skip(n as int),
                Err(e) => chain2(ArgKind::Any, ArgKind::Any, old(r).remaining()) matches Err(se) && se == e@,
            },
    {
        let arg1 = crate::term::decode_term_arg(r)?;
        let arg2 = crate::term::decode_term_arg(r)?;
        Ok(Bif0 { arg1, arg2 })
    }

    pub(crate) fn encode_operands(&self, out: &mut Vec<u8>) -> (res: Result<(), EncodeError>)
        ensures
            res is Ok,
            final(out)@ == old(out)@ + self.enc(),
    {
        out.push(9);
        self.arg1.encode(out)?;
        self.arg2.encode(out)?;
        proof {
            assert(out@ =~= old(out)@ + self.enc());
        }
        Ok(())
    }
}

#[derive(Debug, PartialEq)]
pub struct Bif1 {
    pub arg1: Term,
    pub arg2: Term,
    pub arg3: Term,
    pub arg4: Term,
}

impl Opcode for Bif1 {
    const CODE: u8 = 10;
}

impl Bif1 {
    /// The operand views of this instruction, in wire order.
    pub open spec fn args(&self) -> Seq<TermV> {
        seq![
            self.arg1@,
            self.arg2@,
            self.arg3@,
            self.arg4@,
        ]
    }

    /// The canonical byte string of this instruction.
    pub open spec fn enc(&self) -> Seq<u8> {
        seq![10u8] + wire::enc_termv(self.arg1@) + wire::enc_termv(self.arg2@) + wire::enc_termv(self.arg3@) + wire::enc_termv(self.arg4@)
    }

    pub(crate) fn decode_operands(r: &mut Reader<'_>) -> (res: Result<Bif1, DecodeError>)
        ensures
            match res {
                Ok(v) => chain4(ArgKind::Any, ArgKind::Any, ArgKind::Any, ArgKind::Any, old(r).remaining()) matches Ok((args, n)) && args == v.args()
                    && n <= old(r).remaining().len() && final(r).remaining() == old(r).remaining().skip(n as int),
                Err(e) => chain4(ArgKind::Any, ArgKind::Any, ArgKind::Any, ArgKind::Any, old(r).remaining()) matches Err(se) && se == e@,
            },
    {
        let arg1 = crate::term::decode_term_arg(r)?;
        let arg2 = crate::term::decode_term_arg(r)?;
        let arg3 = crate::term::decode_term_arg(r)?;
        let arg4 = crate::term::decode_term_arg(r)?;
        Ok(Bif1 { arg1, arg2, arg3, arg4 })
    }

    pub(crate) fn encode_operands(&self, out: &mut Vec<u8>) -> (res: Result<(), EncodeError>)
        ensures
            res is Ok,
            final(out)@ == old(out)@ + self.enc(),
    {
        out.push(10);
        self.arg1.encode(out)?;
        self.arg2.encode(out)?;
        self.arg3.encode(out)?;
        self.arg4.encode(out)?;
        proof {
            assert(out@ =~= old(out)@ + self.enc());
        }
        Ok(())
    }
}

#[derive(Debug, PartialEq)]
pub struct Bif2 {
    pub arg1: Term,
    pub arg2: Term,
    pub arg3: Term,
    pub arg4: Term,
    pub arg5: Term,
}

impl Opcode for Bif2 {
    const CODE: u8 = 11;
}

impl Bif2 {
    /// The operand views of this instruction, in wire order.
    pub open spec fn args(&self) -> Seq<TermV> {
        seq![
            self.arg1@,
            self.arg2@,
            self.arg3@,
            self.arg4@,
            self.arg5@,
        ]
    }

    /// The canonical byte string of this instruction.
    pub open spec fn enc(&self) -> Seq<u8> {
        seq![11u8] + wire::enc_termv(self.arg1@) + wire::enc_termv(self.arg2@) + wire::enc_termv(self.arg3@) + wire::enc_termv(self.arg4@) + wire::enc_termv(self.arg5@)
    }

    #[verifier::rlimit(100)]
    pub(crate) fn decode_operands(r: &mut Reader<'_>) -> (res: Result<Bif2, DecodeError>)
        ensures
            match res {
                Ok(v) => chain5(ArgKind::Any, ArgKind::Any, ArgKind::Any, ArgKind::Any, ArgKind::Any, old(r).remaining()) matches Ok((args, n)) && args == v.args()
                    && n <= old(r).remaining().len() && final(r).remaining() == old(r).remaining().skip(n as int),
                Err(e) => chain5(ArgKind::Any, ArgKind::Any, ArgKind::Any, ArgKind::Any, ArgKind::Any, old(r).remaining()) matches Err(se) && se == e@,
            },
    {
        let arg1 = crate::term::decode_term_arg(r)?;
        let arg2 = crate::term::decode_term_arg(r)?;
        let arg3 = crate::term::decode_term_arg(r)?;
        let arg4 = crate::term::decode_term_arg(r)?;
        let arg5 = crate::term::decode_term_arg(r)?;
        Ok(Bif2 { arg1, arg2, arg3, arg4, arg5 })
    }

    #[verifier::rlimit(100)]
    pub(crate) fn encode_operands(&self, out: &mut Vec<u8>) -> (res: Result<(), EncodeError>)
        ensures
            res is Ok,
            final(out)@ == old(out)@ + self.enc(),
    {
        out.push(11);
        self.arg1.encode(out)?;
        self.arg2.encode(out)?;
        self.arg3.encode(out)?;
        self.arg4.encode(out)?;
        self.arg5.encode(out)?;
        proof {
            assert(out@ =~= old(out)@ + self.enc());
        }
        Ok(())
    }
}

#[derive(Debug, PartialEq)]
pub struct Allocate {
    pub stack_need: Allocation,
    pub live: usize,
}

impl Opcode for Allocate {
    const CODE: u8 = 12;
}

impl Allocate {
    /// The operand views of this instruction, in wire order.
    pub open spec fn args(&self) -> Seq<TermV> {
        seq![
            self.stack_need@,
            TermV::Usize(self.live as int),
        ]
    }

    /// The canonical byte string of this instruction.
    pub open spec fn enc(&self) -> Seq<u8> {
        seq![12u8] + wire::enc_termv(self.stack_need@) + wire::enc_termv(TermV::Usize(self.live as int))
    }

    pub(crate) fn decode_operands(r: &mut Reader<'_>) -> (res: Result<Allocate, DecodeError>)
        ensures
            match res {
                Ok(v) => chain2(ArgKind::Alloc, ArgKind::U, old(r).remaining()) matches Ok((args, n)) && args == v.args()
                    && n <= old(r).remaining().len() && final(r).remaining() == old(r).remaining().skip(n as int),
                Err(e) => chain2(ArgKind::Alloc, ArgKind::U, old(r).remaining()) matches Err(se) && se == e@,
            },
    {
        let stack_need = Allocation::decode(r)?;
        let live = crate::term::decode_usize_arg(r)?;
        Ok(Allocate { stack_need, live })
    }

    pub(crate) fn encode_operands(&self, out: &mut Vec<u8>) -> (res: Result<(), EncodeError>)
        ensures
            res is Ok,
            final(out)@ == old(out)@ + self.enc(),
    {
        out.push(12);
        self.stack_need.encode(out)?;
        crate::term::encode_usize(0, self.live, out);
        proof {
            assert(out@ =~= old(out)@ + self.enc());
        }
        Ok(())
    }
}

#[derive(Debug, PartialEq)]
pub struct AllocateHeap {
    pub stack_need: Allocation,
    pub heap_need: Allocation,
    pub live: usize,
}

impl Opcode for AllocateHeap {
    const CODE: u8 = 13;
}

impl AllocateHeap {
    /// The operand views of this instruction, in wire order.
    pub open spec fn args(&self) -> Seq<TermV> {
        seq![
            self.stack_need@,
            self.heap_need@,
            TermV::Usize(self.live as int),
        ]
    }

    /// The canonical byte string of this instruction.
    pub open spec fn enc(&self) -> Seq<u8> {
        seq![13u8] + wire::enc_termv(self.stack_need@) + wire::enc_termv(self.heap_need@) + wire::enc_termv(TermV::Usize(self.live as int))
    }

    pub(crate) fn decode_operands(r: &mut Reader<'_>) -> (res: Result<AllocateHeap, DecodeError>)
        ensures
            match res {
                Ok(v) => chain3(ArgKind::Alloc, ArgKind::Alloc, ArgKind::U, old(r).remaining()) matches Ok((args, n)) && args == v.args()
                    && n <= old(r).remaining().len() && final(r).remaining() == old(r).remaining().skip(n as int),
                Err(e) => chain3(ArgKind::Alloc, ArgKind::Alloc, ArgKind::U, old(r).remaining()) matches Err(se) && se == e@,
            },
    {
        let stack_need = Allocation::decode(r)?;
        let heap_need = Allocation::decode(r)?;
        let live = crate::term::decode_usize_arg(r)?;
        Ok(AllocateHeap { stack_need, heap_need, live })
    }

    pub(crate) fn encode_operands(&self, out: &mut Vec<u8>) -> (res: Result<(), EncodeError>)
        ensures
            res is Ok,
            final(out)@ == old(out)@ + self.enc(),
    {
        out.push(13);
        self.stack_need.encode(out)?;
        self.heap_need.encode(out)?;
        crate::term::encode_usize(0, self.live, out);
        proof {
            assert(out@ =~= old(out)@ + self.enc());
        }
        Ok(())
    }
}

#[derive(Debug, PartialEq)]
pub struct AllocateZero {
    pub arg1: Term,
    pub arg2: Term,
}

impl Opcode for AllocateZero {
    const CODE: u8 = 14;
}

impl AllocateZero {
    /// The operand views of this instruction, in wire order.
    pub open spec fn args(&self) -> Seq<TermV> {
        seq![
            self.arg1@,
            self.arg2@,
        ]
    }

    /// The canonical byte string of this instruction.
    pub open spec fn enc(&self) -> Seq<u8> {
        seq![14u8] + wire::enc_termv(self.arg1@) + wire::enc_termv(self.arg2@)
    }

    pub(crate) fn decode_operands(r: &mut Reader<'_>) -> (res: Result<AllocateZero, DecodeError>)
        ensures
            match res {
                Ok(v) => chain2(ArgKind::Any, ArgKind::Any, old(r).remaining()) matches Ok((args, n)) && args == v.args()
                    && n <= old(r).remaining().len() && final(r).remaining() == old(r).remaining().skip(n as int),
                Err(e) => chain2(ArgKind::Any, ArgKind::Any, old(r).remaining()) matches Err(se) && se == e@,
            },
    {
        let arg1 = crate::term::decode_term_arg(r)?;
        let arg2 = crate::term::decode_term_arg(r)?;
        Ok(AllocateZero { arg1, arg2 })
    }

    pub(crate) fn encode_operands(&self, out: &mut Vec<u8>) -> (res: Result<(), EncodeError>)
        ensures
            res is Ok,
            final(out)@ == old(out)@ + self.enc(),
    {
        out.push(14);
        self.arg1.encode(out)?;
        self.arg2.encode(out)?;
        proof {
            assert(out@ =~= old(out)@ + self.enc());
        }
        Ok(())
    }
}

#[derive(Debug, PartialEq)]
pub struct AllocateHeapZero {
    pub stack_need: Allocation,
    pub heap_need: Allocation,
    pub live: usize,
}

impl Opcode for AllocateHeapZero {
    const CODE: u8 = 15;
}

impl AllocateHeapZero {
    /// The operand views of this instruction, in wire order.
    pub open spec fn args(&self) -> Seq<TermV> {
        seq![
            self.stack_need@,
            self.heap_need@,
            TermV::Usize(self.live as int),
        ]
    }

    /// The canonical byte string of this instruction.
    pub open spec fn enc(&self) -> Seq<u8> {
        seq![15u8] + wire::enc_termv(self.stack_need@) + wire::enc_termv(self.heap_need@) + wire::enc_termv(TermV::Usize(self.live as int))
    }

    pub(crate) fn decode_operands(r: &mut Reader<'_>) -> (res: Result<AllocateHeapZero, DecodeError>)
        ensures
            match res {
                Ok(v) => chain3(ArgKind::Alloc, ArgKind::Alloc, ArgKind::U, old(r).remaining()) matches Ok((args, n)) && args == v.args()
                    && n <= old(r).remaining().len() && final(r).remaining() == old(r).remaining().skip(n as int),
                Err(e) => chain3(ArgKind::Alloc, ArgKind::Alloc, ArgKind::U, old(r).remaining()) matches Err(se) && se == e@,
            },
    {
        let stack_need = Allocation::decode(r)?;
        let heap_need = Allocation::decode(r)?;
        let live = crate::term::decode_usize_arg(r)?;
        Ok(AllocateHeapZero { stack_need, heap_need, live })
    }

    pub(crate) fn encode_operands(&self, out: &mut Vec<u8>) -> (res: Result<(), EncodeError>)
        ensures
            res is Ok,
            final(out)@ == old(out)@ + self.enc(),
    {
        out.push(15);
        self.stack_need.encode(out)?;
        self.heap_need.encode(out)?;
        crate::term::encode_usize(0, self.live, out);
        proof {
            assert(out@ =~= old(out)@ + self.enc());
        }
        Ok(())
    }
}

#[derive(Debug, PartialEq)]
pub struct TestHeap {
    pub heap_need: Allocation,
    pub live: usize,
}

impl Opcode for TestHeap {
    const CODE: u8 = 16;
}

impl TestHeap {
    /// The operand views of this instruction, in wire order.
    pub open spec fn args(&self) -> Seq<TermV> {
        seq![
            self.heap_need@,
            TermV::Usize(self.live as int),
        ]
    }

    /// The canonical byte string of this instruction.
    pub open spec fn enc(&self) -> Seq<u8> {
        seq![16u8] + wire::enc_termv(self.heap_need@) + wire::enc_termv(TermV::Usize(self.live as int))
    }

    pub(crate) fn decode_operands(r: &mut Reader<'_>) -> (res: Result<TestHeap, DecodeError>)
        ensures
            match res {
                Ok(v) => chain2(ArgKind::Alloc, ArgKind::U, old(r).remaining()) matches Ok((args, n)) && args == v.args()
                    && n <= old(r).remaining().len() && final(r).remaining() == old(r).remaining().skip(n as int),
                Err(e) => chain2(ArgKind::Alloc, ArgKind::U, old(r).remaining()) matches Err(se) && se == e@,
            },
    {
        let heap_need = Allocation::decode(r)?;
        let live = crate::term::decode_usize_arg(r)?;
        Ok(TestHeap { heap_need, live })
    }

    pub(crate) fn encode_operands(&self, out: &mut Vec<u8>) -> (res: Result<(), EncodeError>)
        ensures
            res is Ok,
            final(out)@ == old(out)@ + self.enc(),
    {
        out.push(16);
        self.heap_need.encode(out)?;
        crate::term::encode_usize(0, self.live, out);
        proof {
            assert(out@ =~= old(out)@ + self.enc());
        }
        Ok(())
    }
}

#[derive(Debug, PartialEq)]
pub struct Init {
    pub arg1: Term,
}

impl Opcode for Init {
    const CODE: u8 = 17;
}

impl Init {
    /// The operand views of this instruction, in wire order.
    pub open spec fn args(&self) -> Seq<TermV> {
        seq![
            self.arg1@,
        ]
    }

    /// The canonical byte string of this instruction.
    pub open spec fn enc(&self) -> Seq<u8> {
        seq![17u8] + wire::enc_termv(self.arg1@)
    }

    pub(crate) fn decode_operands(r: &mut Reader<'_>) -> (res: Result<Init, DecodeError>)
        ensures
            match res {
                Ok(v) => chain1(ArgKind::Any, old(r).remaining()) matches Ok((args, n)) && args == v.args()
                    && n <= old(r).remaining().len() && final(r).remaining() == old(r).remaining().skip(n as int),
                Err(e) => chain1(ArgKind::Any, old(r).remaining()) matches Err(se) && se == e@,
            },
    {
        let arg1 = crate::term::decode_term_arg(r)?;
        Ok(Init { arg1 })
    }

    pub(crate) fn encode_operands(&self, out: &mut Vec<u8>) -> (res: Result<(), EncodeError>)
        ensures
            res is Ok,
            final(out)@ == old(out)@ + self.enc(),
    {
        out.push(17);
        self.arg1.encode(out)?;
        proof {
            assert(out@ =~= old(out)@ + self.enc());
        }
        Ok(())
    }
}

#[derive(Debug, PartialEq)]
pub struct Deallocate {
    pub n: usize,
}

impl Opcode for Deallocate {
    const CODE: u8 = 18;
}

impl Deallocate {
    /// The operand views of this instruction, in wire order.
    pub open spec fn args(&self) -> Seq<TermV> {
        seq![
            TermV::Usize(self.n as int),
        ]
    }

    /// The canonical byte string of this instruction.
    pub open spec fn enc(&self) -> Seq<u8> {
        seq![18u8] + wire::enc_termv(TermV::Usize(self.n as int))
    }

    pub(crate) fn decode_operands(r: &mut Reader<'_>) -> (res: Result<Deallocate, DecodeError>)
        ensures
            match res {
                Ok(v) => chain1(ArgKind::U, old(r).remaining()) matches Ok((args, n)) && args == v.args()
                    && n <= old(r).remaining().len() && final(r).remaining() == old(r).remaining().skip(n as int),
                Err(e) => chain1(ArgKind::U, old(r).remaining()) matches Err(se) && se == e@,
            },
    {
        let n = crate::term::decode_usize_arg(r)?;
        Ok(Deallocate { n })
    }

    pub(crate) fn encode_operands(&self, out: &mut Vec<u8>) -> (res: Result<(), EncodeError>)
        ensures
            res is Ok,
            final(out)@ == old(out)@ + self.enc(),
    {
        out.push(18);
        crate::term::encode_usize(0, self.n, out);
        proof {
            assert(out@ =~= old(out)@ + self.enc());
        }
        Ok(())
    }
}

#[derive(Debug, PartialEq)]
pub struct Return {}

impl Opcode for Return {
    const CODE: u8 = 19;
}

impl Return {
    /// The operand views of this instruction, in wire order.
    pub open spec fn args(&self) -> Seq<TermV> {
        Seq::empty()
    }

    /// The canonical byte string of this instruction.
    pub open spec fn enc(&self) -> Seq<u8> {
        seq![19u8]
    }

    pub(crate) fn decode_operands(r: &mut Reader<'_>) -> (res: Result<Return, DecodeError>)
        ensures
            match res {
                Ok(v) => chain0(old(r).remaining()) matches Ok((args, n)) && args == v.args()
                    && n <= old(r).remaining().len() && final(r).remaining() == old(r).remaining().skip(n as int),
                Err(e) => chain0(old(r).remaining()) matches Err(se) && se == e@,
            },
    {
        proof {
            assert(old(r).remaining().skip(0) =~= old(r).remaining());
        }
        Ok(Return {  })
    }

    pub(crate) fn encode_operands(&self, out: &mut Vec<u8>) -> (res: Result<(), EncodeError>)
        ensures
            res is Ok,
            final(out)@ == old(out)@ + self.enc(),
    {
        out.push(19);
        proof {
            assert(out@ =~= old(out)@ + self.enc());
        }
        Ok(())
    }
}

#[derive(Debug, PartialEq)]
pub struct Send {}

impl Opcode for Send {
    const CODE: u8 = 20;
}

impl Send {
    /// The operand views of this instruction, in wire order.
    pub open spec fn args(&self) -> Seq<TermV> {
        Seq::empty()
    }

    /// The canonical byte string of this instruction.
    pub open spec fn enc(&self) -> Seq<u8> {
        seq![20u8]
    }

    pub(crate) fn decode_operands(r: &mut Reader<'_>) -> (res: Result<Send, DecodeError>)
        ensures
            match res {
                Ok(v) => chain0(old(r).remaining()) matches Ok((args, n)) && args == v.args()
                    && n <= old(r).remaining().len() && final(r).remaining() == old(r).remaining().skip(n as int),
                Err(e) => chain0(old(r).remaining()) matches Err(se) && se == e@,
            },
    {
        proof {
            assert(old(r).remaining().skip(0) =~= old(r).remaining());
        }
        Ok(Send {  })
    }

    pub(crate) fn encode_operands(&self, out: &mut Vec<u8>) -> (res: Result<(), EncodeError>)
        ensures
            res is Ok,
            final(out)@ == old(out)@ + self.enc(),
    {
        out.push(20);
        proof {
            assert(out@ =~= old(out)@ + self.enc());
        }
        Ok(())
    }
}

#[derive(Debug, PartialEq)]
pub struct RemoveMessage {}

impl Opcode for RemoveMessage {
    const CODE: u8 = 21;
}

impl RemoveMessage {
    /// The operand views of this instruction, in wire order.
    pub open spec fn args(&self) -> Seq<TermV> {
        Seq::empty()
    }

    /// The canonical byte string of this instruction.
    pub open spec fn enc(&self) -> Seq<u8> {
        seq![21u8]
    }

    pub(crate) fn decode_operands(r: &mut Reader<'_>) -> (res: Result<RemoveMessage, DecodeError>)
        ensures
            match res {
                Ok(v) => chain0(old(r).remaining()) matches Ok((args, n)) && args == v.args()
                    && n <= old(r).remaining().len() && final(r).remaining() == old(r).remaining().skip(n as int),
                Err(e) => chain0(old(r).remaining()) matches Err(se) && se == e@,
            },
    {
        proof {
            assert(old(r).remaining().skip(0) =~= old(r).remaining());
        }
        Ok(RemoveMessage {  })
    }

    pub(crate) fn encode_operands(&self, out: &mut Vec<u8>) -> (res: Result<(), EncodeError>)
        ensures
            res is Ok,
            final(out)@ == old(out)@ + self.enc(),
    {
        out.push(21);
        proof {
            assert(out@ =~= old(out)@ + self.enc());
        }
        Ok(())
    }
}

#[derive(Debug, PartialEq)]
pub struct Timeout {}

impl Opcode for Timeout {
    const CODE: u8 = 22;
}

impl Timeout {
    /// The operand views of this instruction, in wire order.
    pub open spec fn args(&self) -> Seq<TermV> {
        Seq::empty()
    }

    /// The canonical byte string of this instruction.
    pub open spec fn enc(&self) -> Seq<u8> {
        seq![22u8]
    }

    pub(crate) fn decode_operands(r: &mut Reader<'_>) -> (res: Result<Timeout, DecodeError>)
        ensures
            match res {
                Ok(v) => chain0(old(r).remaining()) matches Ok((args, n)) && args == v.args()
                    && n <= old(r).remaining().len() && final(r).remaining() == old(r).remaining().skip(n as int),
                Err(e) => chain0(old(r).remaining()) matches Err(se) && se == e@,
            },
    {
        proof {
            assert(old(r).remaining().skip(0) =~= old(r).remaining());
        }
        Ok(Timeout {  })
    }

    pub(crate) fn encode_operands(&self, out: &mut Vec<u8>) -> (res: Result<(), EncodeError>)
        ensures
            res is Ok,
            final(out)@ == old(out)@ + self.enc(),
    {
        out.push(22);
        proof {
            assert(out@ =~= old(out)@ + self.enc());
        }
        Ok(())
    }
}

#[derive(Debug, PartialEq)]
pub struct LoopRec {
    pub arg1: Term,
    pub arg2: Term,
}

impl Opcode for LoopRec {
    const CODE: u8 = 23;
}

impl LoopRec {
    /// The operand views of this instruction, in wire order.
    pub open spec fn args(&self) -> Seq<TermV> {
        seq![
            self.arg1@,
            self.arg2@,
        ]
    }

    /// The canonical byte string of this instruction.
    pub open spec fn enc(&self) -> Seq<u8> {
        seq![23u8] + wire::enc_termv(self.arg1@) + wire::enc_termv(self.arg2@)
    }

    pub(crate) fn decode_operands(r: &mut Reader<'_>) -> (res: Result<LoopRec, DecodeError>)
        ensures
            match res {
                Ok(v) => chain2(ArgKind::Any, ArgKind::Any, old(r).remaining()) matches Ok((args, n)) && args == v.args()
                    && n <= old(r).remaining().len() && final(r).remaining() == old(r).remaining().skip(n as int),
                Err(e) => chain2(ArgKind::Any, ArgKind::Any, old(r).remaining()) matches Err(se) && se == e@,
            },
    {
        let arg1 = crate::term::decode_term_arg(r)?;
        let arg2 = crate::term::decode_term_arg(r)?;
        Ok(LoopRec { arg1, arg2 })
    }

    pub(crate) fn encode_operands(&self, out: &mut Vec<u8>) -> (res: Result<(), EncodeError>)
        ensures
            res is Ok,
            final(out)@ == old(out)@ + self.enc(),
    {
        out.push(23);
        self.arg1.encode(out)?;
        self.arg2.encode(out)?;
        proof {
            assert(out@ =~= old(out)@ + self.enc());
        }
        Ok(())
    }
}

#[derive(Debug, PartialEq)]
pub struct LoopRecEnd {
    pub arg1: Term,
}

impl Opcode for LoopRecEnd {
    const CODE: u8 = 24;
}

impl LoopRecEnd {
    /// The operand views of this instruction, in wire order.
    pub open spec fn args(&self) -> Seq<TermV> {
        seq![
            self.arg1@,
        ]
    }

    /// The canonical byte string of this instruction.
    pub open spec fn enc(&self) -> Seq<u8> {
        seq![24u8] + wire::enc_termv(self.arg1@)
    }

    pub(crate) fn decode_operands(r: &mut Reader<'_>) -> (res: Result<LoopRecEnd, DecodeError>)
        ensures
            match res {
                Ok(v) => chain1(ArgKind::Any, old(r).remaining()) matches Ok((args, n)) && args == v.args()
                    && n <= old(r).remaining().len() && final(r).remaining() == old(r).remaining().skip(n as int),
                Err(e) => chain1(ArgKind::Any, old(r).remaining()) matches Err(se) && se == e@,
            },
    {
        let arg1 = crate::term::decode_term_arg(r)?;
        Ok(LoopRecEnd { arg1 })
    }

    pub(crate) fn encode_operands(&self, out: &mut Vec<u8>) -> (res: Result<(), EncodeError>)
        ensures
            res is Ok,
            final(out)@ == old(out)@ + self.enc(),
    {
        out.push(24);
        self.arg1.encode(out)?;
        proof {
            assert(out@ =~= old(out)@ + self.enc());
        }
        Ok(())
    }
}

#[derive(Debug, PartialEq)]
pub struct Wait {
    pub arg1: Term,
}

impl Opcode for Wait {
    const CODE: u8 = 25;
}

impl Wait {
    /// The operand views of this instruction, in wire order.
    pub open spec fn args(&self) -> Seq<TermV> {
        seq![
            self.arg1@,
        ]
    }

    /// The canonical byte string of this instruction.
    pub open spec fn enc(&self) -> Seq<u8> {
        seq![25u8] + wire::enc_termv(self.arg1@)
    }

    pub(crate) fn decode_operands(r: &mut Reader<'_>) -> (res: Result<Wait, DecodeError>)
        ensures
            match res {
                Ok(v) => chain1(ArgKind::Any, old(r).remaining()) matches Ok((args, n)) && args == v.args()
                    && n <= old(r).remaining().len() && final(r).remaining() == old(r).remaining().skip(n as int),
                Err(e) => chain1(ArgKind::Any, old(r).remaining()) matches Err(se) && se == e@,
            },
    {
        let arg1 = crate::term::decode_term_arg(r)?;
        Ok(Wait { arg1 })
    }

    pub(crate) fn encode_operands(&self, out: &mut Vec<u8>) -> (res: Result<(), EncodeError>)
        ensures
            res is Ok,
            final(out)@ == old(out)@ + self.enc(),
    {
        out.push(25);
        self.arg1.encode(out)?;
        proof {
            assert(out@ =~= old(out)@ + self.enc());
        }
        Ok(())
    }
}

#[derive(Debug, PartialEq)]
pub struct WaitTimeout {
    pub arg1: Term,
    pub arg2: Term,
}

impl Opcode for WaitTimeout {
    const CODE: u8 = 26;
}

impl WaitTimeout {
    /// The operand views of this instruction, in wire order.
    pub open spec fn args(&self) -> Seq<TermV> {
        seq![
            self.arg1@,
            self.arg2@,
        ]
    }

    /// The canonical byte string of this instruction.
    pub open spec fn enc(&self) -> Seq<u8> {
        seq![26u8] + wire::enc_termv(self.arg1@) + wire::enc_termv(self.arg2@)
    }

    pub(crate) fn decode_operands(r: &mut Reader<'_>) -> (res: Result<WaitTimeout, DecodeError>)
        ensures
            match res {
                Ok(v) => chain2(ArgKind::Any, ArgKind::Any, old(r).remaining()) matches Ok((args, n)) && args == v.args()
                    && n <= old(r).remaining().len() && final(r).remaining() == old(r).remaining().skip(n as int),
                Err(e) => chain2(ArgKind::Any, ArgKind::Any, old(r).remaining()) matches Err(se) && se == e@,
            },
    {
        let arg1 = crate::term::decode_term_arg(r)?;
        let arg2 = crate::term::decode_term_arg(r)?;
        Ok(WaitTimeout { arg1, arg2 })
    }

    pub(crate) fn encode_operands(&self, out: &mut Vec<u8>) -> (res: Result<(), EncodeError>)
        ensures
            res is Ok,
            final(out)@ == old(out)@ + self.enc(),
    {
        out.push(26);
        self.arg1.encode(out)?;
        self.arg2.encode(out)?;
        proof {
            assert(out@ =~= old(out)@ + self.enc());
        }
        Ok(())
    }
}

/// Deprecated.
#[derive(Debug, PartialEq)]
pub struct MPlus {
    pub arg1: Term,
    pub arg2: Term,
    pub arg3: Term,
    pub arg4: Term,
}

impl Opcode for MPlus {
    const CODE: u8 = 27;
}

impl MPlus {
    /// The operand views of this instruction, in wire order.
    pub open spec fn args(&self) -> Seq<TermV> {
        seq![
            self.arg1@,
            self.arg2@,
            self.arg3@,
            self.arg4@,
        ]
    }

    /// The canonical byte string of this instruction.
    pub open spec fn enc(&self) -> Seq<u8> {
        seq![27u8] + wire::enc_termv(self.arg1@) + wire::enc_termv(self.arg2@) + wire::enc_termv(self.arg3@) + wire::enc_termv(self.arg4@)
    }

    pub(crate) fn decode_operands(r: &mut Reader<'_>) -> (res: Result<MPlus, DecodeError>)
        ensures
            match res {
                Ok(v) => chain4(ArgKind::Any, ArgKind::Any, ArgKind::Any, ArgKind::Any, old(r).remaining()) matches Ok((args, n)) && args == v.args()
                    && n <= old(r).remaining().len() && final(r).remaining() == old(r).remaining().skip(n as int),
                Err(e) => chain4(ArgKind::Any, ArgKind::Any, ArgKind::Any, ArgKind::Any, old(r).remaining()) matches Err(se) && se == e@,
            },
    {
        let arg1 = crate::term::decode_term_arg(r)?;
        let arg2 = crate::term::decode_term_arg(r)?;
        let arg3 = crate::term::decode_term_arg(r)?;
        let arg4 = crate::term::decode_term_arg(r)?;
        Ok(MPlus { arg1, arg2, arg3, arg4 })
    }

    pub(crate) fn encode_operands(&self, out: &mut Vec<u8>) -> (res: Result<(), EncodeError>)
        ensures
            res is Ok,
            final(out)@ == old(out)@ + self.enc(),
    {
        out.push(27);
        self.arg1.encode(out)?;
        self.arg2.encode(out)?;
        self.arg3.encode(out)?;
        self.arg4.encode(out)?;
        proof {
            assert(out@ =~= old(out)@ + self.enc());
        }
        Ok(())
    }
}

/// Deprecated.
#[derive(Debug, PartialEq)]
pub struct MMinus {
    pub arg1: Term,
    pub arg2: Term,
    pub arg3: Term,
    pub arg4: Term,
}

impl Opcode for MMinus {
    const CODE: u8 = 28;
}

impl MMinus {
    /// The operand views of this instruction, in wire order.
    pub open spec fn args(&self) -> Seq<TermV> {
        seq![
            self.arg1@,
            self.arg2@,
            self.arg3@,
            self.arg4@,
        ]
    }

    /// The canonical byte string of this instruction.
    pub open spec fn enc(&self) -> Seq<u8> {
        seq![28u8] + wire::enc_termv(self.arg1@) + wire::enc_termv(self.arg2@) + wire::enc_termv(self.arg3@) + wire::enc_termv(self.arg4@)
    }

    pub(crate) fn decode_operands(r: &mut Reader<'_>) -> (res: Result<MMinus, DecodeError>)
        ensures
            match res {
                Ok(v) => chain4(ArgKind::Any, ArgKind::Any, ArgKind::Any, ArgKind::Any, old(r).remaining()) matches Ok((args, n)) && args == v.args()
                    && n <= old(r).remaining().len() && final(r).remaining() == old(r).remaining().skip(n as int),
                Err(e) => chain4(ArgKind::Any, ArgKind::Any, ArgKind::Any, ArgKind::Any, old(r).remaining()) matches Err(se) && se == e@,
            },
    {
        let arg1 = crate::term::decode_term_arg(r)?;
        let arg2 = crate::term::decode_term_arg(r)?;
        let arg3 = crate::term::decode_term_arg(r)?;
        let arg4 = crate::term::decode_term_arg(r)?;
        Ok(MMinus { arg1, arg2, arg3, arg4 })
    }

    pub(crate) fn encode_operands(&self, out: &mut Vec<u8>) -> (res: Result<(), EncodeError>)
        ensures
            res is Ok,
            final(out)@ == old(out)@ + self.enc(),
    {
        out.push(28);
        self.arg1.encode(out)?;
        self.arg2.encode(out)?;
        self.arg3.encode(out)?;
        self.arg4.encode(out)?;
        proof {
            assert(out@ =~= old(out)@ + self.enc());
        }
        Ok(())
    }
}

/// Deprecated.
#[derive(Debug, PartialEq)]
pub struct MTimes {
    pub arg1: Term,
    pub arg2: Term,
    pub arg3: Term,
    pub arg4: Term,
}

impl Opcode for MTimes {
    const CODE: u8 = 29;
}

impl MTimes {
    /// The operand views of this instruction, in wire order.
    pub open spec fn args(&self) -> Seq<TermV> {
        seq![
            self.arg1@,
            self.arg2@,
            self.arg3@,
            self.arg4@,
        ]
    }

    /// The canonical byte string of this instruction.
    pub open spec fn enc(&self) -> Seq<u8> {
        seq![29u8] + wire::enc_termv(self.arg1@) + wire::enc_termv(self.arg2@) + wire::enc_termv(self.arg3@) + wire::enc_termv(self.arg4@)
    }

    pub(crate) fn decode_operands(r: &mut Reader<'_>) -> (res: Result<MTimes, DecodeError>)
        ensures
            match res {
                Ok(v) => chain4(ArgKind::Any, ArgKind::Any, ArgKind::Any, ArgKind::Any, old(r).remaining()) matches Ok((args, n)) && args == v.args()
                    && n <= old(r).remaining().len() && final(r).remaining() == old(r).remaining().skip(n as int),
                Err(e) => chain4(ArgKind::Any, ArgKind::Any, ArgKind::Any, ArgKind::Any, old(r).remaining()) matches Err(se) && se == e@,
            },
    {
        let arg1 = crate::term::decode_term_arg(r)?;
        let arg2 = crate::term::decode_term_arg(r)?;
        let arg3 = crate::term::decode_term_arg(r)?;
        let arg4 = crate::term::decode_term_arg(r)?;
        Ok(MTimes { arg1, arg2, arg3, arg4 })
    }

    pub(crate) fn encode_operands(&self, out: &mut Vec<u8>) -> (res: Result<(), EncodeError>)
        ensures
            res is Ok,
            final(out)@ == old(out)@ + self.enc(),
    {
        out.push(29);
        self.arg1.encode(out)?;
        self.arg2.encode(out)?;
        self.arg3.encode(out)?;
        self.arg4.encode(out)?;
        proof {
            assert(out@ =~= old(out)@ + self.enc());
        }
        Ok(())
    }
}

/// Deprecated.
#[derive(Debug, PartialEq)]
pub struct MDiv {
    pub arg1: Term,
    pub arg2: Term,
    pub arg3: Term,
    pub arg4: Term,
}

impl Opcode for MDiv {
    const CODE: u8 = 30;
}

impl MDiv {
    /// The operand views of this instruction, in wire order.
    pub open spec fn args(&self) -> Seq<TermV> {
        seq![
            self.arg1@,
            self.arg2@,
            self.arg3@,
            self.arg4@,
        ]
    }

    /// The canonical byte string of this instruction.
    pub open spec fn enc(&self) -> Seq<u8> {
        seq![30u8] + wire::enc_termv(self.arg1@) + wire::enc_termv(self.arg2@) + wire::enc_termv(self.arg3@) + wire::enc_termv(self.arg4@)
    }

    pub(crate) fn decode_operands(r: &mut Reader<'_>) -> (res: Result<MDiv, DecodeError>)
        ensures
            match res {
                Ok(v) => chain4(ArgKind::Any, ArgKind::Any, ArgKind::Any, ArgKind::Any, old(r).remaining()) matches Ok((args, n)) && args == v.args()
                    && n <= old(r).remaining().len() && final(r).remaining() == old(r).remaining().skip(n as int),
                Err(e) => chain4(ArgKind::Any, ArgKind::Any, ArgKind::Any, ArgKind::Any, old(r).remaining()) matches Err(se) && se == e@,
            },
    {
        let arg1 = crate::term::decode_term_arg(r)?;
        let arg2 = crate::term::decode_term_arg(r)?;
        let arg3 = crate::term::decode_term_arg(r)?;
        let arg4 = crate::term::decode_term_arg(r)?;
        Ok(MDiv { arg1, arg2, arg3, arg4 })
    }

    pub(crate) fn encode_operands(&self, out: &mut Vec<u8>) -> (res: Result<(), EncodeError>)
        ensures
            res is Ok,
            final(out)@ == old(out)@ + self.enc(),
    {
        out.push(30);
        self.arg1.encode(out)?;
        self.arg2.encode(out)?;
        self.arg3.encode(out)?;
        self.arg4.encode(out)?;
        proof {
            assert(out@ =~= old(out)@ + self.enc());
        }
        Ok(())
    }
}

/// Deprecated.
#[derive(Debug, PartialEq)]
pub struct IntDiv {
    pub arg1: Term,
    pub arg2: Term,
    pub arg3: Term,
    pub arg4: Term,
}

impl Opcode for IntDiv {
    const CODE: u8 = 31;
}

impl IntDiv {
    /// The operand views of this instruction, in wire order.
    pub open spec fn args(&self) -> Seq<TermV> {
        seq![
            self.arg1@,
            self.arg2@,
            self.arg3@,
            self.arg4@,
        ]
    }

    /// The canonical byte string of this instruction.
    pub open spec fn enc(&self) -> Seq<u8> {
        seq![31u8] + wire::enc_termv(self.arg1@) + wire::enc_termv(self.arg2@) + wire::enc_termv(self.arg3@) + wire::enc_termv(self.arg4@)
    }

    pub(crate) fn decode_operands(r: &mut Reader<'_>) -> (res: Result<IntDiv, DecodeError>)
        ensures
            match res {
                Ok(v) => chain4(ArgKind::Any, ArgKind::Any, ArgKind::Any, ArgKind::Any, old(r).remaining()) matches Ok((args, n)) && args == v.args()
                    && n <= old(r).remaining().len() && final(r).remaining() == old(r).remaining().skip(n as int),
                Err(e) => chain4(ArgKind::Any, ArgKind::Any, ArgKind::Any, ArgKind::Any, old(r).remaining()) matches Err(se) && se == e@,
            },
    {
        let arg1 = crate::term::decode_term_arg(r)?;
        let arg2 = crate::term::decode_term_arg(r)?;
        let arg3 = crate::term::decode_term_arg(r)?;
        let arg4 = crate::term::decode_term_arg(r)?;
        Ok(IntDiv { arg1, arg2, arg3, arg4 })
    }

    pub(crate) fn encode_operands(&self, out: &mut Vec<u8>) -> (res: Result<(), EncodeError>)
        ensures
            res is Ok,
            final(out)@ == old(out)@ + self.enc(),
    {
        out.push(31);
        self.arg1.encode(out)?;
        self.arg2.encode(out)?;
        self.arg3.encode(out)?;
        self.arg4.encode(out)?;
        proof {
            assert(out@ =~= old(out)@ + self.enc());
        }
        Ok(())
    }
}

/// Deprecated.
#[derive(Debug, PartialEq)]
pub struct IntRem {
    pub arg1: Term,
    pub arg2: Term,
    pub arg3: Term,
    pub arg4: Term,
}

impl Opcode for IntRem {
    const CODE: u8 = 32;
}

impl IntRem {
    /// The operand views of this instruction, in wire order.
    pub open spec fn args(&self) -> Seq<TermV> {
        seq![
            self.arg1@,
            self.arg2@,
            self.arg3@,
            self.arg4@,
        ]
    }

    /// The canonical byte string of this instruction.
    pub open spec fn enc(&self) -> Seq<u8> {
        seq![32u8] + wire::enc_termv(self.arg1@) + wire::enc_termv(self.arg2@) + wire::enc_termv(self.arg3@) + wire::enc_termv(self.arg4@)
    }

    pub(crate) fn decode_operands(r: &mut Reader<'_>) -> (res: Result<IntRem, DecodeError>)
        ensures
            match res {
                Ok(v) => chain4(ArgKind::Any, ArgKind::Any, ArgKind::Any, ArgKind::Any, old(r).remaining()) matches Ok((args, n)) && args == v.args()
                    && n <= old(r).remaining().len() && final(r).remaining() == old(r).remaining().skip(n as int),
                Err(e) => chain4(ArgKind::Any, ArgKind::Any, ArgKind::Any, ArgKind::Any, old(r).remaining()) matches Err(se) && se == e@,
            },
    {
        let arg1 = crate::term::decode_term_arg(r)?;
        let arg2 = crate::term::decode_term_arg(r)?;
        let arg3 = crate::term::decode_term_arg(r)?;
        let arg4 = crate::term::decode_term_arg(r)?;
        Ok(IntRem { arg1, arg2, arg3, arg4 })
    }

    pub(crate) fn encode_operands(&self, out: &mut Vec<u8>) -> (res: Result<(), EncodeError>)
        ensures
            res is Ok,
            final(out)@ == old(out)@ + self.enc(),
    {
        out.push(32);
        self.arg1.encode(out)?;
        self.arg2.encode(out)?;
        self.arg3.encode(out)?;
        self.arg4.encode(out)?;
        proof {
            assert(out@ =~= old(out)@ + self.enc());
        }
        Ok(())
    }
}

/// Deprecated.
#[derive(Debug, PartialEq)]
pub struct IntBand {
    pub arg1: Term,
    pub arg2: Term,
    pub arg3: Term,
    pub arg4: Term,
}

impl Opcode for IntBand {
    const CODE: u8 = 33;
}

impl IntBand {
    /// The operand views of this instruction, in wire order.
    pub open spec fn args(&self) -> Seq<TermV> {
        seq![
            self.arg1@,
            self.arg2@,
            self.arg3@,
            self.arg4@,
        ]
    }

    /// The canonical byte string of this instruction.
    pub open spec fn enc(&self) -> Seq<u8> {
        seq![33u8] + wire::enc_termv(self.arg1@) + wire::enc_termv(self.arg2@) + wire::enc_termv(self.arg3@) + wire::enc_termv(self.arg4@)
    }

    pub(crate) fn decode_operands(r: &mut Reader<'_>) -> (res: Result<IntBand, DecodeError>)
        ensures
            match res {
                Ok(v) => chain4(ArgKind::Any, ArgKind::Any, ArgKind::Any, ArgKind::Any, old(r).remaining()) matches Ok((args, n)) && args == v.args()
                    && n <= old(r).remaining().len() && final(r).remaining() == old(r).remaining().skip(n as int),
                Err(e) => chain4(ArgKind::Any, ArgKind::Any, ArgKind::Any, ArgKind::Any, old(r).remaining()) matches Err(se) && se == e@,
            },
    {
        let arg1 = crate::term::decode_term_arg(r)?;
        let arg2 = crate::term::decode_term_arg(r)?;
        let arg3 = crate::term::decode_term_arg(r)?;
        let arg4 = crate::term::decode_term_arg(r)?;
        Ok(IntBand { arg1, arg2, arg3, arg4 })
    }

    pub(crate) fn encode_operands(&self, out: &mut Vec<u8>) -> (res: Result<(), EncodeError>)
        ensures
            res is Ok,
            final(out)@ == old(out)@ + self.enc(),
    {
        out.push(33);
        self.arg1.encode(out)?;
        self.arg2.encode(out)?;
        self.arg3.encode(out)?;
        self.arg4.encode(out)?;
        proof {
            assert(out@ =~= old(out)@ + self.enc());
        }
        Ok(())
    }
}

/// Deprecated.
#[derive(Debug, PartialEq)]
pub struct IntBor {
    pub arg1: Term,
    pub arg2: Term,
    pub arg3: Term,
    pub arg4: Term,
}

impl Opcode for IntBor {
    const CODE: u8 = 34;
}

impl IntBor {
    /// The operand views of this instruction, in wire order.
    pub open spec fn args(&self) -> Seq<TermV> {
        seq![
            self.arg1@,
            self.arg2@,
            self.arg3@,
            self.arg4@,
        ]
    }

    /// The canonical byte string of this instruction.
    pub open spec fn enc(&self) -> Seq<u8> {
        seq![34u8] + wire::enc_termv(self.arg1@) + wire::enc_termv(self.arg2@) + wire::enc_termv(self.arg3@) + wire::enc_termv(self.arg4@)
    }

    pub(crate) fn decode_operands(r: &mut Reader<'_>) -> (res: Result<IntBor, DecodeError>)
        ensures
            match res {
                Ok(v) => chain4(ArgKind::Any, ArgKind::Any, ArgKind::Any, ArgKind::Any, old(r).remaining()) matches Ok((args, n)) && args == v.args()
                    && n <= old(r).remaining().len() && final(r).remaining() == old(r).remaining().skip(n as int),
                Err(e) => chain4(ArgKind::Any, ArgKind::Any, ArgKind::Any, ArgKind::Any, old(r).remaining()) matches Err(se) && se == e@,
            },
    {
        let arg1 = crate::term::decode_term_arg(r)?;
        let arg2 = crate::term::decode_term_arg(r)?;
        let arg3 = crate::term::decode_term_arg(r)?;
        let arg4 = crate::term::decode_term_arg(r)?;
        Ok(IntBor { arg1, arg2, arg3, arg4 })
    }

    pub(crate) fn encode_operands(&self, out: &mut Vec<u8>) -> (res: Result<(), EncodeError>)
        ensures
            res is Ok,
            final(out)@ == old(out)@ + self.enc(),
    {
        out.push(34);
        self.arg1.encode(out)?;
        self.arg2.encode(out)?;
        self.arg3.encode(out)?;
        self.arg4.encode(out)?;
        proof {
            assert(out@ =~= old(out)@ + self.enc());
        }
        Ok(())
    }
}

/// Deprecated.
#[derive(Debug, PartialEq)]
pub struct IntBxor {
    pub arg1: Term,
    pub arg2: Term,
    pub arg3: Term,
    pub arg4: Term,
}

impl Opcode for IntBxor {
    const CODE: u8 = 35;
}

impl IntBxor {
    /// The operand views of this instruction, in wire order.
    pub open spec fn args(&self) -> Seq<TermV> {
        seq![
            self.arg1@,
            self.arg2@,
            self.arg3@,
            self.arg4@,
        ]
    }

    /// The canonical byte string of this instruction.
    pub open spec fn enc(&self) -> Seq<u8> {
        seq![35u8] + wire::enc_termv(self.arg1@) + wire::enc_termv(self.arg2@) + wire::enc_termv(self.arg3@) + wire::enc_termv(self.arg4@)
    }

    pub(crate) fn decode_operands(r: &mut Reader<'_>) -> (res: Result<IntBxor, DecodeError>)
        ensures
            match res {
                Ok(v) => chain4(ArgKind::Any, ArgKind::Any, ArgKind::Any, ArgKind::Any, old(r).remaining()) matches Ok((args, n)) && args == v.args()
                    && n <= old(r).remaining().len() && final(r).remaining() == old(r).remaining().skip(n as int),
                Err(e) => chain4(ArgKind::Any, ArgKind::Any, ArgKind::Any, ArgKind::Any, old(r).remaining()) matches Err(se) && se == e@,
            },
    {
        let arg1 = crate::term::decode_term_arg(r)?;
        let arg2 = crate::term::decode_term_arg(r)?;
        let arg3 = crate::term::decode_term_arg(r)?;
        let arg4 = crate::term::decode_term_arg(r)?;
        Ok(IntBxor { arg1, arg2, arg3, arg4 })
    }

    pub(crate) fn encode_operands(&self, out: &mut Vec<u8>) -> (res: Result<(), EncodeError>)
        ensures
            res is Ok,
            final(out)@ == old(out)@ + self.enc(),
    {
        out.push(35);
        self.arg1.encode(out)?;
        self.arg2.encode(out)?;
        self.arg3.encode(out)?;
        self.arg4.encode(out)?;
        proof {
            assert(out@ =~= old(out)@ + self.enc());
        }
        Ok(())
    }
}

/// Deprecated.
#[derive(Debug, PartialEq)]
pub struct IntBsl {
    pub arg1: Term,
    pub arg2: Term,
    pub arg3: Term,
    pub arg4: Term,
}

impl Opcode for IntBsl {
    const CODE: u8 = 36;
}

impl IntBsl {
    /// The operand views of this instruction, in wire order.
    pub open spec fn args(&self) -> Seq<TermV> {
        seq![
            self.arg1@,
            self.arg2@,
            self.arg3@,
            self.arg4@,
        ]
    }

    /// The canonical byte string of this instruction.
    pub open spec fn enc(&self) -> Seq<u8> {
        seq![36u8] + wire::enc_termv(self.arg1@) + wire::enc_termv(self.arg2@) + wire::enc_termv(self.arg3@) + wire::enc_termv(self.arg4@)
    }

    pub(crate) fn decode_operands(r: &mut Reader<'_>) -> (res: Result<IntBsl, DecodeError>)
        ensures
            match res {
                Ok(v) => chain4(ArgKind::Any, ArgKind::Any, ArgKind::Any, ArgKind::Any, old(r).remaining()) matches Ok((args, n)) && args == v.args()
                    && n <= old(r).remaining().len() && final(r).remaining() == old(r).remaining().skip(n as int),
                Err(e) => chain4(ArgKind::Any, ArgKind::Any, ArgKind::Any, ArgKind::Any, old(r).remaining()) matches Err(se) && se == e@,
            },
    {
        let arg1 = crate::term::decode_term_arg(r)?;
        let arg2 = crate::term::decode_term_arg(r)?;
        let arg3 = crate::term::decode_term_arg(r)?;
        let arg4 = crate::term::decode_term_arg(r)?;
        Ok(IntBsl { arg1, arg2, arg3, arg4 })
    }

    pub(crate) fn encode_operands(&self, out: &mut Vec<u8>) -> (res: Result<(), EncodeError>)
        ensures
            res is Ok,
            final(out)@ == old(out)@ + self.enc(),
    {
        out.push(36);
        self.arg1.encode(out)?;
        self.arg2.encode(out)?;
        self.arg3.encode(out)?;
        self.arg4.encode(out)?;
        proof {
            assert(out@ =~= old(out)@ + self.enc());
        }
        Ok(())
    }
}

/// Deprecated.
#[derive(Debug, PartialEq)]
pub struct IntBsr {
    pub arg1: Term,
    pub arg2: Term,
    pub arg3: Term,
    pub arg4: Term,
}

impl Opcode for IntBsr {
    const CODE: u8 = 37;
}

impl IntBsr {
    /// The operand views of this instruction, in wire order.
    pub open spec fn args(&self) -> Seq<TermV> {
        seq![
            self.arg1@,
            self.arg2@,
            self.arg3@,
            self.arg4@,
        ]
    }

    /// The canonical byte string of this instruction.
    pub open spec fn enc(&self) -> Seq<u8> {
        seq![37u8] + wire::enc_termv(self.arg1@) + wire::enc_termv(self.arg2@) + wire::enc_termv(self.arg3@) + wire::enc_termv(self.arg4@)
    }

    pub(crate) fn decode_operands(r: &mut Reader<'_>) -> (res: Result<IntBsr, DecodeError>)
        ensures
            match res {
                Ok(v) => chain4(ArgKind::Any, ArgKind::Any, ArgKind::Any, ArgKind::Any, old(r).remaining()) matches Ok((args, n)) && args == v.args()
                    && n <= old(r).remaining().len() && final(r).remaining() == old(r).remaining().skip(n as int),
                Err(e) => chain4(ArgKind::Any, ArgKind::Any, ArgKind::Any, ArgKind::Any, old(r).remaining()) matches Err(se) && se == e@,
            },
    {
        let arg1 = crate::term::decode_term_arg(r)?;
        let arg2 = crate::term::decode_term_arg(r)?;
        let arg3 = crate::term::decode_term_arg(r)?;
        let arg4 = crate::term::decode_term_arg(r)?;
        Ok(IntBsr { arg1, arg2, arg3, arg4 })
    }

    pub(crate) fn encode_operands(&self, out: &mut Vec<u8>) -> (res: Result<(), EncodeError>)
        ensures
            res is Ok,
            final(out)@ == old(out)@ + self.enc(),
    {
        out.push(37);
        self.arg1.encode(out)?;
        self.arg2.encode(out)?;
        self.arg3.encode(out)?;
        self.arg4.encode(out)?;
        proof {
            assert(out@ =~= old(out)@ + self.enc());
        }
        Ok(())
    }
}

/// Deprecated.
#[derive(Debug, PartialEq)]
pub struct IntBnot {
    pub arg1: Term,
    pub arg2: Term,
    pub arg3: Term,
}

impl Opcode for IntBnot {
    const CODE: u8 = 38;
}

impl IntBnot {
    /// The operand views of this instruction, in wire order.
    pub open spec fn args(&self) -> Seq<TermV> {
        seq![
            self.arg1@,
            self.arg2@,
            self.arg3@,
        ]
    }

    /// The canonical byte string of this instruction.
    pub open spec fn enc(&self) -> Seq<u8> {
        seq![38u8] + wire::enc_termv(self.arg1@) + wire::enc_termv(self.arg2@) + wire::enc_termv(self.arg3@)
    }

    pub(crate) fn decode_operands(r: &mut Reader<'_>) -> (res: Result<IntBnot, DecodeError>)
        ensures
            match res {
                Ok(v) => chain3(ArgKind::Any, ArgKind::Any, ArgKind::Any, old(r).remaining()) matches Ok((args, n)) && args == v.args()
                    && n <= old(r).remaining().len() && final(r).remaining() == old(r).remaining().skip(n as int),
                Err(e) => chain3(ArgKind::Any, ArgKind::Any, ArgKind::Any, old(r).remaining()) matches Err(se) && se == e@,
            },
    {
        let arg1 = crate::term::decode_term_arg(r)?;
        let arg2 = crate::term::decode_term_arg(r)?;
        let arg3 = crate::term::decode_term_arg(r)?;
        Ok(IntBnot { arg1, arg2, arg3 })
    }

    pub(crate) fn encode_operands(&self, out: &mut Vec<u8>) -> (res: Result<(), EncodeError>)
        ensures
            res is Ok,
            final(out)@ == old(out)@ + self.enc(),
    {
        out.push(38);
        self.arg1.encode(out)?;
        self.arg2.encode(out)?;
        self.arg3.encode(out)?;
        proof {
            assert(out@ =~= old(out)@ + self.enc());
        }
        Ok(())
    }
}

#[derive(Debug, PartialEq)]
pub struct IsLt {
    pub arg1: Term,
    pub arg2: Term,
    pub arg3: Term,
}

impl Opcode for IsLt {
    const CODE: u8 = 39;
}

impl IsLt {
    /// The operand views of this instruction, in wire order.
    pub open spec fn args(&self) -> Seq<TermV> {
        seq![
            self.arg1@,
            self.arg2@,
            self.arg3@,
        ]
    }

    /// The canonical byte string of this instruction.
    pub open spec fn enc(&self) -> Seq<u8> {
        seq![39u8] + wire::enc_termv(self.arg1@) + wire::enc_termv(self.arg2@) + wire::enc_termv(self.arg3@)
    }

    pub(crate) fn decode_operands(r: &mut Reader<'_>) -> (res: Result<IsLt, DecodeError>)
        ensures
            match res {
                Ok(v) => chain3(ArgKind::Any, ArgKind::Any, ArgKind::Any, old(r).remaining()) matches Ok((args, n)) && args == v.args()
                    && n <= old(r).remaining().len() && final(r).remaining() == old(r).remaining().skip(n as int),
                Err(e) => chain3(ArgKind::Any, ArgKind::Any, ArgKind::Any, old(r).remaining()) matches Err(se) && se == e@,
            },
    {
        let arg1 = crate::term::decode_term_arg(r)?;
        let arg2 = crate::term::decode_term_arg(r)?;
        let arg3 = crate::term::decode_term_arg(r)?;
        Ok(IsLt { arg1, arg2, arg3 })
    }

    pub(crate) fn encode_operands(&self, out: &mut Vec<u8>) -> (res: Result<(), EncodeError>)
        ensures
            res is Ok,
            final(out)@ == old(out)@ + self.enc(),
    {
        out.push(39);
        self.arg1.encode(out)?;
        self.arg2.encode(out)?;
        self.arg3.encode(out)?;
        proof {
            assert(out@ =~= old(out)@ + self.enc());
        }
        Ok(())
    }
}

#[derive(Debug, PartialEq)]
pub struct IsGe {
    pub arg1: Term,
    pub arg2: Term,
    pub arg3: Term,
}

impl Opcode for IsGe {
    const CODE: u8 = 40;
}

impl IsGe {
    /// The operand views of this instruction, in wire order.
    pub open spec fn args(&self) -> Seq<TermV> {
        seq![
            self.arg1@,
            self.arg2@,
            self.arg3@,
        ]
    }

    /// The canonical byte string of this instruction.
    pub open spec fn enc(&self) -> Seq<u8> {
        seq![40u8] + wire::enc_termv(self.arg1@) + wire::enc_termv(self.arg2@) + wire::enc_termv(self.arg3@)
    }

    pub(crate) fn decode_operands(r: &mut Reader<'_>) -> (res: Result<IsGe, DecodeError>)
        ensures
            match res {
                Ok(v) => chain3(ArgKind::Any, ArgKind::Any, ArgKind::Any, old(r).remaining()) matches Ok((args, n)) && args == v.args()
                    && n <= old(r).remaining().len() && final(r).remaining() == old(r).remaining().skip(n as int),
                Err(e) => chain3(ArgKind::Any, ArgKind::Any, ArgKind::Any, old(r).remaining()) matches Err(se) && se == e@,
            },
    {
        let arg1 = crate::term::decode_term_arg(r)?;
        let arg2 = crate::term::decode_term_arg(r)?;
        let arg3 = crate::term::decode_term_arg(r)?;
        Ok(IsGe { arg1, arg2, arg3 })
    }

    pub(crate) fn encode_operands(&self, out: &mut Vec<u8>) -> (res: Result<(), EncodeError>)
        ensures
            res is Ok,
            final(out)@ == old(out)@ + self.enc(),
    {
        out.push(40);
        self.arg1.encode(out)?;
        self.arg2.encode(out)?;
        self.arg3.encode(out)?;
        proof {
            assert(out@ =~= old(out)@ + self.enc());
        }
        Ok(())
    }
}

#[derive(Debug, PartialEq)]
pub struct IsEq {
    pub arg1: Term,
    pub arg2: Term,
    pub arg3: Term,
}

impl Opcode for IsEq {
    const CODE: u8 = 41;
}

impl IsEq {
    /// The operand views of this instruction, in wire order.
    pub open spec fn args(&self) -> Seq<TermV> {
        seq![
            self.arg1@,
            self.arg2@,
            self.arg3@,
        ]
    }

    /// The canonical byte string of this instruction.
    pub open spec fn enc(&self) -> Seq<u8> {
        seq![41u8] + wire::enc_termv(self.arg1@) + wire::enc_termv(self.arg2@) + wire::enc_termv(self.arg3@)
    }

    pub(crate) fn decode_operands(r: &mut Reader<'_>) -> (res: Result<IsEq, DecodeError>)
        ensures
            match res {
                Ok(v) => chain3(ArgKind::Any, ArgKind::Any, ArgKind::Any, old(r).remaining()) matches Ok((args, n)) && args == v.args()
                    && n <= old(r).remaining().len() && final(r).remaining() == old(r).remaining().skip(n as int),
                Err(e) => chain3(ArgKind::Any, ArgKind::Any, ArgKind::Any, old(r).remaining()) matches Err(se) && se == e@,
            },
    {
        let arg1 = crate::term::decode_term_arg(r)?;
        let arg2 = crate::term::decode_term_arg(r)?;
        let arg3 = crate::term::decode_term_arg(r)?;
        Ok(IsEq { arg1, arg2, arg3 })
    }

    pub(crate) fn encode_operands(&self, out: &mut Vec<u8>) -> (res: Result<(), EncodeError>)
        ensures
            res is Ok,
            final(out)@ == old(out)@ + self.enc(),
    {
        out.push(41);
        self.arg1.encode(out)?;
        self.arg2.encode(out)?;
        self.arg3.encode(out)?;
        proof {
            assert(out@ =~= old(out)@ + self.enc());
        }
        Ok(())
    }
}

#[derive(Debug, PartialEq)]
pub struct IsNe {
    pub arg1: Term,
    pub arg2: Term,
    pub arg3: Term,
}

impl Opcode for IsNe {
    const CODE: u8 = 42;
}

impl IsNe {
    /// The operand views of this instruction, in wire order.
    pub open spec fn args(&self) -> Seq<TermV> {
        seq![
            self.arg1@,
            self.arg2@,
            self.arg3@,
        ]
    }

    /// The canonical byte string of this instruction.
    pub open spec fn enc(&self) -> Seq<u8> {
        seq![42u8] + wire::enc_termv(self.arg1@) + wire::enc_termv(self.arg2@) + wire::enc_termv(self.arg3@)
    }

    pub(crate) fn decode_operands(r: &mut Reader<'_>) -> (res: Result<IsNe, DecodeError>)
        ensures
            match res {
                Ok(v) => chain3(ArgKind::Any, ArgKind::Any, ArgKind::Any, old(r).remaining()) matches Ok((args, n)) && args == v.args()
                    && n <= old(r).remaining().len() && final(r).remaining() == old(r).remaining().skip(n as int),
                Err(e) => chain3(ArgKind::Any, ArgKind::Any, ArgKind::Any, old(r).remaining()) matches Err(se) && se == e@,
            },
    {
        let arg1 = crate::term::decode_term_arg(r)?;
        let arg2 = crate::term::decode_term_arg(r)?;
        let arg3 = crate::term::decode_term_arg(r)?;
        Ok(IsNe { arg1, arg2, arg3 })
    }

    pub(crate) fn encode_operands(&self, out: &mut Vec<u8>) -> (res: Result<(), EncodeError>)
        ensures
            res is Ok,
            final(out)@ == old(out)@ + self.enc(),
    {
        out.push(42);
        self.arg1.encode(out)?;
        self.arg2.encode(out)?;
        self.arg3.encode(out)?;
        proof {
            assert(out@ =~= old(out)@ + self.enc());
        }
        Ok(())
    }
}

#[derive(Debug, PartialEq)]
pub struct IsEqExact {
    pub label: crate::term::Label,
    pub arg1: Term,
    pub arg2: Term,
}

impl Opcode for IsEqExact {
    const CODE: u8 = 43;
}

impl IsEqExact {
    /// The operand views of this instruction, in wire order.
    pub open spec fn args(&self) -> Seq<TermV> {
        seq![
            TermV::Label(self.label.value as int),
            self.arg1@,
            self.arg2@,
        ]
    }

    /// The canonical byte string of this instruction.
    pub open spec fn enc(&self) -> Seq<u8> {
        seq![43u8] + wire::enc_termv(TermV::Label(self.label.value as int)) + wire::enc_termv(self.arg1@) + wire::enc_termv(self.arg2@)
    }

    pub(crate) fn decode_operands(r: &mut Reader<'_>) -> (res: Result<IsEqExact, DecodeError>)
        ensures
            match res {
                Ok(v) => chain3(ArgKind::Lbl, ArgKind::Any, ArgKind::Any, old(r).remaining()) matches Ok((args, n)) && args == v.args()
                    && n <= old(r).remaining().len() && final(r).remaining() == old(r).remaining().skip(n as int),
                Err(e) => chain3(ArgKind::Lbl, ArgKind::Any, ArgKind::Any, old(r).remaining()) matches Err(se) && se == e@,
            },
    {
        let label = crate::term::Label::decode(r)?;
        let arg1 = crate::term::decode_term_arg(r)?;
        let arg2 = crate::term::decode_term_arg(r)?;
        Ok(IsEqExact { label, arg1, arg2 })
    }

    pub(crate) fn encode_operands(&self, out: &mut Vec<u8>) -> (res: Result<(), EncodeError>)
        ensures
            res is Ok,
            final(out)@ == old(out)@ + self.enc(),
    {
        out.push(43);
        self.label.encode(out)?;
        self.arg1.encode(out)?;
        self.arg2.encode(out)?;
        proof {
            assert(out@ =~= old(out)@ + self.enc());
        }
        Ok(())
    }
}

#[derive(Debug, PartialEq)]
pub struct IsNeExact {
    pub label: crate::term::Label,
    pub arg1: Term,
    pub arg2: Term,
}

impl Opcode for IsNeExact {
    const CODE: u8 = 44;
}

impl IsNeExact {
    /// The operand views of this instruction, in wire order.
    pub open spec fn args(&self) -> Seq<TermV> {
        seq![
            TermV::Label(self.label.value as int),
            self.arg1@,
            self.arg2@,
        ]
    }

    /// The canonical byte string of this instruction.
    pub open spec fn enc(&self) -> Seq<u8> {
        seq![44u8] + wire::enc_termv(TermV::Label(self.label.value as int)) + wire::enc_termv(self.arg1@) + wire::enc_termv(self.arg2@)
    }

    pub(crate) fn decode_operands(r: &mut Reader<'_>) -> (res: Result<IsNeExact, DecodeError>)
        ensures
            match res {
                Ok(v) => chain3(ArgKind::Lbl, ArgKind::Any, ArgKind::Any, old(r).remaining()) matches Ok((args, n)) && args == v.args()
                    && n <= old(r).remaining().len() && final(r).remaining() == old(r).remaining().skip(n as int),
                Err(e) => chain3(ArgKind::Lbl, ArgKind::Any, ArgKind::Any, old(r).remaining()) matches Err(se) && se == e@,
            },
    {
        let label = crate::term::Label::decode(r)?;
        let arg1 = crate::term::decode_term_arg(r)?;
        let arg2 = crate::term::decode_term_arg(r)?;
        Ok(IsNeExact { label, arg1, arg2 })
    }

    pub(crate) fn encode_operands(&self, out: &mut Vec<u8>) -> (res: Result<(), EncodeError>)
        ensures
            res is Ok,
            final(out)@ == old(out)@ + self.enc(),
    {
        out.push(44);
        self.label.encode(out)?;
        self.arg1.encode(out)?;
        self.arg2.encode(out)?;
        proof {
            assert(out@ =~= old(out)@ + self.enc());
        }
        Ok(())
    }
}

#[derive(Debug, PartialEq)]
pub struct IsInteger {
    pub label: crate::term::Label,
    pub arg1: Term,
}

impl Opcode for IsInteger {
    const CODE: u8 = 45;
}

impl IsInteger {
    /// The operand views of this instruction, in wire order.
    pub open spec fn args(&self) -> Seq<TermV> {
        seq![
            TermV::Label(self.label.value as int),
            self.arg1@,
        ]
    }

    /// The canonical byte string of this instruction.
    pub open spec fn enc(&self) -> Seq<u8> {
        seq![45u8] + wire::enc_termv(TermV::Label(self.label.value as int)) + wire::enc_termv(self.arg1@)
    }

    pub(crate) fn decode_operands(r: &mut Reader<'_>) -> (res: Result<IsInteger, DecodeError>)
        ensures
            match res {
                Ok(v) => chain2(ArgKind::Lbl, ArgKind::Any, old(r).remaining()) matches Ok((args, n)) && args == v.args()
                    && n <= old(r).remaining().len() && final(r).remaining() == old(r).remaining().skip(n as int),
                Err(e) => chain2(ArgKind::Lbl, ArgKind::Any, old(r).remaining()) matches Err(se) && se == e@,
            },
    {
        let label = crate::term::Label::decode(r)?;
        let arg1 = crate::term::decode_term_arg(r)?;
        Ok(IsInteger { label, arg1 })
    }

    pub(crate) fn encode_operands(&self, out: &mut Vec<u8>) -> (res: Result<(), EncodeError>)
        ensures
            res is Ok,
            final(out)@ == old(out)@ + self.enc(),
    {
        out.push(45);
        self.label.encode(out)?;
        self.arg1.encode(out)?;
        proof {
            assert(out@ =~= old(out)@ + self.enc());
        }
        Ok(())
    }
}

#[derive(Debug, PartialEq)]
pub struct IsFloat {
    pub label: crate::term::Label,
    pub arg1: Term,
}

impl Opcode for IsFloat {
    const CODE: u8 = 46;
}

impl IsFloat {
    /// The operand views of this instruction, in wire order.
    pub open spec fn args(&self) -> Seq<TermV> {
        seq![
            TermV::Label(self.label.value as int),
            self.arg1@,
        ]
    }

    /// The canonical byte string of this instruction.
    pub open spec fn enc(&self) -> Seq<u8> {
        seq![46u8] + wire::enc_termv(TermV::Label(self.label.value as int)) + wire::enc_termv(self.arg1@)
    }

    pub(crate) fn decode_operands(r: &mut Reader<'_>) -> (res: Result<IsFloat, DecodeError>)
        ensures
            match res {
                Ok(v) => chain2(ArgKind::Lbl, ArgKind::Any, old(r).remaining()) matches Ok((args, n)) && args == v.args()
                    && n <= old(r).remaining().len() && final(r).remaining() == old(r).remaining().skip(n as int),
                Err(e) => chain2(ArgKind::Lbl, ArgKind::Any, old(r).remaining()) matches Err(se) && se == e@,
            },
    {
        let label = crate::term::Label::decode(r)?;
        let arg1 = crate::term::decode_term_arg(r)?;
        Ok(IsFloat { label, arg1 })
    }

    pub(crate) fn encode_operands(&self, out: &mut Vec<u8>) -> (res: Result<(), EncodeError>)
        ensures
            res is Ok,
            final(out)@ == old(out)@ + self.enc(),
    {
        out.push(46);
        self.label.encode(out)?;
        self.arg1.encode(out)?;
        proof {
            assert(out@ =~= old(out)@ + self.enc());
        }
        Ok(())
    }
}

#[derive(Debug, PartialEq)]
pub struct IsNumber {
    pub label: crate::term::Label,
    pub arg1: Term,
}

impl Opcode for IsNumber {
    const CODE: u8 = 47;
}

impl IsNumber {
    /// The operand views of this instruction, in wire order.
    pub open spec fn args(&self) -> Seq<TermV> {
        seq![
            TermV::Label(self.label.value as int),
            self.arg1@,
        ]
    }

    /// The canonical byte string of this instruction.
    pub open spec fn enc(&self) -> Seq<u8> {
        seq![47u8] + wire::enc_termv(TermV::Label(self.label.value as int)) + wire::enc_termv(self.arg1@)
    }

    pub(crate) fn decode_operands(r: &mut Reader<'_>) -> (res: Result<IsNumber, DecodeError>)
        ensures
            match res {
                Ok(v) => chain2(ArgKind::Lbl, ArgKind::Any, old(r).remaining()) matches Ok((args, n)) && args == v.args()
                    && n <= old(r).remaining().len() && final(r).remaining() == old(r).remaining().skip(n as int),
                Err(e) => chain2(ArgKind::Lbl, ArgKind::Any, old(r).remaining()) matches Err(se) && se == e@,
            },
    {
        let label = crate::term::Label::decode(r)?;
        let arg1 = crate::term::decode_term_arg(r)?;
        Ok(IsNumber { label, arg1 })
    }

    pub(crate) fn encode_operands(&self, out: &mut Vec<u8>) -> (res: Result<(), EncodeError>)
        ensures
            res is Ok,
            final(out)@ == old(out)@ + self.enc(),
    {
        out.push(47);
        self.label.encode(out)?;
        self.arg1.encode(out)?;
        proof {
            assert(out@ =~= old(out)@ + self.enc());
        }
        Ok(())
    }
}

#[derive(Debug, PartialEq)]
pub struct IsAtom {
    pub label: crate::term::Label,
    pub arg1: Term,
}

impl Opcode for IsAtom {
    const CODE: u8 = 48;
}

impl IsAtom {
    /// The operand views of this instruction, in wire order.
    pub open spec fn args(&self) -> Seq<TermV> {
        seq![
            TermV::Label(self.label.value as int),
            self.arg1@,
        ]
    }

    /// The canonical byte string of this instruction.
    pub open spec fn enc(&self) -> Seq<u8> {
        seq![48u8] + wire::enc_termv(TermV::Label(self.label.value as int)) + wire::enc_termv(self.arg1@)
    }

    pub(crate) fn decode_operands(r: &mut Reader<'_>) -> (res: Result<IsAtom, DecodeError>)
        ensures
            match res {
                Ok(v) => chain2(ArgKind::Lbl, ArgKind::Any, old(r).remaining()) matches Ok((args, n)) && args == v.args()
                    && n <= old(r).remaining().len() && final(r).remaining() == old(r).remaining().skip(n as int),
                Err(e) => chain2(ArgKind::Lbl, ArgKind::Any, old(r).remaining()) matches Err(se) && se == e@,
            },
    {
        let label = crate::term::Label::decode(r)?;
        let arg1 = crate::term::decode_term_arg(r)?;
        Ok(IsAtom { label, arg1 })
    }

    pub(crate) fn encode_operands(&self, out: &mut Vec<u8>) -> (res: Result<(), EncodeError>)
        ensures
            res is Ok,
            final(out)@ == old(out)@ + self.enc(),
    {
        out.push(48);
        self.label.encode(out)?;
        self.arg1.encode(out)?;
        proof {
            assert(out@ =~= old(out)@ + self.enc());
        }
        Ok(())
    }
}

#[derive(Debug, PartialEq)]
pub struct IsPid {
    pub label: crate::term::Label,
    pub arg1: Term,
}

impl Opcode for IsPid {
    const CODE: u8 = 49;
}

impl IsPid {
    /// The operand views of this instruction, in wire order.
    pub open spec fn args(&self) -> Seq<TermV> {
        seq![
            TermV::Label(self.label.value as int),
            self.arg1@,
        ]
    }

    /// The canonical byte string of this instruction.
    pub open spec fn enc(&self) -> Seq<u8> {
        seq![49u8] + wire::enc_termv(TermV::Label(self.label.value as int)) + wire::enc_termv(self.arg1@)
    }

    pub(crate) fn decode_operands(r: &mut Reader<'_>) -> (res: Result<IsPid, DecodeError>)
        ensures
            match res {
                Ok(v) => chain2(ArgKind::Lbl, ArgKind::Any, old(r).remaining()) matches Ok((args, n)) && args == v.args()
                    && n <= old(r).remaining().len() && final(r).remaining() == old(r).remaining().skip(n as int),
                Err(e) => chain2(ArgKind::Lbl, ArgKind::Any, old(r).remaining()) matches Err(se) && se == e@,
            },
    {
        let label = crate::term::Label::decode(r)?;
        let arg1 = crate::term::decode_term_arg(r)?;
        Ok(IsPid { label, arg1 })
    }

    pub(crate) fn encode_operands(&self, out: &mut Vec<u8>) -> (res: Result<(), EncodeError>)
        ensures
            res is Ok,
            final(out)@ == old(out)@ + self.enc(),
    {
        out.push(49);
        self.label.encode(out)?;
        self.arg1.encode(out)?;
        proof {
            assert(out@ =~= old(out)@ + self.enc());
        }
        Ok(())
    }
}

#[derive(Debug, PartialEq)]
pub struct IsReference {
    pub label: crate::term::Label,
    pub arg1: Term,
}

impl Opcode for IsReference {
    const CODE: u8 = 50;
}

impl IsReference {
    /// The operand views of this instruction, in wire order.
    pub open spec fn args(&self) -> Seq<TermV> {
        seq![
            TermV::Label(self.label.value as int),
            self.arg1@,
        ]
    }

    /// The canonical byte string of this instruction.
    pub open spec fn enc(&self) -> Seq<u8> {
        seq![50u8] + wire::enc_termv(TermV::Label(self.label.value as int)) + wire::enc_termv(self.arg1@)
    }

    pub(crate) fn decode_operands(r: &mut Reader<'_>) -> (res: Result<IsReference, DecodeError>)
        ensures
            match res {
                Ok(v) => chain2(ArgKind::Lbl, ArgKind::Any, old(r).remaining()) matches Ok((args, n)) && args == v.args()
                    && n <= old(r).remaining().len() && final(r).remaining() == old(r).remaining().skip(n as int),
                Err(e) => chain2(ArgKind::Lbl, ArgKind::Any, old(r).remaining()) matches Err(se) && se == e@,
            },
    {
        let label = crate::term::Label::decode(r)?;
        let arg1 = crate::term::decode_term_arg(r)?;
        Ok(IsReference { label, arg1 })
    }

    pub(crate) fn encode_operands(&self, out: &mut Vec<u8>) -> (res: Result<(), EncodeError>)
        ensures
            res is Ok,
            final(out)@ == old(out)@ + self.enc(),
    {
        out.push(50);
        self.label.encode(out)?;
        self.arg1.encode(out)?;
        proof {
            assert(out@ =~= old(out)@ + self.enc());
        }
        Ok(())
    }
}

#[derive(Debug, PartialEq)]
pub struct IsPort {
    pub label: crate::term::Label,
    pub arg1: Term,
}

impl Opcode for IsPort {
    const CODE: u8 = 51;
}

impl IsPort {
    /// The operand views of this instruction, in wire order.
    pub open spec fn args(&self) -> Seq<TermV> {
        seq![
            TermV::Label(self.label.value as int),
            self.arg1@,
        ]
    }

    /// The canonical byte string of this instruction.
    pub open spec fn enc(&self) -> Seq<u8> {
        seq![51u8] + wire::enc_termv(TermV::Label(self.label.value as int)) + wire::enc_termv(self.arg1@)
    }

    pub(crate) fn decode_operands(r: &mut Reader<'_>) -> (res: Result<IsPort, DecodeError>)
        ensures
            match res {
                Ok(v) => chain2(ArgKind::Lbl, ArgKind::Any, old(r).remaining()) matches Ok((args, n)) && args == v.args()
                    && n <= old(r).remaining().len() && final(r).remaining() == old(r).remaining().skip(n as int),
                Err(e) => chain2(ArgKind::Lbl, ArgKind::Any, old(r).remaining()) matches Err(se) && se == e@,
            },
    {
        let label = crate::term::Label::decode(r)?;
        let arg1 = crate::term::decode_term_arg(r)?;
        Ok(IsPort { label, arg1 })
    }

    pub(crate) fn encode_operands(&self, out: &mut Vec<u8>) -> (res: Result<(), EncodeError>)
        ensures
            res is Ok,
            final(out)@ == old(out)@ + self.enc(),
    {
        out.push(51);
        self.label.encode(out)?;
        self.arg1.encode(out)?;
        proof {
            assert(out@ =~= old(out)@ + self.enc());
        }
        Ok(())
    }
}

#[derive(Debug, PartialEq)]
pub struct IsNil {
    pub label: crate::term::Label,
    pub arg1: Term,
}

impl Opcode for IsNil {
    const CODE: u8 = 52;
}

impl IsNil {
    /// The operand views of this instruction, in wire order.
    pub open spec fn args(&self) -> Seq<TermV> {
        seq![
            TermV::Label(self.label.value as int),
            self.arg1@,
        ]
    }

    /// The canonical byte string of this instruction.
    pub open spec fn enc(&self) -> Seq<u8> {
        seq![52u8] + wire::enc_termv(TermV::Label(self.label.value as int)) + wire::enc_termv(self.arg1@)
    }

    pub(crate) fn decode_operands(r: &mut Reader<'_>) -> (res: Result<IsNil, DecodeError>)
        ensures
            match res {
                Ok(v) => chain2(ArgKind::Lbl, ArgKind::Any, old(r).remaining()) matches Ok((args, n)) && args == v.args()
                    && n <= old(r).remaining().len() && final(r).remaining() == old(r).remaining().skip(n as int),
                Err(e) => chain2(ArgKind::Lbl, ArgKind::Any, old(r).remaining()) matches Err(se) && se == e@,
            },
    {
        let label = crate::term::Label::decode(r)?;
        let arg1 = crate::term::decode_term_arg(r)?;
        Ok(IsNil { label, arg1 })
    }

    pub(crate) fn encode_operands(&self, out: &mut Vec<u8>) -> (res: Result<(), EncodeError>)
        ensures
            res is Ok,
            final(out)@ == old(out)@ + self.enc(),
    {
        out.push(52);
        self.label.encode(out)?;
        self.arg1.encode(out)?;
        proof {
            assert(out@ =~= old(out)@ + self.enc());
        }
        Ok(())
    }
}

#[derive(Debug, PartialEq)]
pub struct IsBinary {
    pub label: crate::term::Label,
    pub arg1: Term,
}

impl Opcode for IsBinary {
    const CODE: u8 = 53;
}

impl IsBinary {
    /// The operand views of this instruction, in wire order.
    pub open spec fn args(&self) -> Seq<TermV> {
        seq![
            TermV::Label(self.label.value as int),
            self.arg1@,
        ]
    }

    /// The canonical byte string of this instruction.
    pub open spec fn enc(&self) -> Seq<u8> {
        seq![53u8] + wire::enc_termv(TermV::Label(self.label.value as int)) + wire::enc_termv(self.arg1@)
    }

    pub(crate) fn decode_operands(r: &mut Reader<'_>) -> (res: Result<IsBinary, DecodeError>)
        ensures
            match res {
                Ok(v) => chain2(ArgKind::Lbl, ArgKind::Any, old(r).remaining()) matches Ok((args, n)) && args == v.args()
                    && n <= old(r).remaining().len() && final(r).remaining() == old(r).remaining().skip(n as int),
                Err(e) => chain2(ArgKind::Lbl, ArgKind::Any, old(r).remaining()) matches Err(se) && se == e@,
            },
    {
        let label = crate::term::Label::decode(r)?;
        let arg1 = crate::term::decode_term_arg(r)?;
        Ok(IsBinary { label, arg1 })
    }

    pub(crate) fn encode_operands(&self, out: &mut Vec<u8>) -> (res: Result<(), EncodeError>)
        ensures
            res is Ok,
            final(out)@ == old(out)@ + self.enc(),
    {
        out.push(53);
        self.label.encode(out)?;
        self.arg1.encode(out)?;
        proof {
            assert(out@ =~= old(out)@ + self.enc());
        }
        Ok(())
    }
}

/// Deprecated.
#[derive(Debug, PartialEq)]
pub struct IsConstant {
    pub label: crate::term::Label,
    pub arg1: Term,
}

impl Opcode for IsConstant {
    const CODE: u8 = 54;
}

impl IsConstant {
    /// The operand views of this instruction, in wire order.
    pub open spec fn args(&self) -> Seq<TermV> {
        seq![
            TermV::Label(self.label.value as int),
            self.arg1@,
        ]
    }

    /// The canonical byte string of this instruction.
    pub open spec fn enc(&self) -> Seq<u8> {
        seq![54u8] + wire::enc_termv(TermV::Label(self.label.value as int)) + wire::enc_termv(self.arg1@)
    }

    pub(crate) fn decode_operands(r: &mut Reader<'_>) -> (res: Result<IsConstant, DecodeError>)
        ensures
            match res {
                Ok(v) => chain2(ArgKind::Lbl, ArgKind::Any, old(r).remaining()) matches Ok((args, n)) && args == v.args()
                    && n <= old(r).remaining().len() && final(r).remaining() == old(r).remaining().skip(n as int),
                Err(e) => chain2(ArgKind::Lbl, ArgKind::Any, old(r).remaining()) matches Err(se) && se == e@,
            },
    {
        let label = crate::term::Label::decode(r)?;
        let arg1 = crate::term::decode_term_arg(r)?;
        Ok(IsConstant { label, arg1 })
    }

    pub(crate) fn encode_operands(&self, out: &mut Vec<u8>) -> (res: Result<(), EncodeError>)
        ensures
            res is Ok,
            final(out)@ == old(out)@ + self.enc(),
    {
        out.push(54);
        self.label.encode(out)?;
        self.arg1.encode(out)?;
        proof {
            assert(out@ =~= old(out)@ + self.enc());
        }
        Ok(())
    }
}

#[derive(Debug, PartialEq)]
pub struct IsList {
    pub label: crate::term::Label,
    pub arg1: Term,
}

impl Opcode for IsList {
    const CODE: u8 = 55;
}

impl IsList {
    /// The operand views of this instruction, in wire order.
    pub open spec fn args(&self) -> Seq<TermV> {
        seq![
            TermV::Label(self.label.value as int),
            self.arg1@,
        ]
    }

    /// The canonical byte string of this instruction.
    pub open spec fn enc(&self) -> Seq<u8> {
        seq![55u8] + wire::enc_termv(TermV::Label(self.label.value as int)) + wire::enc_termv(self.arg1@)
    }

    pub(crate) fn decode_operands(r: &mut Reader<'_>) -> (res: Result<IsList, DecodeError>)
        ensures
            match res {
                Ok(v) => chain2(ArgKind::Lbl, ArgKind::Any, old(r).remaining()) matches Ok((args, n)) && args == v.args()
                    && n <= old(r).remaining().len() && final(r).remaining() == old(r).remaining().skip(n as int),
                Err(e) => chain2(ArgKind::Lbl, ArgKind::Any, old(r).remaining()) matches Err(se) && se == e@,
            },
    {
        let label = crate::term::Label::decode(r)?;
        let arg1 = crate::term::decode_term_arg(r)?;
        Ok(IsList { label, arg1 })
    }

    pub(crate) fn encode_operands(&self, out: &mut Vec<u8>) -> (res: Result<(), EncodeError>)
        ensures
            res is Ok,
            final(out)@ == old(out)@ + self.enc(),
    {
        out.push(55);
        self.label.encode(out)?;
        self.arg1.encode(out)?;
        proof {
            assert(out@ =~= old(out)@ + self.enc());
        }
        Ok(())
    }
}

#[derive(Debug, PartialEq)]
pub struct IsNonemptyList {
    pub label: crate::term::Label,
    pub arg1: Term,
}

impl Opcode for IsNonemptyList {
    const CODE: u8 = 56;
}

impl IsNonemptyList {
    /// The operand views of this instruction, in wire order.
    pub open spec fn args(&self) -> Seq<TermV> {
        seq![
            TermV::Label(self.label.value as int),
            self.arg1@,
        ]
    }

    /// The canonical byte string of this instruction.
    pub open spec fn enc(&self) -> Seq<u8> {
        seq![56u8] + wire::enc_termv(TermV::Label(self.label.value as int)) + wire::enc_termv(self.arg1@)
    }

    pub(crate) fn decode_operands(r: &mut Reader<'_>) -> (res: Result<IsNonemptyList, DecodeError>)
        ensures
            match res {
                Ok(v) => chain2(ArgKind::Lbl, ArgKind::Any, old(r).remaining()) matches Ok((args, n)) && args == v.args()
                    && n <= old(r).remaining().len() && final(r).remaining() == old(r).remaining().skip(n as int),
                Err(e) => chain2(ArgKind::Lbl, ArgKind::Any, old(r).remaining()) matches Err(se) && se == e@,
            },
    {
        let label = crate::term::Label::decode(r)?;
        let arg1 = crate::term::decode_term_arg(r)?;
        Ok(IsNonemptyList { label, arg1 })
    }

    pub(crate) fn encode_operands(&self, out: &mut Vec<u8>) -> (res: Result<(), EncodeError>)
        ensures
            res is Ok,
            final(out)@ == old(out)@ + self.enc(),
    {
        out.push(56);
        self.label.encode(out)?;
        self.arg1.encode(out)?;
        proof {
            assert(out@ =~= old(out)@ + self.enc());
        }
        Ok(())
    }
}

#[derive(Debug, PartialEq)]
pub struct IsTuple {
    pub label: crate::term::Label,
    pub arg1: Term,
}

impl Opcode for IsTuple {
    const CODE: u8 = 57;
}

impl IsTuple {
    /// The operand views of this instruction, in wire order.
    pub open spec fn args(&self) -> Seq<TermV> {
        seq![
            TermV::Label(self.label.value as int),
            self.arg1@,
        ]
    }

    /// The canonical byte string of this instruction.
    pub open spec fn enc(&self) -> Seq<u8> {
        seq![57u8] + wire::enc_termv(TermV::Label(self.label.value as int)) + wire::enc_termv(self.arg1@)
    }

    pub(crate) fn decode_operands(r: &mut Reader<'_>) -> (res: Result<IsTuple, DecodeError>)
        ensures
            match res {
                Ok(v) => chain2(ArgKind::Lbl, ArgKind::Any, old(r).remaining()) matches Ok((args, n)) && args == v.args()
                    && n <= old(r).remaining().len() && final(r).remaining() == old(r).remaining().skip(n as int),
                Err(e) => chain2(ArgKind::Lbl, ArgKind::Any, old(r).remaining()) matches Err(se) && se == e@,
            },
    {
        let label = crate::term::Label::decode(r)?;
        let arg1 = crate::term::decode_term_arg(r)?;
        Ok(IsTuple { label, arg1 })
    }

    pub(crate) fn encode_operands(&self, out: &mut Vec<u8>) -> (res: Result<(), EncodeError>)
        ensures
            res is Ok,
            final(out)@ == old(out)@ + self.enc(),
    {
        out.push(57);
        self.label.encode(out)?;
        self.arg1.encode(out)?;
        proof {
            assert(out@ =~= old(out)@ + self.enc());
        }
        Ok(())
    }
}

#[derive(Debug, PartialEq)]
pub struct TestArity {
    pub label: crate::term::Label,
    pub arg1: Term,
    pub arity: usize,
}

impl Opcode for TestArity {
    const CODE: u8 = 58;
}

impl TestArity {
    /// The operand views of this instruction, in wire order.
    pub open spec fn args(&self) -> Seq<TermV> {
        seq![
            TermV::Label(self.label.value as int),
            self.arg1@,
            TermV::Usize(self.arity as int),
        ]
    }

    /// The canonical byte string of this instruction.
    pub open spec fn enc(&self) -> Seq<u8> {
        seq![58u8] + wire::enc_termv(TermV::Label(self.label.value as int)) + wire::enc_termv(self.arg1@) + wire::enc_termv(TermV::Usize(self.arity as int))
    }

    pub(crate) fn decode_operands(r: &mut Reader<'_>) -> (res: Result<TestArity, DecodeError>)
        ensures
            match res {
                Ok(v) => chain3(ArgKind::Lbl, ArgKind::Any, ArgKind::U, old(r).remaining()) matches Ok((args, n)) && args == v.args()
                    && n <= old(r).remaining().len() && final(r).remaining() == old(r).remaining().skip(n as int),
                Err(e) => chain3(ArgKind::Lbl, ArgKind::Any, ArgKind::U, old(r).remaining()) matches Err(se) && se == e@,
            },
    {
        let label = crate::term::Label::decode(r)?;
        let arg1 = crate::term::decode_term_arg(r)?;
        let arity = crate::term::decode_usize_arg(r)?;
        Ok(TestArity { label, arg1, arity })
    }

    pub(crate) fn encode_operands(&self, out: &mut Vec<u8>) -> (res: Result<(), EncodeError>)
        ensures
            res is Ok,
            final(out)@ == old(out)@ + self.enc(),
    {
        out.push(58);
        self.label.encode(out)?;
        self.arg1.encode(out)?;
        crate::term::encode_usize(0, self.arity, out);
        proof {
            assert(out@ =~= old(out)@ + self.enc());
        }
        Ok(())
    }
}

#[derive(Debug, PartialEq)]
pub struct SelectVal {
    pub arg: Term,
    pub fail_label: crate::term::Label,
    pub destinations: List,
}

impl Opcode for SelectVal {
    const CODE: u8 = 59;
}

impl SelectVal {
    /// The operand views of this instruction, in wire order.
    pub open spec fn args(&self) -> Seq<TermV> {
        seq![
            self.arg@,
            TermV::Label(self.fail_label.value as int),
            TermV::List(self.destinations@),
        ]
    }

    /// The canonical byte string of this instruction.
    pub open spec fn enc(&self) -> Seq<u8> {
        seq![59u8] + wire::enc_termv(self.arg@) + wire::enc_termv(TermV::Label(self.fail_label.value as int)) + wire::enc_termv(TermV::List(self.destinations@))
    }

    pub(crate) fn decode_operands(r: &mut Reader<'_>) -> (res: Result<SelectVal, DecodeError>)
        ensures
            match res {
                Ok(v) => chain3(ArgKind::Any, ArgKind::Lbl, ArgKind::Lst, old(r).remaining()) matches Ok((args, n)) && args == v.args()
                    && n <= old(r).remaining().len() && final(r).remaining() == old(r).remaining().skip(n as int),
                Err(e) => chain3(ArgKind::Any, ArgKind::Lbl, ArgKind::Lst, old(r).remaining()) matches Err(se) && se == e@,
            },
    {
        let arg = crate::term::decode_term_arg(r)?;
        let fail_label = crate::term::Label::decode(r)?;
        let destinations = crate::term::decode_list_arg(r)?;
        Ok(SelectVal { arg, fail_label, destinations })
    }

    pub(crate) fn encode_operands(&self, out: &mut Vec<u8>) -> (res: Result<(), EncodeError>)
        ensures
            res is Ok,
            final(out)@ == old(out)@ + self.enc(),
    {
        out.push(59);
        self.arg.encode(out)?;
        self.fail_label.encode(out)?;
        self.destinations.encode(out)?;
        proof {
            assert(out@ =~= old(out)@ + self.enc());
        }
        Ok(())
    }
}

#[derive(Debug, PartialEq)]
pub struct SelectTupleArity {
    pub arg1: Term,
    pub arg2: Term,
    pub arg3: Term,
}

impl Opcode for SelectTupleArity {
    const CODE: u8 = 60;
}

impl SelectTupleArity {
    /// The operand views of this instruction, in wire order.
    pub open spec fn args(&self) -> Seq<TermV> {
        seq![
            self.arg1@,
            self.arg2@,
            self.arg3@,
        ]
    }

    /// The canonical byte string of this instruction.
    pub open spec fn enc(&self) -> Seq<u8> {
        seq![60u8] + wire::enc_termv(self.arg1@) + wire::enc_termv(self.arg2@) + wire::enc_termv(self.arg3@)
    }

    pub(crate) fn decode_operands(r: &mut Reader<'_>) -> (res: Result<SelectTupleArity, DecodeError>)
        ensures
            match res {
                Ok(v) => chain3(ArgKind::Any, ArgKind::Any, ArgKind::Any, old(r).remaining()) matches Ok((args, n)) && args == v.args()
                    && n <= old(r).remaining().len() && final(r).remaining() == old(r).remaining().skip(n as int),
                Err(e) => chain3(ArgKind::Any, ArgKind::Any, ArgKind::Any, old(r).remaining()) matches Err(se) && se == e@,
            },
    {
        let arg1 = crate::term::decode_term_arg(r)?;
        let arg2 = crate::term::decode_term_arg(r)?;
        let arg3 = crate::term::decode_term_arg(r)?;
        Ok(SelectTupleArity { arg1, arg2, arg3 })
    }

    pub(crate) fn encode_operands(&self, out: &mut Vec<u8>) -> (res: Result<(), EncodeError>)
        ensures
            res is Ok,
            final(out)@ == old(out)@ + self.enc(),
    {
        out.push(60);
        self.arg1.encode(out)?;
        self.arg2.encode(out)?;
        self.arg3.encode(out)?;
        proof {
            assert(out@ =~= old(out)@ + self.enc());
        }
        Ok(())
    }
}

#[derive(Debug, PartialEq)]
pub struct Jump {
    pub label: crate::term::Label,
}

impl Opcode for Jump {
    const CODE: u8 = 61;
}

impl Jump {
    /// The operand views of this instruction, in wire order.
    pub open spec fn args(&self) -> Seq<TermV> {
        seq![
            TermV::Label(self.label.value as int),
        ]
    }

    /// The canonical byte string of this instruction.
    pub open spec fn enc(&self) -> Seq<u8> {
        seq![61u8] + wire::enc_termv(TermV::Label(self.label.value as int))
    }

    pub(crate) fn decode_operands(r: &mut Reader<'_>) -> (res: Result<Jump, DecodeError>)
        ensures
            match res {
                Ok(v) => chain1(ArgKind::Lbl, old(r).remaining()) matches Ok((args, n)) && args == v.args()
                    && n <= old(r).remaining().len() && final(r).remaining() == old(r).remaining().skip(n as int),
                Err(e) => chain1(ArgKind::Lbl, old(r).remaining()) matches Err(se) && se == e@,
            },
    {
        let label = crate::term::Label::decode(r)?;
        Ok(Jump { label })
    }

    pub(crate) fn encode_operands(&self, out: &mut Vec<u8>) -> (res: Result<(), EncodeError>)
        ensures
            res is Ok,
            final(out)@ == old(out)@ + self.enc(),
    {
        out.push(61);
        self.label.encode(out)?;
        proof {
            assert(out@ =~= old(out)@ + self.enc());
        }
        Ok(())
    }
}

#[derive(Debug, PartialEq)]
pub struct Catch {
    pub arg1: Term,
    pub arg2: Term,
}

impl Opcode for Catch {
    const CODE: u8 = 62;
}

impl Catch {
    /// The operand views of this instruction, in wire order.
    pub open spec fn args(&self) -> Seq<TermV> {
        seq![
            self.arg1@,
            self.arg2@,
        ]
    }

    /// The canonical byte string of this instruction.
    pub open spec fn enc(&self) -> Seq<u8> {
        seq![62u8] + wire::enc_termv(self.arg1@) + wire::enc_termv(self.arg2@)
    }

    pub(crate) fn decode_operands(r: &mut Reader<'_>) -> (res: Result<Catch, DecodeError>)
        ensures
            match res {
                Ok(v) => chain2(ArgKind::Any, ArgKind::Any, old(r).remaining()) matches Ok((args, n)) && args == v.args()
                    && n <= old(r).remaining().len() && final(r).remaining() == old(r).remaining().skip(n as int),
                Err(e) => chain2(ArgKind::Any, ArgKind::Any, old(r).remaining()) matches Err(se) && se == e@,
            },
    {
        let arg1 = crate::term::decode_term_arg(r)?;
        let arg2 = crate::term::decode_term_arg(r)?;
        Ok(Catch { arg1, arg2 })
    }

    pub(crate) fn encode_operands(&self, out: &mut Vec<u8>) -> (res: Result<(), EncodeError>)
        ensures
            res is Ok,
            final(out)@ == old(out)@ + self.enc(),
    {
        out.push(62);
        self.arg1.encode(out)?;
        self.arg2.encode(out)?;
        proof {
            assert(out@ =~= old(out)@ + self.enc());
        }
        Ok(())
    }
}

#[derive(Debug, PartialEq)]
pub struct CatchEnd {
    pub arg1: Term,
}

impl Opcode for CatchEnd {
    const CODE: u8 = 63;
}

impl CatchEnd {
    /// The operand views of this instruction, in wire order.
    pub open spec fn args(&self) -> Seq<TermV> {
        seq![
            self.arg1@,
        ]
    }

    /// The canonical byte string of this instruction.
    pub open spec fn enc(&self) -> Seq<u8> {
        seq![63u8] + wire::enc_termv(self.arg1@)
    }

    pub(crate) fn decode_operands(r: &mut Reader<'_>) -> (res: Result<CatchEnd, DecodeError>)
        ensures
            match res {
                Ok(v) => chain1(ArgKind::Any, old(r).remaining()) matches Ok((args, n)) && args == v.args()
                    && n <= old(r).remaining().len() && final(r).remaining() == old(r).remaining().skip(n as int),
                Err(e) => chain1(ArgKind::Any, old(r).remaining()) matches Err(se) && se == e@,
            },
    {
        let arg1 = crate::term::decode_term_arg(r)?;
        Ok(CatchEnd { arg1 })
    }

    pub(crate) fn encode_operands(&self, out: &mut Vec<u8>) -> (res: Result<(), EncodeError>)
        ensures
            res is Ok,
            final(out)@ == old(out)@ + self.enc(),
    {
        out.push(63);
        self.arg1.encode(out)?;
        proof {
            assert(out@ =~= old(out)@ + self.enc());
        }
        Ok(())
    }
}

#[derive(Debug, PartialEq)]
pub struct Move {
    pub src: Term,
    pub dst: Register,
}

impl Opcode for Move {
    const CODE: u8 = 64;
}

impl Move {
    /// The operand views of this instruction, in wire order.
    pub open spec fn args(&self) -> Seq<TermV> {
        seq![
            self.src@,
            self.dst@,
        ]
    }

    /// The canonical byte string of this instruction.
    pub open spec fn enc(&self) -> Seq<u8> {
        seq![64u8] + wire::enc_termv(self.src@) + wire::enc_termv(self.dst@)
    }

    pub(crate) fn decode_operands(r: &mut Reader<'_>) -> (res: Result<Move, DecodeError>)
        ensures
            match res {
                Ok(v) => chain2(ArgKind::Any, ArgKind::Reg, old(r).remaining()) matches Ok((args, n)) && args == v.args()
                    && n <= old(r).remaining().len() && final(r).remaining() == old(r).remaining().skip(n as int),
                Err(e) => chain2(ArgKind::Any, ArgKind::Reg, old(r).remaining()) matches Err(se) && se == e@,
            },
    {
        let src = crate::term::decode_term_arg(r)?;
        let dst = Register::decode(r)?;
        Ok(Move { src, dst })
    }

    pub(crate) fn encode_operands(&self, out: &mut Vec<u8>) -> (res: Result<(), EncodeError>)
        ensures
            res is Ok,
            final(out)@ == old(out)@ + self.enc(),
    {
        out.push(64);
        self.src.encode(out)?;
        self.dst.encode(out)?;
        proof {
            assert(out@ =~= old(out)@ + self.enc());
        }
        Ok(())
    }
}

#[derive(Debug, PartialEq)]
pub struct GetList {
    pub source: Term,
    pub head: Register,
    pub tail: Register,
}

impl Opcode for GetList {
    const CODE: u8 = 65;
}

impl GetList {
    /// The operand views of this instruction, in wire order.
    pub open spec fn args(&self) -> Seq<TermV> {
        seq![
            self.source@,
            self.head@,
            self.tail@,
        ]
    }

    /// The canonical byte string of this instruction.
    pub open spec fn enc(&self) -> Seq<u8> {
        seq![65u8] + wire::enc_termv(self.source@) + wire::enc_termv(self.head@) + wire::enc_termv(self.tail@)
    }

    pub(crate) fn decode_operands(r: &mut Reader<'_>) -> (res: Result<GetList, DecodeError>)
        ensures
            match res {
                Ok(v) => chain3(ArgKind::Any, ArgKind::Reg, ArgKind::Reg, old(r).remaining()) matches Ok((args, n)) && args == v.args()
                    && n <= old(r).remaining().len() && final(r).remaining() == old(r).remaining().skip(n as int),
                Err(e) => chain3(ArgKind::Any, ArgKind::Reg, ArgKind::Reg, old(r).remaining()) matches Err(se) && se == e@,
            },
    {
        let source = crate::term::decode_term_arg(r)?;
        let head = Register::decode(r)?;
        let tail = Register::decode(r)?;
        Ok(GetList { source, head, tail })
    }

    pub(crate) fn encode_operands(&self, out: &mut Vec<u8>) -> (res: Result<(), EncodeError>)
        ensures
            res is Ok,
            final(out)@ == old(out)@ + self.enc(),
    {
        out.push(65);
        self.source.encode(out)?;
        self.head.encode(out)?;
        self.tail.encode(out)?;
        proof {
            assert(out@ =~= old(out)@ + self.enc());
        }
        Ok(())
    }
}

#[derive(Debug, PartialEq)]
pub struct GetTupleElement {
    pub source: Register,
    pub element: usize,
    pub destination: Register,
}

impl Opcode for GetTupleElement {
    const CODE: u8 = 66;
}

impl GetTupleElement {
    /// The operand views of this instruction, in wire order.
    pub open spec fn args(&self) -> Seq<TermV> {
        seq![
            self.source@,
            TermV::Usize(self.element as int),
            self.destination@,
        ]
    }

    /// The canonical byte string of this instruction.
    pub open spec fn enc(&self) -> Seq<u8> {
        seq![66u8] + wire::enc_termv(self.source@) + wire::enc_termv(TermV::Usize(self.element as int)) + wire::enc_termv(self.destination@)
    }

    pub(crate) fn decode_operands(r: &mut Reader<'_>) -> (res: Result<GetTupleElement, DecodeError>)
        ensures
            match res {
                Ok(v) => chain3(ArgKind::Reg, ArgKind::U, ArgKind::Reg, old(r).remaining()) matches Ok((args, n)) && args == v.args()
                    && n <= old(r).remaining().len() && final(r).remaining() == old(r).remaining().skip(n as int),
                Err(e) => chain3(ArgKind::Reg, ArgKind::U, ArgKind::Reg, old(r).remaining()) matches Err(se) && se == e@,
            },
    {
        let source = Register::decode(r)?;
        let element = crate::term::decode_usize_arg(r)?;
        let destination = Register::decode(r)?;
        Ok(GetTupleElement { source, element, destination })
    }

    pub(crate) fn encode_operands(&self, out: &mut Vec<u8>) -> (res: Result<(), EncodeError>)
        ensures
            res is Ok,
            final(out)@ == old(out)@ + self.enc(),
    {
        out.push(66);
        self.source.encode(out)?;
        crate::term::encode_usize(0, self.element, out);
        self.destination.encode(out)?;
        proof {
            assert(out@ =~= old(out)@ + self.enc());
        }
        Ok(())
    }
}

#[derive(Debug, PartialEq)]
pub struct SetTupleElement {
    pub arg1: Term,
    pub arg2: Term,
    pub arg3: Term,
}

impl Opcode for SetTupleElement {
    const CODE: u8 = 67;
}

impl SetTupleElement {
    /// The operand views of this instruction, in wire order.
    pub open spec fn args(&self) -> Seq<TermV> {
        seq![
            self.arg1@,
            self.arg2@,
            self.arg3@,
        ]
    }

    /// The canonical byte string of this instruction.
    pub open spec fn enc(&self) -> Seq<u8> {
        seq![67u8] + wire::enc_termv(self.arg1@) + wire::enc_termv(self.arg2@) + wire::enc_termv(self.arg3@)
    }

    pub(crate) fn decode_operands(r: &mut Reader<'_>) -> (res: Result<SetTupleElement, DecodeError>)
        ensures
            match res {
                Ok(v) => chain3(ArgKind::Any, ArgKind::Any, ArgKind::Any, old(r).remaining()) matches Ok((args, n)) && args == v.args()
                    && n <= old(r).remaining().len() && final(r).remaining() == old(r).remaining().skip(n as int),
                Err(e) => chain3(ArgKind::Any, ArgKind::Any, ArgKind::Any, old(r).remaining()) matches Err(se) && se == e@,
            },
    {
        let arg1 = crate::term::decode_term_arg(r)?;
        let arg2 = crate::term::decode_term_arg(r)?;
        let arg3 = crate::term::decode_term_arg(r)?;
        Ok(SetTupleElement { arg1, arg2, arg3 })
    }

    pub(crate) fn encode_operands(&self, out: &mut Vec<u8>) -> (res: Result<(), EncodeError>)
        ensures
            res is Ok,
            final(out)@ == old(out)@ + self.enc(),
    {
        out.push(67);
        self.arg1.encode(out)?;
        self.arg2.encode(out)?;
        self.arg3.encode(out)?;
        proof {
            assert(out@ =~= old(out)@ + self.enc());
        }
        Ok(())
    }
}

/// Deprecated.
#[derive(Debug, PartialEq)]
pub struct PutString {
    pub arg1: Term,
    pub arg2: Term,
    pub arg3: Term,
}

impl Opcode for PutString {
    const CODE: u8 = 68;
}

impl PutString {
    /// The operand views of this instruction, in wire order.
    pub open spec fn args(&self) -> Seq<TermV> {
        seq![
            self.arg1@,
            self.arg2@,
            self.arg3@,
        ]
    }

    /// The canonical byte string of this instruction.
    pub open spec fn enc(&self) -> Seq<u8> {
        seq![68u8] + wire::enc_termv(self.arg1@) + wire::enc_termv(self.arg2@) + wire::enc_termv(self.arg3@)
    }

    pub(crate) fn decode_operands(r: &mut Reader<'_>) -> (res: Result<PutString, DecodeError>)
        ensures
            match res {
                Ok(v) => chain3(ArgKind::Any, ArgKind::Any, ArgKind::Any, old(r).remaining()) matches Ok((args, n)) && args == v.args()
                    && n <= old(r).remaining().len() && final(r).remaining() == old(r).remaining().skip(n as int),
                Err(e) => chain3(ArgKind::Any, ArgKind::Any, ArgKind::Any, old(r).remaining()) matches Err(se) && se == e@,
            },
    {
        let arg1 = crate::term::decode_term_arg(r)?;
        let arg2 = crate::term::decode_term_arg(r)?;
        let arg3 = crate::term::decode_term_arg(r)?;
        Ok(PutString { arg1, arg2, arg3 })
    }

    pub(crate) fn encode_operands(&self, out: &mut Vec<u8>) -> (res: Result<(), EncodeError>)
        ensures
            res is Ok,
            final(out)@ == old(out)@ + self.enc(),
    {
        out.push(68);
        self.arg1.encode(out)?;
        self.arg2.encode(out)?;
        self.arg3.encode(out)?;
        proof {
            assert(out@ =~= old(out)@ + self.enc());
        }
        Ok(())
    }
}

#[derive(Debug, PartialEq)]
pub struct PutList {
    pub head: Term,
    pub tail: Term,
    pub destination: Register,
}

impl Opcode for PutList {
    const CODE: u8 = 69;
}

impl PutList {
    /// The operand views of this instruction, in wire order.
    pub open spec fn args(&self) -> Seq<TermV> {
        seq![
            self.head@,
            self.tail@,
            self.destination@,
        ]
    }

    /// The canonical byte string of this instruction.
    pub open spec fn enc(&self) -> Seq<u8> {
        seq![69u8] + wire::enc_termv(self.head@) + wire::enc_termv(self.tail@) + wire::enc_termv(self.destination@)
    }

    pub(crate) fn decode_operands(r: &mut Reader<'_>) -> (res: Result<PutList, DecodeError>)
        ensures
            match res {
                Ok(v) => chain3(ArgKind::Any, ArgKind::Any, ArgKind::Reg, old(r).remaining()) matches Ok((args, n)) && args == v.args()
                    && n <= old(r).remaining().len() && final(r).remaining() == old(r).remaining().skip(n as int),
                Err(e) => chain3(ArgKind::Any, ArgKind::Any, ArgKind::Reg, old(r).remaining()) matches Err(se) && se == e@,
            },
    {
        let head = crate::term::decode_term_arg(r)?;
        let tail = crate::term::decode_term_arg(r)?;
        let destination = Register::decode(r)?;
        Ok(PutList { head, tail, destination })
    }

    pub(crate) fn encode_operands(&self, out: &mut Vec<u8>) -> (res: Result<(), EncodeError>)
        ensures
            res is Ok,
            final(out)@ == old(out)@ + self.enc(),
    {
        out.push(69);
        self.head.encode(out)?;
        self.tail.encode(out)?;
        self.destination.encode(out)?;
        proof {
            assert(out@ =~= old(out)@ + self.enc());
        }
        Ok(())
    }
}

#[derive(Debug, PartialEq)]
pub struct PutTuple {
    pub arg1: Term,
    pub arg2: Term,
}

impl Opcode for PutTuple {
    const CODE: u8 = 70;
}

impl PutTuple {
    /// The operand views of this instruction, in wire order.
    pub open spec fn args(&self) -> Seq<TermV> {
        seq![
            self.arg1@,
            self.arg2@,
        ]
    }

    /// The canonical byte string of this instruction.
    pub open spec fn enc(&self) -> Seq<u8> {
        seq![70u8] + wire::enc_termv(self.arg1@) + wire::enc_termv(self.arg2@)
    }

    pub(crate) fn decode_operands(r: &mut Reader<'_>) -> (res: Result<PutTuple, DecodeError>)
        ensures
            match res {
                Ok(v) => chain2(ArgKind::Any, ArgKind::Any, old(r).remaining()) matches Ok((args, n)) && args == v.args()
                    && n <= old(r).remaining().len() && final(r).remaining() == old(r).remaining().skip(n as int),
                Err(e) => chain2(ArgKind::Any, ArgKind::Any, old(r).remaining()) matches Err(se) && se == e@,
            },
    {
        let arg1 = crate::term::decode_term_arg(r)?;
        let arg2 = crate::term::decode_term_arg(r)?;
        Ok(PutTuple { arg1, arg2 })
    }

    pub(crate) fn encode_operands(&self, out: &mut Vec<u8>) -> (res: Result<(), EncodeError>)
        ensures
            res is Ok,
            final(out)@ == old(out)@ + self.enc(),
    {
        out.push(70);
        self.arg1.encode(out)?;
        self.arg2.encode(out)?;
        proof {
            assert(out@ =~= old(out)@ + self.enc());
        }
        Ok(())
    }
}

#[derive(Debug, PartialEq)]
pub struct Put {
    pub arg1: Term,
}

impl Opcode for Put {
    const CODE: u8 = 71;
}

impl Put {
    /// The operand views of this instruction, in wire order.
    pub open spec fn args(&self) -> Seq<TermV> {
        seq![
            self.arg1@,
        ]
    }

    /// The canonical byte string of this instruction.
    pub open spec fn enc(&self) -> Seq<u8> {
        seq![71u8] + wire::enc_termv(self.arg1@)
    }

    pub(crate) fn decode_operands(r: &mut Reader<'_>) -> (res: Result<Put, DecodeError>)
        ensures
            match res {
                Ok(v) => chain1(ArgKind::Any, old(r).remaining()) matches Ok((args, n)) && args == v.args()
                    && n <= old(r).remaining().len() && final(r).remaining() == old(r).remaining().skip(n as int),
                Err(e) => chain1(ArgKind::Any, old(r).remaining()) matches Err(se) && se == e@,
            },
    {
        let arg1 = crate::term::decode_term_arg(r)?;
        Ok(Put { arg1 })
    }

    pub(crate) fn encode_operands(&self, out: &mut Vec<u8>) -> (res: Result<(), EncodeError>)
        ensures
            res is Ok,
            final(out)@ == old(out)@ + self.enc(),
    {
        out.push(71);
        self.arg1.encode(out)?;
        proof {
            assert(out@ =~= old(out)@ + self.enc());
        }
        Ok(())
    }
}

#[derive(Debug, PartialEq)]
pub struct Badmatch {
    pub arg1: Term,
}

impl Opcode for Badmatch {
    const CODE: u8 = 72;
}

impl Badmatch {
    /// The operand views of this instruction, in wire order.
    pub open spec fn args(&self) -> Seq<TermV> {
        seq![
            self.arg1@,
        ]
    }

    /// The canonical byte string of this instruction.
    pub open spec fn enc(&self) -> Seq<u8> {
        seq![72u8] + wire::enc_termv(self.arg1@)
    }

    pub(crate) fn decode_operands(r: &mut Reader<'_>) -> (res: Result<Badmatch, DecodeError>)
        ensures
            match res {
                Ok(v) => chain1(ArgKind::Any, old(r).remaining()) matches Ok((args, n)) && args == v.args()
                    && n <= old(r).remaining().len() && final(r).remaining() == old(r).remaining().skip(n as int),
                Err(e) => chain1(ArgKind::Any, old(r).remaining()) matches Err(se) && se == e@,
            },
    {
        let arg1 = crate::term::decode_term_arg(r)?;
        Ok(Badmatch { arg1 })
    }

    pub(crate) fn encode_operands(&self, out: &mut Vec<u8>) -> (res: Result<(), EncodeError>)
        ensures
            res is Ok,
            final(out)@ == old(out)@ + self.enc(),
    {
        out.push(72);
        self.arg1.encode(out)?;
        proof {
            assert(out@ =~= old(out)@ + self.enc());
        }
        Ok(())
    }
}

#[derive(Debug, PartialEq)]
pub struct IfEnd {}

impl Opcode for IfEnd {
    const CODE: u8 = 73;
}

impl IfEnd {
    /// The operand views of this instruction, in wire order.
    pub open spec fn args(&self) -> Seq<TermV> {
        Seq::empty()
    }

    /// The canonical byte string of this instruction.
    pub open spec fn enc(&self) -> Seq<u8> {
        seq![73u8]
    }

    pub(crate) fn decode_operands(r: &mut Reader<'_>) -> (res: Result<IfEnd, DecodeError>)
        ensures
            match res {
                Ok(v) => chain0(old(r).remaining()) matches Ok((args, n)) && args == v.args()
                    && n <= old(r).remaining().len() && final(r).remaining() == old(r).remaining().skip(n as int),
                Err(e) => chain0(old(r).remaining()) matches Err(se) && se == e@,
            },
    {
        proof {
            assert(old(r).remaining().skip(0) =~= old(r).remaining());
        }
        Ok(IfEnd {  })
    }

    pub(crate) fn encode_operands(&self, out: &mut Vec<u8>) -> (res: Result<(), EncodeError>)
        ensures
            res is Ok,
            final(out)@ == old(out)@ + self.enc(),
    {
        out.push(73);
        proof {
            assert(out@ =~= old(out)@ + self.enc());
        }
        Ok(())
    }
}

#[derive(Debug, PartialEq)]
pub struct CaseEnd {
    pub arg1: Term,
}

impl Opcode for CaseEnd {
    const CODE: u8 = 74;
}

impl CaseEnd {
    /// The operand views of this instruction, in wire order.
    pub open spec fn args(&self) -> Seq<TermV> {
        seq![
            self.arg1@,
        ]
    }

    /// The canonical byte string of this instruction.
    pub open spec fn enc(&self) -> Seq<u8> {
        seq![74u8] + wire::enc_termv(self.arg1@)
    }

    pub(crate) fn decode_operands(r: &mut Reader<'_>) -> (res: Result<CaseEnd, DecodeError>)
        ensures
            match res {
                Ok(v) => chain1(ArgKind::Any, old(r).remaining()) matches Ok((args, n)) && args == v.args()
                    && n <= old(r).remaining().len() && final(r).remaining() == old(r).remaining().skip(n as int),
                Err(e) => chain1(ArgKind::Any, old(r).remaining()) matches Err(se) && se == e@,
            },
    {
        let arg1 = crate::term::decode_term_arg(r)?;
        Ok(CaseEnd { arg1 })
    }

    pub(crate) fn encode_operands(&self, out: &mut Vec<u8>) -> (res: Result<(), EncodeError>)
        ensures
            res is Ok,
            final(out)@ == old(out)@ + self.enc(),
    {
        out.push(74);
        self.arg1.encode(out)?;
        proof {
            assert(out@ =~= old(out)@ + self.enc());
        }
        Ok(())
    }
}

#[derive(Debug, PartialEq)]
pub struct CallFun {
    pub arg1: Term,
}

impl Opcode for CallFun {
    const CODE: u8 = 75;
}

impl CallFun {
    /// The operand views of this instruction, in wire order.
    pub open spec fn args(&self) -> Seq<TermV> {
        seq![
            self.arg1@,
        ]
    }

    /// The canonical byte string of this instruction.
    pub open spec fn enc(&self) -> Seq<u8> {
        seq![75u8] + wire::enc_termv(self.arg1@)
    }

    pub(crate) fn decode_operands(r: &mut Reader<'_>) -> (res: Result<CallFun, DecodeError>)
        ensures
            match res {
                Ok(v) => chain1(ArgKind::Any, old(r).remaining()) matches Ok((args, n)) && args == v.args()
                    && n <= old(r).remaining().len() && final(r).remaining() == old(r).remaining().skip(n as int),
                Err(e) => chain1(ArgKind::Any, old(r).remaining()) matches Err(se) && se == e@,
            },
    {
        let arg1 = crate::term::decode_term_arg(r)?;
        Ok(CallFun { arg1 })
    }

    pub(crate) fn encode_operands(&self, out: &mut Vec<u8>) -> (res: Result<(), EncodeError>)
        ensures
            res is Ok,
            final(out)@ == old(out)@ + self.enc(),
    {
        out.push(75);
        self.arg1.encode(out)?;
        proof {
            assert(out@ =~= old(out)@ + self.enc());
        }
        Ok(())
    }
}

/// Deprecated.
#[derive(Debug, PartialEq)]
pub struct MakeFun {
    pub arg1: Term,
    pub arg2: Term,
    pub arg3: Term,
}

impl Opcode for MakeFun {
    const CODE: u8 = 76;
}

impl MakeFun {
    /// The operand views of this instruction, in wire order.
    pub open spec fn args(&self) -> Seq<TermV> {
        seq![
            self.arg1@,
            self.arg2@,
            self.arg3@,
        ]
    }

    /// The canonical byte string of this instruction.
    pub open spec fn enc(&self) -> Seq<u8> {
        seq![76u8] + wire::enc_termv(self.arg1@) + wire::enc_termv(self.arg2@) + wire::enc_termv(self.arg3@)
    }

    pub(crate) fn decode_operands(r: &mut Reader<'_>) -> (res: Result<MakeFun, DecodeError>)
        ensures
            match res {
                Ok(v) => chain3(ArgKind::Any, ArgKind::Any, ArgKind::Any, old(r).remaining()) matches Ok((args, n)) && args == v.args()
                    && n <= old(r).remaining().len() && final(r).remaining() == old(r).remaining().skip(n as int),
                Err(e) => chain3(ArgKind::Any, ArgKind::Any, ArgKind::Any, old(r).remaining()) matches Err(se) && se == e@,
            },
    {
        let arg1 = crate::term::decode_term_arg(r)?;
        let arg2 = crate::term::decode_term_arg(r)?;
        let arg3 = crate::term::decode_term_arg(r)?;
        Ok(MakeFun { arg1, arg2, arg3 })
    }

    pub(crate) fn encode_operands(&self, out: &mut Vec<u8>) -> (res: Result<(), EncodeError>)
        ensures
            res is Ok,
            final(out)@ == old(out)@ + self.enc(),
    {
        out.push(76);
        self.arg1.encode(out)?;
        self.arg2.encode(out)?;
        self.arg3.encode(out)?;
        proof {
            assert(out@ =~= old(out)@ + self.enc());
        }
        Ok(())
    }
}

#[derive(Debug, PartialEq)]
pub struct IsFunction {
    pub arg1: Term,
    pub arg2: Term,
}

impl Opcode for IsFunction {
    const CODE: u8 = 77;
}

impl IsFunction {
    /// The operand views of this instruction, in wire order.
    pub open spec fn args(&self) -> Seq<TermV> {
        seq![
            self.arg1@,
            self.arg2@,
        ]
    }

    /// The canonical byte string of this instruction.
    pub open spec fn enc(&self) -> Seq<u8> {
        seq![77u8] + wire::enc_termv(self.arg1@) + wire::enc_termv(self.arg2@)
    }

    pub(crate) fn decode_operands(r: &mut Reader<'_>) -> (res: Result<IsFunction, DecodeError>)
        ensures
            match res {
                Ok(v) => chain2(ArgKind::Any, ArgKind::Any, old(r).remaining()) matches Ok((args, n)) && args == v.args()
                    && n <= old(r).remaining().len() && final(r).remaining() == old(r).remaining().skip(n as int),
                Err(e) => chain2(ArgKind::Any, ArgKind::Any, old(r).remaining()) matches Err(se) && se == e@,
            },
    {
        let arg1 = crate::term::decode_term_arg(r)?;
        let arg2 = crate::term::decode_term_arg(r)?;
        Ok(IsFunction { arg1, arg2 })
    }

    pub(crate) fn encode_operands(&self, out: &mut Vec<u8>) -> (res: Result<(), EncodeError>)
        ensures
            res is Ok,
            final(out)@ == old(out)@ + self.enc(),
    {
        out.push(77);
        self.arg1.encode(out)?;
        self.arg2.encode(out)?;
        proof {
            assert(out@ =~= old(out)@ + self.enc());
        }
        Ok(())
    }
}

#[derive(Debug, PartialEq)]
pub struct CallExtOnly {
    pub arity: usize,
    pub destination: usize,
}

impl Opcode for CallExtOnly {
    const CODE: u8 = 78;
}

impl CallExtOnly {
    /// The operand views of this instruction, in wire order.
    pub open spec fn args(&self) -> Seq<TermV> {
        seq![
            TermV::Usize(self.arity as int),
            TermV::Usize(self.destination as int),
        ]
    }

    /// The canonical byte string of this instruction.
    pub open spec fn enc(&self) -> Seq<u8> {
        seq![78u8] + wire::enc_termv(TermV::Usize(self.arity as int)) + wire::enc_termv(TermV::Usize(self.destination as int))
    }

    pub(crate) fn decode_operands(r: &mut Reader<'_>) -> (res: Result<CallExtOnly, DecodeError>)
        ensures
            match res {
                Ok(v) => chain2(ArgKind::U, ArgKind::U, old(r).remaining()) matches Ok((args, n)) && args == v.args()
                    && n <= old(r).remaining().len() && final(r).remaining() == old(r).remaining().skip(n as int),
                Err(e) => chain2(ArgKind::U, ArgKind::U, old(r).remaining()) matches Err(se) && se == e@,
            },
    {
        let arity = crate::term::decode_usize_arg(r)?;
        let destination = crate::term::decode_usize_arg(r)?;
        Ok(CallExtOnly { arity, destination })
    }

    pub(crate) fn encode_operands(&self, out: &mut Vec<u8>) -> (res: Result<(), EncodeError>)
        ensures
            res is Ok,
            final(out)@ == old(out)@ + self.enc(),
    {
        out.push(78);
        crate::term::encode_usize(0, self.arity, out);
        crate::term::encode_usize(0, self.destination, out);
        proof {
            assert(out@ =~= old(out)@ + self.enc());
        }
        Ok(())
    }
}

/// Deprecated.
#[derive(Debug, PartialEq)]
pub struct BsStartMatch {
    pub arg1: Term,
    pub arg2: Term,
}

impl Opcode for BsStartMatch {
    const CODE: u8 = 79;
}

impl BsStartMatch {
    /// The operand views of this instruction, in wire order.
    pub open spec fn args(&self) -> Seq<TermV> {
        seq![
            self.arg1@,
            self.arg2@,
        ]
    }

    /// The canonical byte string of this instruction.
    pub open spec fn enc(&self) -> Seq<u8> {
        seq![79u8] + wire::enc_termv(self.arg1@) + wire::enc_termv(self.arg2@)
    }

    pub(crate) fn decode_operands(r: &mut Reader<'_>) -> (res: Result<BsStartMatch, DecodeError>)
        ensures
            match res {
                Ok(v) => chain2(ArgKind::Any, ArgKind::Any, old(r).remaining()) matches Ok((args, n)) && args == v.args()
                    && n <= old(r).remaining().len() && final(r).remaining() == old(r).remaining().skip(n as int),
                Err(e) => chain2(ArgKind::Any, ArgKind::Any, old(r).remaining()) matches Err(se) && se == e@,
            },
    {
        let arg1 = crate::term::decode_term_arg(r)?;
        let arg2 = crate::term::decode_term_arg(r)?;
        Ok(BsStartMatch { arg1, arg2 })
    }

    pub(crate) fn encode_operands(&self, out: &mut Vec<u8>) -> (res: Result<(), EncodeError>)
        ensures
            res is Ok,
            final(out)@ == old(out)@ + self.enc(),
    {
        out.push(79);
        self.arg1.encode(out)?;
        self.arg2.encode(out)?;
        proof {
            assert(out@ =~= old(out)@ + self.enc());
        }
        Ok(())
    }
}

/// Deprecated.
#[derive(Debug, PartialEq)]
pub struct BsGetInteger {
    pub arg1: Term,
    pub arg2: Term,
    pub arg3: Term,
    pub arg4: Term,
    pub arg5: Term,
}

impl Opcode for BsGetInteger {
    const CODE: u8 = 80;
}

impl BsGetInteger {
    /// The operand views of this instruction, in wire order.
    pub open spec fn args(&self) -> Seq<TermV> {
        seq![
            self.arg1@,
            self.arg2@,
            self.arg3@,
            self.arg4@,
            self.arg5@,
        ]
    }

    /// The canonical byte string of this instruction.
    pub open spec fn enc(&self) -> Seq<u8> {
        seq![80u8] + wire::enc_termv(self.arg1@) + wire::enc_termv(self.arg2@) + wire::enc_termv(self.arg3@) + wire::enc_termv(self.arg4@) + wire::enc_termv(self.arg5@)
    }

    #[verifier::rlimit(100)]
    pub(crate) fn decode_operands(r: &mut Reader<'_>) -> (res: Result<BsGetInteger, DecodeError>)
        ensures
            match res {
                Ok(v) => chain5(ArgKind::Any, ArgKind::Any, ArgKind::Any, ArgKind::Any, ArgKind::Any, old(r).remaining()) matches Ok((args, n)) && args == v.args()
                    && n <= old(r).remaining().len() && final(r).remaining() == old(r).remaining().skip(n as int),
                Err(e) => chain5(ArgKind::Any, ArgKind::Any, ArgKind::Any, ArgKind::Any, ArgKind::Any, old(r).remaining()) matches Err(se) && se == e@,
            },
    {
        let arg1 = crate::term::decode_term_arg(r)?;
        let arg2 = crate::term::decode_term_arg(r)?;
        let arg3 = crate::term::decode_term_arg(r)?;
        let arg4 = crate::term::decode_term_arg(r)?;
        let arg5 = crate::term::decode_term_arg(r)?;
        Ok(BsGetInteger { arg1, arg2, arg3, arg4, arg5 })
    }

    #[verifier::rlimit(100)]
    pub(crate) fn encode_operands(&self, out: &mut Vec<u8>) -> (res: Result<(), EncodeError>)
        ensures
            res is Ok,
            final(out)@ == old(out)@ + self.enc(),
    {
        out.push(80);
        self.arg1.encode(out)?;
        self.arg2.encode(out)?;
        self.arg3.encode(out)?;
        self.arg4.encode(out)?;
        self.arg5.encode(out)?;
        proof {
            assert(out@ =~= old(out)@ + self.enc());
        }
        Ok(())
    }
}

/// Deprecated.
#[derive(Debug, PartialEq)]
pub struct BsGetFloat {
    pub arg1: Term,
    pub arg2: Term,
    pub arg3: Term,
    pub arg4: Term,
    pub arg5: Term,
}

impl Opcode for BsGetFloat {
    const CODE: u8 = 81;
}

impl BsGetFloat {
    /// The operand views of this instruction, in wire order.
    pub open spec fn args(&self) -> Seq<TermV> {
        seq![
            self.arg1@,
            self.arg2@,
            self.arg3@,
            self.arg4@,
            self.arg5@,
        ]
    }

    /// The canonical byte string of this instruction.
    pub open spec fn enc(&self) -> Seq<u8> {
        seq![81u8] + wire::enc_termv(self.arg1@) + wire::enc_termv(self.arg2@) + wire::enc_termv(self.arg3@) + wire::enc_termv(self.arg4@) + wire::enc_termv(self.arg5@)
    }

    #[verifier::rlimit(100)]
    pub(crate) fn decode_operands(r: &mut Reader<'_>) -> (res: Result<BsGetFloat, DecodeError>)
        ensures
            match res {
                Ok(v) => chain5(ArgKind::Any, ArgKind::Any, ArgKind::Any, ArgKind::Any, ArgKind::Any, old(r).remaining()) matches Ok((args, n)) && args == v.args()
                    && n <= old(r).remaining().len() && final(r).remaining() == old(r).remaining().skip(n as int),
                Err(e) => chain5(ArgKind::Any, ArgKind::Any, ArgKind::Any, ArgKind::Any, ArgKind::Any, old(r).remaining()) matches Err(se) && se == e@,
            },
    {
        let arg1 = crate::term::decode_term_arg(r)?;
        let arg2 = crate::term::decode_term_arg(r)?;
        let arg3 = crate::term::decode_term_arg(r)?;
        let arg4 = crate::term::decode_term_arg(r)?;
        let arg5 = crate::term::decode_term_arg(r)?;
        Ok(BsGetFloat { arg1, arg2, arg3, arg4, arg5 })
    }

    #[verifier::rlimit(100)]
    pub(crate) fn encode_operands(&self, out: &mut Vec<u8>) -> (res: Result<(), EncodeError>)
        ensures
            res is Ok,
            final(out)@ == old(out)@ + self.enc(),
    {
        out.push(81);
        self.arg1.encode(out)?;
        self.arg2.encode(out)?;
        self.arg3.encode(out)?;
        self.arg4.encode(out)?;
        self.arg5.encode(out)?;
        proof {
            assert(out@ =~= old(out)@ + self.enc());
        }
        Ok(())
    }
}

/// Deprecated.
#[derive(Debug, PartialEq)]
pub struct BsGetBinary {
    pub arg1: Term,
    pub arg2: Term,
    pub arg3: Term,
    pub arg4: Term,
    pub arg5: Term,
}

impl Opcode for BsGetBinary {
    const CODE: u8 = 82;
}

impl BsGetBinary {
    /// The operand views of this instruction, in wire order.
    pub open spec fn args(&self) -> Seq<TermV> {
        seq![
            self.arg1@,
            self.arg2@,
            self.arg3@,
            self.arg4@,
            self.arg5@,
        ]
    }

    /// The canonical byte string of this instruction.
    pub open spec fn enc(&self) -> Seq<u8> {
        seq![82u8] + wire::enc_termv(self.arg1@) + wire::enc_termv(self.arg2@) + wire::enc_termv(self.arg3@) + wire::enc_termv(self.arg4@) + wire::enc_termv(self.arg5@)
    }

    #[verifier::rlimit(100)]
    pub(crate) fn decode_operands(r: &mut Reader<'_>) -> (res: Result<BsGetBinary, DecodeError>)
        ensures
            match res {
                Ok(v) => chain5(ArgKind::Any, ArgKind::Any, ArgKind::Any, ArgKind::Any, ArgKind::Any, old(r).remaining()) matches Ok((args, n)) && args == v.args()
                    && n <= old(r).remaining().len() && final(r).remaining() == old(r).remaining().skip(n as int),
                Err(e) => chain5(ArgKind::Any, ArgKind::Any, ArgKind::Any, ArgKind::Any, ArgKind::Any, old(r).remaining()) matches Err(se) && se == e@,
            },
    {
        let arg1 = crate::term::decode_term_arg(r)?;
        let arg2 = crate::term::decode_term_arg(r)?;
        let arg3 = crate::term::decode_term_arg(r)?;
        let arg4 = crate::term::decode_term_arg(r)?;
        let arg5 = crate::term::decode_term_arg(r)?;
        Ok(BsGetBinary { arg1, arg2, arg3, arg4, arg5 })
    }

    #[verifier::rlimit(100)]
    pub(crate) fn encode_operands(&self, out: &mut Vec<u8>) -> (res: Result<(), EncodeError>)
        ensures
            res is Ok,
            final(out)@ == old(out)@ + self.enc(),
    {
        out.push(82);
        self.arg1.encode(out)?;
        self.arg2.encode(out)?;
        self.arg3.encode(out)?;
        self.arg4.encode(out)?;
        self.arg5.encode(out)?;
        proof {
            assert(out@ =~= old(out)@ + self.enc());
        }
        Ok(())
    }
}

#[derive(Debug, PartialEq)]
pub struct BsSkipBits {
    pub arg1: Term,
    pub arg2: Term,
    pub arg3: Term,
    pub arg4: Term,
}

impl Opcode for BsSkipBits {
    const CODE: u8 = 83;
}

impl BsSkipBits {
    /// The operand views of this instruction, in wire order.
    pub open spec fn args(&self) -> Seq<TermV> {
        seq![
            self.arg1@,
            self.arg2@,
            self.arg3@,
            self.arg4@,
        ]
    }

    /// The canonical byte string of this instruction.
    pub open spec fn enc(&self) -> Seq<u8> {
        seq![83u8] + wire::enc_termv(self.arg1@) + wire::enc_termv(self.arg2@) + wire::enc_termv(self.arg3@) + wire::enc_termv(self.arg4@)
    }

    pub(crate) fn decode_operands(r: &mut Reader<'_>) -> (res: Result<BsSkipBits, DecodeError>)
        ensures
            match res {
                Ok(v) => chain4(ArgKind::Any, ArgKind::Any, ArgKind::Any, ArgKind::Any, old(r).remaining()) matches Ok((args, n)) && args == v.args()
                    && n <= old(r).remaining().len() && final(r).remaining() == old(r).remaining().skip(n as int),
                Err(e) => chain4(ArgKind::Any, ArgKind::Any, ArgKind::Any, ArgKind::Any, old(r).remaining()) matches Err(se) && se == e@,
            },
    {
        let arg1 = crate::term::decode_term_arg(r)?;
        let arg2 = crate::term::decode_term_arg(r)?;
        let arg3 = crate::term::decode_term_arg(r)?;
        let arg4 = crate::term::decode_term_arg(r)?;
        Ok(BsSkipBits { arg1, arg2, arg3, arg4 })
    }

    pub(crate) fn encode_operands(&self, out: &mut Vec<u8>) -> (res: Result<(), EncodeError>)
        ensures
            res is Ok,
            final(out)@ == old(out)@ + self.enc(),
    {
        out.push(83);
        self.arg1.encode(out)?;
        self.arg2.encode(out)?;
        self.arg3.encode(out)?;
        self.arg4.encode(out)?;
        proof {
            assert(out@ =~= old(out)@ + self.enc());
        }
        Ok(())
    }
}

/// Deprecated.
#[derive(Debug, PartialEq)]
pub struct BsTestTail {
    pub arg1: Term,
    pub arg2: Term,
}

impl Opcode for BsTestTail {
    const CODE: u8 = 84;
}

impl BsTestTail {
    /// The operand views of this instruction, in wire order.
    pub open spec fn args(&self) -> Seq<TermV> {
        seq![
            self.arg1@,
            self.arg2@,
        ]
    }

    /// The canonical byte string of this instruction.
    pub open spec fn enc(&self) -> Seq<u8> {
        seq![84u8] + wire::enc_termv(self.arg1@) + wire::enc_termv(self.arg2@)
    }

    pub(crate) fn decode_operands(r: &mut Reader<'_>) -> (res: Result<BsTestTail, DecodeError>)
        ensures
            match res {
                Ok(v) => chain2(ArgKind::Any, ArgKind::Any, old(r).remaining()) matches Ok((args, n)) && args == v.args()
                    && n <= old(r).remaining().len() && final(r).remaining() == old(r).remaining().skip(n as int),
                Err(e) => chain2(ArgKind::Any, ArgKind::Any, old(r).remaining()) matches Err(se) && se == e@,
            },
    {
        let arg1 = crate::term::decode_term_arg(r)?;
        let arg2 = crate::term::decode_term_arg(r)?;
        Ok(BsTestTail { arg1, arg2 })
    }

    pub(crate) fn encode_operands(&self, out: &mut Vec<u8>) -> (res: Result<(), EncodeError>)
        ensures
            res is Ok,
            final(out)@ == old(out)@ + self.enc(),
    {
        out.push(84);
        self.arg1.encode(out)?;
        self.arg2.encode(out)?;
        proof {
            assert(out@ =~= old(out)@ + self.enc());
        }
        Ok(())
    }
}

#[derive(Debug, PartialEq)]
pub struct BsSave {
    pub arg1: Term,
}

impl Opcode for BsSave {
    const CODE: u8 = 85;
}

impl BsSave {
    /// The operand views of this instruction, in wire order.
    pub open spec fn args(&self) -> Seq<TermV> {
        seq![
            self.arg1@,
        ]
    }

    /// The canonical byte string of this instruction.
    pub open spec fn enc(&self) -> Seq<u8> {
        seq![85u8] + wire::enc_termv(self.arg1@)
    }

    pub(crate) fn decode_operands(r: &mut Reader<'_>) -> (res: Result<BsSave, DecodeError>)
        ensures
            match res {
                Ok(v) => chain1(ArgKind::Any, old(r).remaining()) matches Ok((args, n)) && args == v.args()
                    && n <= old(r).remaining().len() && final(r).remaining() == old(r).remaining().skip(n as int),
                Err(e) => chain1(ArgKind::Any, old(r).remaining()) matches Err(se) && se == e@,
            },
    {
        let arg1 = crate::term::decode_term_arg(r)?;
        Ok(BsSave { arg1 })
    }

    pub(crate) fn encode_operands(&self, out: &mut Vec<u8>) -> (res: Result<(), EncodeError>)
        ensures
            res is Ok,
            final(out)@ == old(out)@ + self.enc(),
    {
        out.push(85);
        self.arg1.encode(out)?;
        proof {
            assert(out@ =~= old(out)@ + self.enc());
        }
        Ok(())
    }
}

/// Deprecated.
#[derive(Debug, PartialEq)]
pub struct BsRestore {
    pub arg1: Term,
}

impl Opcode for BsRestore {
    const CODE: u8 = 86;
}

impl BsRestore {
    /// The operand views of this instruction, in wire order.
    pub open spec fn args(&self) -> Seq<TermV> {
        seq![
            self.arg1@,
        ]
    }

    /// The canonical byte string of this instruction.
    pub open spec fn enc(&self) -> Seq<u8> {
        seq![86u8] + wire::enc_termv(self.arg1@)
    }

    pub(crate) fn decode_operands(r: &mut Reader<'_>) -> (res: Result<BsRestore, DecodeError>)
        ensures
            match res {
                Ok(v) => chain1(ArgKind::Any, old(r).remaining()) matches Ok((args, n)) && args == v.args()
                    && n <= old(r).remaining().len() && final(r).remaining() == old(r).remaining().skip(n as int),
                Err(e) => chain1(ArgKind::Any, old(r).remaining()) matches Err(se) && se == e@,
            },
    {
        let arg1 = crate::term::decode_term_arg(r)?;
        Ok(BsRestore { arg1 })
    }

    pub(crate) fn encode_operands(&self, out: &mut Vec<u8>) -> (res: Result<(), EncodeError>)
        ensures
            res is Ok,
            final(out)@ == old(out)@ + self.enc(),
    {
        out.push(86);
        self.arg1.encode(out)?;
        proof {
            assert(out@ =~= old(out)@ + self.enc());
        }
        Ok(())
    }
}

/// Deprecated.
#[derive(Debug, PartialEq)]
pub struct BsInit {
    pub arg1: Term,
    pub arg2: Term,
}

impl Opcode for BsInit {
    const CODE: u8 = 87;
}

impl BsInit {
    /// The operand views of this instruction, in wire order.
    pub open spec fn args(&self) -> Seq<TermV> {
        seq![
            self.arg1@,
            self.arg2@,
        ]
    }

    /// The canonical byte string of this instruction.
    pub open spec fn enc(&self) -> Seq<u8> {
        seq![87u8] + wire::enc_termv(self.arg1@) + wire::enc_termv(self.arg2@)
    }

    pub(crate) fn decode_operands(r: &mut Reader<'_>) -> (res: Result<BsInit, DecodeError>)
        ensures
            match res {
                Ok(v) => chain2(ArgKind::Any, ArgKind::Any, old(r).remaining()) matches Ok((args, n)) && args == v.args()
                    && n <= old(r).remaining().len() && final(r).remaining() == old(r).remaining().skip(n as int),
                Err(e) => chain2(ArgKind::Any, ArgKind::Any, old(r).remaining()) matches Err(se) && se == e@,
            },
    {
        let arg1 = crate::term::decode_term_arg(r)?;
        let arg2 = crate::term::decode_term_arg(r)?;
        Ok(BsInit { arg1, arg2 })
    }

    pub(crate) fn encode_operands(&self, out: &mut Vec<u8>) -> (res: Result<(), EncodeError>)
        ensures
            res is Ok,
            final(out)@ == old(out)@ + self.enc(),
    {
        out.push(87);
        self.arg1.encode(out)?;
        self.arg2.encode(out)?;
        proof {
            assert(out@ =~= old(out)@ + self.enc());
        }
        Ok(())
    }
}

/// Deprecated.
#[derive(Debug, PartialEq)]
pub struct BsFinal {
    pub arg1: Term,
    pub arg2: Term,
}

impl Opcode for BsFinal {
    const CODE: u8 = 88;
}

impl BsFinal {
    /// The operand views of this instruction, in wire order.
    pub open spec fn args(&self) -> Seq<TermV> {
        seq![
            self.arg1@,
            self.arg2@,
        ]
    }

    /// The canonical byte string of this instruction.
    pub open spec fn enc(&self) -> Seq<u8> {
        seq![88u8] + wire::enc_termv(self.arg1@) + wire::enc_termv(self.arg2@)
    }

    pub(crate) fn decode_operands(r: &mut Reader<'_>) -> (res: Result<BsFinal, DecodeError>)
        ensures
            match res {
                Ok(v) => chain2(ArgKind::Any, ArgKind::Any, old(r).remaining()) matches Ok((args, n)) && args == v.args()
                    && n <= old(r).remaining().len() && final(r).remaining() == old(r).remaining().skip(n as int),
                Err(e) => chain2(ArgKind::Any, ArgKind::Any, old(r).remaining()) matches Err(se) && se == e@,
            },
    {
        let arg1 = crate::term::decode_term_arg(r)?;
        let arg2 = crate::term::decode_term_arg(r)?;
        Ok(BsFinal { arg1, arg2 })
    }

    pub(crate) fn encode_operands(&self, out: &mut Vec<u8>) -> (res: Result<(), EncodeError>)
        ensures
            res is Ok,
            final(out)@ == old(out)@ + self.enc(),
    {
        out.push(88);
        self.arg1.encode(out)?;
        self.arg2.encode(out)?;
        proof {
            assert(out@ =~= old(out)@ + self.enc());
        }
        Ok(())
    }
}

#[derive(Debug, PartialEq)]
pub struct BsPutInteger {
    pub arg1: Term,
    pub arg2: Term,
    pub arg3: Term,
    pub arg4: Term,
    pub arg5: Term,
}

impl Opcode for BsPutInteger {
    const CODE: u8 = 89;
}

impl BsPutInteger {
    /// The operand views of this instruction, in wire order.
    pub open spec fn args(&self) -> Seq<TermV> {
        seq![
            self.arg1@,
            self.arg2@,
            self.arg3@,
            self.arg4@,
            self.arg5@,
        ]
    }

    /// The canonical byte string of this instruction.
    pub open spec fn enc(&self) -> Seq<u8> {
        seq![89u8] + wire::enc_termv(self.arg1@) + wire::enc_termv(self.arg2@) + wire::enc_termv(self.arg3@) + wire::enc_termv(self.arg4@) + wire::enc_termv(self.arg5@)
    }

    #[verifier::rlimit(100)]
    pub(crate) fn decode_operands(r: &mut Reader<'_>) -> (res: Result<BsPutInteger, DecodeError>)
        ensures
            match res {
                Ok(v) => chain5(ArgKind::Any, ArgKind::Any, ArgKind::Any, ArgKind::Any, ArgKind::Any, old(r).remaining()) matches Ok((args, n)) && args == v.args()
                    && n <= old(r).remaining().len() && final(r).remaining() == old(r).remaining().skip(n as int),
                Err(e) => chain5(ArgKind::Any, ArgKind::Any, ArgKind::Any, ArgKind::Any, ArgKind::Any, old(r).remaining()) matches Err(se) && se == e@,
            },
    {
        let arg1 = crate::term::decode_term_arg(r)?;
        let arg2 = crate::term::decode_term_arg(r)?;
        let arg3 = crate::term::decode_term_arg(r)?;
        let arg4 = crate::term::decode_term_arg(r)?;
        let arg5 = crate::term::decode_term_arg(r)?;
        Ok(BsPutInteger { arg1, arg2, arg3, arg4, arg5 })
    }

    #[verifier::rlimit(100)]
    pub(crate) fn encode_operands(&self, out: &mut Vec<u8>) -> (res: Result<(), EncodeError>)
        ensures
            res is Ok,
            final(out)@ == old(out)@ + self.enc(),
    {
        out.push(89);
        self.arg1.encode(out)?;
        self.arg2.encode(out)?;
        self.arg3.encode(out)?;
        self.arg4.encode(out)?;
        self.arg5.encode(out)?;
        proof {
            assert(out@ =~= old(out)@ + self.enc());
        }
        Ok(())
    }
}

#[derive(Debug, PartialEq)]
pub struct BsPutBinary {
    pub arg1: Term,
    pub arg2: Term,
    pub arg3: Term,
    pub arg4: Term,
    pub arg5: Term,
}

impl Opcode for BsPutBinary {
    const CODE: u8 = 90;
}

impl BsPutBinary {
    /// The operand views of this instruction, in wire order.
    pub open spec fn args(&self) -> Seq<TermV> {
        seq![
            self.arg1@,
            self.arg2@,
            self.arg3@,
            self.arg4@,
            self.arg5@,
        ]
    }

    /// The canonical byte string of this instruction.
    pub open spec fn enc(&self) -> Seq<u8> {
        seq![90u8] + wire::enc_termv(self.arg1@) + wire::enc_termv(self.arg2@) + wire::enc_termv(self.arg3@) + wire::enc_termv(self.arg4@) + wire::enc_termv(self.arg5@)
    }

    #[verifier::rlimit(100)]
    pub(crate) fn decode_operands(r: &mut Reader<'_>) -> (res: Result<BsPutBinary, DecodeError>)
        ensures
            match res {
                Ok(v) => chain5(ArgKind::Any, ArgKind::Any, ArgKind::Any, ArgKind::Any, ArgKind::Any, old(r).remaining()) matches Ok((args, n)) && args == v.args()
                    && n <= old(r).remaining().len() && final(r).remaining() == old(r).remaining().skip(n as int),
                Err(e) => chain5(ArgKind::Any, ArgKind::Any, ArgKind::Any, ArgKind::Any, ArgKind::Any, old(r).remaining()) matches Err(se) && se == e@,
            },
    {
        let arg1 = crate::term::decode_term_arg(r)?;
        let arg2 = crate::term::decode_term_arg(r)?;
        let arg3 = crate::term::decode_term_arg(r)?;
        let arg4 = crate::term::decode_term_arg(r)?;
        let arg5 = crate::term::decode_term_arg(r)?;
        Ok(BsPutBinary { arg1, arg2, arg3, arg4, arg5 })
    }

    #[verifier::rlimit(100)]
    pub(crate) fn encode_operands(&self, out: &mut Vec<u8>) -> (res: Result<(), EncodeError>)
        ensures
            res is Ok,
            final(out)@ == old(out)@ + self.enc(),
    {
        out.push(90);
        self.arg1.encode(out)?;
        self.arg2.encode(out)?;
        self.arg3.encode(out)?;
        self.arg4.encode(out)?;
        self.arg5.encode(out)?;
        proof {
            assert(out@ =~= old(out)@ + self.enc());
        }
        Ok(())
    }
}

#[derive(Debug, PartialEq)]
pub struct BsPutFloat {
    pub arg1: Term,
    pub arg2: Term,
    pub arg3: Term,
    pub arg4: Term,
    pub arg5: Term,
}

impl Opcode for BsPutFloat {
    const CODE: u8 = 91;
}

impl BsPutFloat {
    /// The operand views of this instruction, in wire order.
    pub open spec fn args(&self) -> Seq<TermV> {
        seq![
            self.arg1@,
            self.arg2@,
            self.arg3@,
            self.arg4@,
            self.arg5@,
        ]
    }

    /// The canonical byte string of this instruction.
    pub open spec fn enc(&self) -> Seq<u8> {
        seq![91u8] + wire::enc_termv(self.arg1@) + wire::enc_termv(self.arg2@) + wire::enc_termv(self.arg3@) + wire::enc_termv(self.arg4@) + wire::enc_termv(self.arg5@)
    }

    #[verifier::rlimit(100)]
    pub(crate) fn decode_operands(r: &mut Reader<'_>) -> (res: Result<BsPutFloat, DecodeError>)
        ensures
            match res {
                Ok(v) => chain5(ArgKind::Any, ArgKind::Any, ArgKind::Any, ArgKind::Any, ArgKind::Any, old(r).remaining()) matches Ok((args, n)) && args == v.args()
                    && n <= old(r).remaining().len() && final(r).remaining() == old(r).remaining().skip(n as int),
                Err(e) => chain5(ArgKind::Any, ArgKind::Any, ArgKind::Any, ArgKind::Any, ArgKind::Any, old(r).remaining()) matches Err(se) && se == e@,
            },
    {
        let arg1 = crate::term::decode_term_arg(r)?;
        let arg2 = crate::term::decode_term_arg(r)?;
        let arg3 = crate::term::decode_term_arg(r)?;
        let arg4 = crate::term::decode_term_arg(r)?;
        let arg5 = crate::term::decode_term_arg(r)?;
        Ok(BsPutFloat { arg1, arg2, arg3, arg4, arg5 })
    }

    #[verifier::rlimit(100)]
    pub(crate) fn encode_operands(&self, out: &mut Vec<u8>) -> (res: Result<(), EncodeError>)
        ensures
            res is Ok,
            final(out)@ == old(out)@ + self.enc(),
    {
        out.push(91);
        self.arg1.encode(out)?;
        self.arg2.encode(out)?;
        self.arg3.encode(out)?;
        self.arg4.encode(out)?;
        self.arg5.encode(out)?;
        proof {
            assert(out@ =~= old(out)@ + self.enc());
        }
        Ok(())
    }
}

#[derive(Debug, PartialEq)]
pub struct BsPutString {
    pub arg1: Term,
    pub arg2: Term,
}

impl Opcode for BsPutString {
    const CODE: u8 = 92;
}

impl BsPutString {
    /// The operand views of this instruction, in wire order.
    pub open spec fn args(&self) -> Seq<TermV> {
        seq![
            self.arg1@,
            self.arg2@,
        ]
    }

    /// The canonical byte string of this instruction.
    pub open spec fn enc(&self) -> Seq<u8> {
        seq![92u8] + wire::enc_termv(self.arg1@) + wire::enc_termv(self.arg2@)
    }

    pub(crate) fn decode_operands(r: &mut Reader<'_>) -> (res: Result<BsPutString, DecodeError>)
        ensures
            match res {
                Ok(v) => chain2(ArgKind::Any, ArgKind::Any, old(r).remaining()) matches Ok((args, n)) && args == v.args()
                    && n <= old(r).remaining().len() && final(r).remaining() == old(r).remaining().skip(n as int),
                Err(e) => chain2(ArgKind::Any, ArgKind::Any, old(r).remaining()) matches Err(se) && se == e@,
            },
    {
        let arg1 = crate::term::decode_term_arg(r)?;
        let arg2 = crate::term::decode_term_arg(r)?;
        Ok(BsPutString { arg1, arg2 })
    }

    pub(crate) fn encode_operands(&self, out: &mut Vec<u8>) -> (res: Result<(), EncodeError>)
        ensures
            res is Ok,
            final(out)@ == old(out)@ + self.enc(),
    {
        out.push(92);
        self.arg1.encode(out)?;
        self.arg2.encode(out)?;
        proof {
            assert(out@ =~= old(out)@ + self.enc());
        }
        Ok(())
    }
}

#[derive(Debug, PartialEq)]
pub struct BsNeedBuf {
    pub arg1: Term,
}

impl Opcode for BsNeedBuf {
    const CODE: u8 = 93;
}

impl BsNeedBuf {
    /// The operand views of this instruction, in wire order.
    pub open spec fn args(&self) -> Seq<TermV> {
        seq![
            self.arg1@,
        ]
    }

    /// The canonical byte string of this instruction.
    pub open spec fn enc(&self) -> Seq<u8> {
        seq![93u8] + wire::enc_termv(self.arg1@)
    }

    pub(crate) fn decode_operands(r: &mut Reader<'_>) -> (res: Result<BsNeedBuf, DecodeError>)
        ensures
            match res {
                Ok(v) => chain1(ArgKind::Any, old(r).remaining()) matches Ok((args, n)) && args == v.args()
                    && n <= old(r).remaining().len() && final(r).remaining() == old(r).remaining().skip(n as int),
                Err(e) => chain1(ArgKind::Any, old(r).remaining()) matches Err(se) && se == e@,
            },
    {
        let arg1 = crate::term::decode_term_arg(r)?;
        Ok(BsNeedBuf { arg1 })
    }

    pub(crate) fn encode_operands(&self, out: &mut Vec<u8>) -> (res: Result<(), EncodeError>)
        ensures
            res is Ok,
            final(out)@ == old(out)@ + self.enc(),
    {
        out.push(93);
        self.arg1.encode(out)?;
        proof {
            assert(out@ =~= old(out)@ + self.enc());
        }
        Ok(())
    }
}

#[derive(Debug, PartialEq)]
pub struct Fclearerror {}

impl Opcode for Fclearerror {
    const CODE: u8 = 94;
}

impl Fclearerror {
    /// The operand views of this instruction, in wire order.
    pub open spec fn args(&self) -> Seq<TermV> {
        Seq::empty()
    }

    /// The canonical byte string of this instruction.
    pub open spec fn enc(&self) -> Seq<u8> {
        seq![94u8]
    }

    pub(crate) fn decode_operands(r: &mut Reader<'_>) -> (res: Result<Fclearerror, DecodeError>)
        ensures
            match res {
                Ok(v) => chain0(old(r).remaining()) matches Ok((args, n)) && args == v.args()
                    && n <= old(r).remaining().len() && final(r).remaining() == old(r).remaining().skip(n as int),
                Err(e) => chain0(old(r).remaining()) matches Err(se) && se == e@,
            },
    {
        proof {
            assert(old(r).remaining().skip(0) =~= old(r).remaining());
        }
        Ok(Fclearerror {  })
    }

    pub(crate) fn encode_operands(&self, out: &mut Vec<u8>) -> (res: Result<(), EncodeError>)
        ensures
            res is Ok,
            final(out)@ == old(out)@ + self.enc(),
    {
        out.push(94);
        proof {
            assert(out@ =~= old(out)@ + self.enc());
        }
        Ok(())
    }
}

#[derive(Debug, PartialEq)]
pub struct Fcheckerror {
    pub arg1: Term,
}

impl Opcode for Fcheckerror {
    const CODE: u8 = 95;
}

impl Fcheckerror {
    /// The operand views of this instruction, in wire order.
    pub open spec fn args(&self) -> Seq<TermV> {
        seq![
            self.arg1@,
        ]
    }

    /// The canonical byte string of this instruction.
    pub open spec fn enc(&self) -> Seq<u8> {
        seq![95u8] + wire::enc_termv(self.arg1@)
    }

    pub(crate) fn decode_operands(r: &mut Reader<'_>) -> (res: Result<Fcheckerror, DecodeError>)
        ensures
            match res {
                Ok(v) => chain1(ArgKind::Any, old(r).remaining()) matches Ok((args, n)) && args == v.args()
                    && n <= old(r).remaining().len() && final(r).remaining() == old(r).remaining().skip(n as int),
                Err(e) => chain1(ArgKind::Any, old(r).remaining()) matches Err(se) && se == e@,
            },
    {
        let arg1 = crate::term::decode_term_arg(r)?;
        Ok(Fcheckerror { arg1 })
    }

    pub(crate) fn encode_operands(&self, out: &mut Vec<u8>) -> (res: Result<(), EncodeError>)
        ensures
            res is Ok,
            final(out)@ == old(out)@ + self.enc(),
    {
        out.push(95);
        self.arg1.encode(out)?;
        proof {
            assert(out@ =~= old(out)@ + self.enc());
        }
        Ok(())
    }
}

#[derive(Debug, PartialEq)]
pub struct Fmove {
    pub arg1: Term,
    pub arg2: Term,
}

impl Opcode for Fmove {
    const CODE: u8 = 96;
}

impl Fmove {
    /// The operand views of this instruction, in wire order.
    pub open spec fn args(&self) -> Seq<TermV> {
        seq![
            self.arg1@,
            self.arg2@,
        ]
    }

    /// The canonical byte string of this instruction.
    pub open spec fn enc(&self) -> Seq<u8> {
        seq![96u8] + wire::enc_termv(self.arg1@) + wire::enc_termv(self.arg2@)
    }

    pub(crate) fn decode_operands(r: &mut Reader<'_>) -> (res: Result<Fmove, DecodeError>)
        ensures
            match res {
                Ok(v) => chain2(ArgKind::Any, ArgKind::Any, old(r).remaining()) matches Ok((args, n)) && args == v.args()
                    && n <= old(r).remaining().len() && final(r).remaining() == old(r).remaining().skip(n as int),
                Err(e) => chain2(ArgKind::Any, ArgKind::Any, old(r).remaining()) matches Err(se) && se == e@,
            },
    {
        let arg1 = crate::term::decode_term_arg(r)?;
        let arg2 = crate::term::decode_term_arg(r)?;
        Ok(Fmove { arg1, arg2 })
    }

    pub(crate) fn encode_operands(&self, out: &mut Vec<u8>) -> (res: Result<(), EncodeError>)
        ensures
            res is Ok,
            final(out)@ == old(out)@ + self.enc(),
    {
        out.push(96);
        self.arg1.encode(out)?;
        self.arg2.encode(out)?;
        proof {
            assert(out@ =~= old(out)@ + self.enc());
        }
        Ok(())
    }
}

#[derive(Debug, PartialEq)]
pub struct Fconv {
    pub arg1: Term,
    pub arg2: Term,
}

impl Opcode for Fconv {
    const CODE: u8 = 97;
}

impl Fconv {
    /// The operand views of this instruction, in wire order.
    pub open spec fn args(&self) -> Seq<TermV> {
        seq![
            self.arg1@,
            self.arg2@,
        ]
    }

    /// The canonical byte string of this instruction.
    pub open spec fn enc(&self) -> Seq<u8> {
        seq![97u8] + wire::enc_termv(self.arg1@) + wire::enc_termv(self.arg2@)
    }

    pub(crate) fn decode_operands(r: &mut Reader<'_>) -> (res: Result<Fconv, DecodeError>)
        ensures
            match res {
                Ok(v) => chain2(ArgKind::Any, ArgKind::Any, old(r).remaining()) matches Ok((args, n)) && args == v.args()
                    && n <= old(r).remaining().len() && final(r).remaining() == old(r).remaining().skip(n as int),
                Err(e) => chain2(ArgKind::Any, ArgKind::Any, old(r).remaining()) matches Err(se) && se == e@,
            },
    {
        let arg1 = crate::term::decode_term_arg(r)?;
        let arg2 = crate::term::decode_term_arg(r)?;
        Ok(Fconv { arg1, arg2 })
    }

    pub(crate) fn encode_operands(&self, out: &mut Vec<u8>) -> (res: Result<(), EncodeError>)
        ensures
            res is Ok,
            final(out)@ == old(out)@ + self.enc(),
    {
        out.push(97);
        self.arg1.encode(out)?;
        self.arg2.encode(out)?;
        proof {
            assert(out@ =~= old(out)@ + self.enc());
        }
        Ok(())
    }
}

#[derive(Debug, PartialEq)]
pub struct Fadd {
    pub arg1: Term,
    pub arg2: Term,
    pub arg3: Term,
    pub arg4: Term,
}

impl Opcode for Fadd {
    const CODE: u8 = 98;
}

impl Fadd {
    /// The operand views of this instruction, in wire order.
    pub open spec fn args(&self) -> Seq<TermV> {
        seq![
            self.arg1@,
            self.arg2@,
            self.arg3@,
            self.arg4@,
        ]
    }

    /// The canonical byte string of this instruction.
    pub open spec fn enc(&self) -> Seq<u8> {
        seq![98u8] + wire::enc_termv(self.arg1@) + wire::enc_termv(self.arg2@) + wire::enc_termv(self.arg3@) + wire::enc_termv(self.arg4@)
    }

    pub(crate) fn decode_operands(r: &mut Reader<'_>) -> (res: Result<Fadd, DecodeError>)
        ensures
            match res {
                Ok(v) => chain4(ArgKind::Any, ArgKind::Any, ArgKind::Any, ArgKind::Any, old(r).remaining()) matches Ok((args, n)) && args == v.args()
                    && n <= old(r).remaining().len() && final(r).remaining() == old(r).remaining().skip(n as int),
                Err(e) => chain4(ArgKind::Any, ArgKind::Any, ArgKind::Any, ArgKind::Any, old(r).remaining()) matches Err(se) && se == e@,
            },
    {
        let arg1 = crate::term::decode_term_arg(r)?;
        let arg2 = crate::term::decode_term_arg(r)?;
        let arg3 = crate::term::decode_term_arg(r)?;
        let arg4 = crate::term::decode_term_arg(r)?;
        Ok(Fadd { arg1, arg2, arg3, arg4 })
    }

    pub(crate) fn encode_operands(&self, out: &mut Vec<u8>) -> (res: Result<(), EncodeError>)
        ensures
            res is Ok,
            final(out)@ == old(out)@ + self.enc(),
    {
        out.push(98);
        self.arg1.encode(out)?;
        self.arg2.encode(out)?;
        self.arg3.encode(out)?;
        self.arg4.encode(out)?;
        proof {
            assert(out@ =~= old(out)@ + self.enc());
        }
        Ok(())
    }
}

#[derive(Debug, PartialEq)]
pub struct Fsub {
    pub arg1: Term,
    pub arg2: Term,
    pub arg3: Term,
    pub arg4: Term,
}

impl Opcode for Fsub {
    const CODE: u8 = 99;
}

impl Fsub {
    /// The operand views of this instruction, in wire order.
    pub open spec fn args(&self) -> Seq<TermV> {
        seq![
            self.arg1@,
            self.arg2@,
            self.arg3@,
            self.arg4@,
        ]
    }

    /// The canonical byte string of this instruction.
    pub open spec fn enc(&self) -> Seq<u8> {
        seq![99u8] + wire::enc_termv(self.arg1@) + wire::enc_termv(self.arg2@) + wire::enc_termv(self.arg3@) + wire::enc_termv(self.arg4@)
    }

    pub(crate) fn decode_operands(r: &mut Reader<'_>) -> (res: Result<Fsub, DecodeError>)
        ensures
            match res {
                Ok(v) => chain4(ArgKind::Any, ArgKind::Any, ArgKind::Any, ArgKind::Any, old(r).remaining()) matches Ok((args, n)) && args == v.args()
                    && n <= old(r).remaining().len() && final(r).remaining() == old(r).remaining().skip(n as int),
                Err(e) => chain4(ArgKind::Any, ArgKind::Any, ArgKind::Any, ArgKind::Any, old(r).remaining()) matches Err(se) && se == e@,
            },
    {
        let arg1 = crate::term::decode_term_arg(r)?;
        let arg2 = crate::term::decode_term_arg(r)?;
        let arg3 = crate::term::decode_term_arg(r)?;
        let arg4 = crate::term::decode_term_arg(r)?;
        Ok(Fsub { arg1, arg2, arg3, arg4 })
    }

    pub(crate) fn encode_operands(&self, out: &mut Vec<u8>) -> (res: Result<(), EncodeError>)
        ensures
            res is Ok,
            final(out)@ == old(out)@ + self.enc(),
    {
        out.push(99);
        self.arg1.encode(out)?;
        self.arg2.encode(out)?;
        self.arg3.encode(out)?;
        self.arg4.encode(out)?;
        proof {
            assert(out@ =~= old(out)@ + self.enc());
        }
        Ok(())
    }
}

#[derive(Debug, PartialEq)]
pub struct Fmul {
    pub arg1: Term,
    pub arg2: Term,
    pub arg3: Term,
    pub arg4: Term,
}

impl Opcode for Fmul {
    const CODE: u8 = 100;
}

impl Fmul {
    /// The operand views of this instruction, in wire order.
    pub open spec fn args(&self) -> Seq<TermV> {
        seq![
            self.arg1@,
            self.arg2@,
            self.arg3@,
            self.arg4@,
        ]
    }

    /// The canonical byte string of this instruction.
    pub open spec fn enc(&self) -> Seq<u8> {
        seq![100u8] + wire::enc_termv(self.arg1@) + wire::enc_termv(self.arg2@) + wire::enc_termv(self.arg3@) + wire::enc_termv(self.arg4@)
    }

    pub(crate) fn decode_operands(r: &mut Reader<'_>) -> (res: Result<Fmul, DecodeError>)
        ensures
            match res {
                Ok(v) => chain4(ArgKind::Any, ArgKind::Any, ArgKind::Any, ArgKind::Any, old(r).remaining()) matches Ok((args, n)) && args == v.args()
                    && n <= old(r).remaining().len() && final(r).remaining() == old(r).remaining().skip(n as int),
                Err(e) => chain4(ArgKind::Any, ArgKind::Any, ArgKind::Any, ArgKind::Any, old(r).remaining()) matches Err(se) && se == e@,
            },
    {
        let arg1 = crate::term::decode_term_arg(r)?;
        let arg2 = crate::term::decode_term_arg(r)?;
        let arg3 = crate::term::decode_term_arg(r)?;
        let arg4 = crate::term::decode_term_arg(r)?;
        Ok(Fmul { arg1, arg2, arg3, arg4 })
    }

    pub(crate) fn encode_operands(&self, out: &mut Vec<u8>) -> (res: Result<(), EncodeError>)
        ensures
            res is Ok,
            final(out)@ == old(out)@ + self.enc(),
    {
        out.push(100);
        self.arg1.encode(out)?;
        self.arg2.encode(out)?;
        self.arg3.encode(out)?;
        self.arg4.encode(out)?;
        proof {
            assert(out@ =~= old(out)@ + self.enc());
        }
        Ok(())
    }
}

#[derive(Debug, PartialEq)]
pub struct Fdiv {
    pub arg1: Term,
    pub arg2: Term,
    pub arg3: Term,
    pub arg4: Term,
}

impl Opcode for Fdiv {
    const CODE: u8 = 101;
}

impl Fdiv {
    /// The operand views of this instruction, in wire order.
    pub open spec fn args(&self) -> Seq<TermV> {
        seq![
            self.arg1@,
            self.arg2@,
            self.arg3@,
            self.arg4@,
        ]
    }

    /// The canonical byte string of this instruction.
    pub open spec fn enc(&self) -> Seq<u8> {
        seq![101u8] + wire::enc_termv(self.arg1@) + wire::enc_termv(self.arg2@) + wire::enc_termv(self.arg3@) + wire::enc_termv(self.arg4@)
    }

    pub(crate) fn decode_operands(r: &mut Reader<'_>) -> (res: Result<Fdiv, DecodeError>)
        ensures
            match res {
                Ok(v) => chain4(ArgKind::Any, ArgKind::Any, ArgKind::Any, ArgKind::Any, old(r).remaining()) matches Ok((args, n)) && args == v.args()
                    && n <= old(r).remaining().len() && final(r).remaining() == old(r).remaining().skip(n as int),
                Err(e) => chain4(ArgKind::Any, ArgKind::Any, ArgKind::Any, ArgKind::Any, old(r).remaining()) matches Err(se) && se == e@,
            },
    {
        let arg1 = crate::term::decode_term_arg(r)?;
        let arg2 = crate::term::decode_term_arg(r)?;
        let arg3 = crate::term::decode_term_arg(r)?;
        let arg4 = crate::term::decode_term_arg(r)?;
        Ok(Fdiv { arg1, arg2, arg3, arg4 })
    }

    pub(crate) fn encode_operands(&self, out: &mut Vec<u8>) -> (res: Result<(), EncodeError>)
        ensures
            res is Ok,
            final(out)@ == old(out)@ + self.enc(),
    {
        out.push(101);
        self.arg1.encode(out)?;
        self.arg2.encode(out)?;
        self.arg3.encode(out)?;
        self.arg4.encode(out)?;
        proof {
            assert(out@ =~= old(out)@ + self.enc());
        }
        Ok(())
    }
}

#[derive(Debug, PartialEq)]
pub struct Fnegate {
    pub arg1: Term,
    pub arg2: Term,
    pub arg3: Term,
}

impl Opcode for Fnegate {
    const CODE: u8 = 102;
}

impl Fnegate {
    /// The operand views of this instruction, in wire order.
    pub open spec fn args(&self) -> Seq<TermV> {
        seq![
            self.arg1@,
            self.arg2@,
            self.arg3@,
        ]
    }

    /// The canonical byte string of this instruction.
    pub open spec fn enc(&self) -> Seq<u8> {
        seq![102u8] + wire::enc_termv(self.arg1@) + wire::enc_termv(self.arg2@) + wire::enc_termv(self.arg3@)
    }

    pub(crate) fn decode_operands(r: &mut Reader<'_>) -> (res: Result<Fnegate, DecodeError>)
        ensures
            match res {
                Ok(v) => chain3(ArgKind::Any, ArgKind::Any, ArgKind::Any, old(r).remaining()) matches Ok((args, n)) && args == v.args()
                    && n <= old(r).remaining().len() && final(r).remaining() == old(r).remaining().skip(n as int),
                Err(e) => chain3(ArgKind::Any, ArgKind::Any, ArgKind::Any, old(r).remaining()) matches Err(se) && se == e@,
            },
    {
        let arg1 = crate::term::decode_term_arg(r)?;
        let arg2 = crate::term::decode_term_arg(r)?;
        let arg3 = crate::term::decode_term_arg(r)?;
        Ok(Fnegate { arg1, arg2, arg3 })
    }

    pub(crate) fn encode_operands(&self, out: &mut Vec<u8>) -> (res: Result<(), EncodeError>)
        ensures
            res is Ok,
            final(out)@ == old(out)@ + self.enc(),
    {
        out.push(102);
        self.arg1.encode(out)?;
        self.arg2.encode(out)?;
        self.arg3.encode(out)?;
        proof {
            assert(out@ =~= old(out)@ + self.enc());
        }
        Ok(())
    }
}

#[derive(Debug, PartialEq)]
pub struct MakeFun2 {
    pub arg1: Term,
}

impl Opcode for MakeFun2 {
    const CODE: u8 = 103;
}

impl MakeFun2 {
    /// The operand views of this instruction, in wire order.
    pub open spec fn args(&self) -> Seq<TermV> {
        seq![
            self.arg1@,
        ]
    }

    /// The canonical byte string of this instruction.
    pub open spec fn enc(&self) -> Seq<u8> {
        seq![103u8] + wire::enc_termv(self.arg1@)
    }

    pub(crate) fn decode_operands(r: &mut Reader<'_>) -> (res: Result<MakeFun2, DecodeError>)
        ensures
            match res {
                Ok(v) => chain1(ArgKind::Any, old(r).remaining()) matches Ok((args, n)) && args == v.args()
                    && n <= old(r).remaining().len() && final(r).remaining() == old(r).remaining().skip(n as int),
                Err(e) => chain1(ArgKind::Any, old(r).remaining()) matches Err(se) && se == e@,
            },
    {
        let arg1 = crate::term::decode_term_arg(r)?;
        Ok(MakeFun2 { arg1 })
    }

    pub(crate) fn encode_operands(&self, out: &mut Vec<u8>) -> (res: Result<(), EncodeError>)
        ensures
            res is Ok,
            final(out)@ == old(out)@ + self.enc(),
    {
        out.push(103);
        self.arg1.encode(out)?;
        proof {
            assert(out@ =~= old(out)@ + self.enc());
        }
        Ok(())
    }
}

#[derive(Debug, PartialEq)]
pub struct Try {
    pub register: Register,
    pub label: crate::term::Label,
}

impl Opcode for Try {
    const CODE: u8 = 104;
}

impl Try {
    /// The operand views of this instruction, in wire order.
    pub open spec fn args(&self) -> Seq<TermV> {
        seq![
            self.register@,
            TermV::Label(self.label.value as int),
        ]
    }

    /// The canonical byte string of this instruction.
    pub open spec fn enc(&self) -> Seq<u8> {
        seq![104u8] + wire::enc_termv(self.register@) + wire::enc_termv(TermV::Label(self.label.value as int))
    }

    pub(crate) fn decode_operands(r: &mut Reader<'_>) -> (res: Result<Try, DecodeError>)
        ensures
            match res {
                Ok(v) => chain2(ArgKind::Reg, ArgKind::Lbl, old(r).remaining()) matches Ok((args, n)) && args == v.args()
                    && n <= old(r).remaining().len() && final(r).remaining() == old(r).remaining().skip(n as int),
                Err(e) => chain2(ArgKind::Reg, ArgKind::Lbl, old(r).remaining()) matches Err(se) && se == e@,
            },
    {
        let register = Register::decode(r)?;
        let label = crate::term::Label::decode(r)?;
        Ok(Try { register, label })
    }

    pub(crate) fn encode_operands(&self, out: &mut Vec<u8>) -> (res: Result<(), EncodeError>)
        ensures
            res is Ok,
            final(out)@ == old(out)@ + self.enc(),
    {
        out.push(104);
        self.register.encode(out)?;
        self.label.encode(out)?;
        proof {
            assert(out@ =~= old(out)@ + self.enc());
        }
        Ok(())
    }
}

#[derive(Debug, PartialEq)]
pub struct TryEnd {
    pub register: Register,
}

impl Opcode for TryEnd {
    const CODE: u8 = 105;
}

impl TryEnd {
    /// The operand views of this instruction, in wire order.
    pub open spec fn args(&self) -> Seq<TermV> {
        seq![
            self.register@,
        ]
    }

    /// The canonical byte string of this instruction.
    pub open spec fn enc(&self) -> Seq<u8> {
        seq![105u8] + wire::enc_termv(self.register@)
    }

    pub(crate) fn decode_operands(r: &mut Reader<'_>) -> (res: Result<TryEnd, DecodeError>)
        ensures
            match res {
                Ok(v) => chain1(ArgKind::Reg, old(r).remaining()) matches Ok((args, n)) && args == v.args()
                    && n <= old(r).remaining().len() && final(r).remaining() == old(r).remaining().skip(n as int),
                Err(e) => chain1(ArgKind::Reg, old(r).remaining()) matches Err(se) && se == e@,
            },
    {
        let register = Register::decode(r)?;
        Ok(TryEnd { register })
    }

    pub(crate) fn encode_operands(&self, out: &mut Vec<u8>) -> (res: Result<(), EncodeError>)
        ensures
            res is Ok,
            final(out)@ == old(out)@ + self.enc(),
    {
        out.push(105);
        self.register.encode(out)?;
        proof {
            assert(out@ =~= old(out)@ + self.enc());
        }
        Ok(())
    }
}

#[derive(Debug, PartialEq)]
pub struct TryCase {
    pub register: Register,
}

impl Opcode for TryCase {
    const CODE: u8 = 106;
}

impl TryCase {
    /// The operand views of this instruction, in wire order.
    pub open spec fn args(&self) -> Seq<TermV> {
        seq![
            self.register@,
        ]
    }

    /// The canonical byte string of this instruction.
    pub open spec fn enc(&self) -> Seq<u8> {
        seq![106u8] + wire::enc_termv(self.register@)
    }

    pub(crate) fn decode_operands(r: &mut Reader<'_>) -> (res: Result<TryCase, DecodeError>)
        ensures
            match res {
                Ok(v) => chain1(ArgKind::Reg, old(r).remaining()) matches Ok((args, n)) && args == v.args()
                    && n <= old(r).remaining().len() && final(r).remaining() == old(r).remaining().skip(n as int),
                Err(e) => chain1(ArgKind::Reg, old(r).remaining()) matches Err(se) && se == e@,
            },
    {
        let register = Register::decode(r)?;
        Ok(TryCase { register })
    }

    pub(crate) fn encode_operands(&self, out: &mut Vec<u8>) -> (res: Result<(), EncodeError>)
        ensures
            res is Ok,
            final(out)@ == old(out)@ + self.enc(),
    {
        out.push(106);
        self.register.encode(out)?;
        proof {
            assert(out@ =~= old(out)@ + self.enc());
        }
        Ok(())
    }
}

#[derive(Debug, PartialEq)]
pub struct TryCaseEnd {
    pub arg1: Term,
}

impl Opcode for TryCaseEnd {
    const CODE: u8 = 107;
}

impl TryCaseEnd {
    /// The operand views of this instruction, in wire order.
    pub open spec fn args(&self) -> Seq<TermV> {
        seq![
            self.arg1@,
        ]
    }

    /// The canonical byte string of this instruction.
    pub open spec fn enc(&self) -> Seq<u8> {
        seq![107u8] + wire::enc_termv(self.arg1@)
    }

    pub(crate) fn decode_operands(r: &mut Reader<'_>) -> (res: Result<TryCaseEnd, DecodeError>)
        ensures
            match res {
                Ok(v) => chain1(ArgKind::Any, old(r).remaining()) matches Ok((args, n)) && args == v.args()
                    && n <= old(r).remaining().len() && final(r).remaining() == old(r).remaining().skip(n as int),
                Err(e) => chain1(ArgKind::Any, old(r).remaining()) matches Err(se) && se == e@,
            },
    {
        let arg1 = crate::term::decode_term_arg(r)?;
        Ok(TryCaseEnd { arg1 })
    }

    pub(crate) fn encode_operands(&self, out: &mut Vec<u8>) -> (res: Result<(), EncodeError>)
        ensures
            res is Ok,
            final(out)@ == old(out)@ + self.enc(),
    {
        out.push(107);
        self.arg1.encode(out)?;
        proof {
            assert(out@ =~= old(out)@ + self.enc());
        }
        Ok(())
    }
}

#[derive(Debug, PartialEq)]
pub struct Raise {
    pub stacktrace: Term,
    pub exc_value: Term,
}

impl Opcode for Raise {
    const CODE: u8 = 108;
}

impl Raise {
    /// The operand views of this instruction, in wire order.
    pub open spec fn args(&self) -> Seq<TermV> {
        seq![
            self.stacktrace@,
            self.exc_value@,
        ]
    }

    /// The canonical byte string of this instruction.
    pub open spec fn enc(&self) -> Seq<u8> {
        seq![108u8] + wire::enc_termv(self.stacktrace@) + wire::enc_termv(self.exc_value@)
    }

    pub(crate) fn decode_operands(r: &mut Reader<'_>) -> (res: Result<Raise, DecodeError>)
        ensures
            match res {
                Ok(v) => chain2(ArgKind::Any, ArgKind::Any, old(r).remaining()) matches Ok((args, n)) && args == v.args()
                    && n <= old(r).remaining().len() && final(r).remaining() == old(r).remaining().skip(n as int),
                Err(e) => chain2(ArgKind::Any, ArgKind::Any, old(r).remaining()) matches Err(se) && se == e@,
            },
    {
        let stacktrace = crate::term::decode_term_arg(r)?;
        let exc_value = crate::term::decode_term_arg(r)?;
        Ok(Raise { stacktrace, exc_value })
    }

    pub(crate) fn encode_operands(&self, out: &mut Vec<u8>) -> (res: Result<(), EncodeError>)
        ensures
            res is Ok,
            final(out)@ == old(out)@ + self.enc(),
    {
        out.push(108);
        self.stacktrace.encode(out)?;
        self.exc_value.encode(out)?;
        proof {
            assert(out@ =~= old(out)@ + self.enc());
        }
        Ok(())
    }
}

#[derive(Debug, PartialEq)]
pub struct BsInit2 {
    pub arg1: Term,
    pub arg2: Term,
    pub arg3: Term,
    pub arg4: Term,
    pub arg5: Term,
    pub arg6: Term,
}

impl Opcode for BsInit2 {
    const CODE: u8 = 109;
}

impl BsInit2 {
    /// The operand views of this instruction, in wire order.
    pub open spec fn args(&self) -> Seq<TermV> {
        seq![
            self.arg1@,
            self.arg2@,
            self.arg3@,
            self.arg4@,
            self.arg5@,
            self.arg6@,
        ]
    }

    /// The canonical byte string of this instruction.
    pub open spec fn enc(&self) -> Seq<u8> {
        seq![109u8] + wire::enc_termv(self.arg1@) + wire::enc_termv(self.arg2@) + wire::enc_termv(self.arg3@) + wire::enc_termv(self.arg4@) + wire::enc_termv(self.arg5@) + wire::enc_termv(self.arg6@)
    }

    #[verifier::rlimit(100)]
    pub(crate) fn decode_operands(r: &mut Reader<'_>) -> (res: Result<BsInit2, DecodeError>)
        ensures
            match res {
                Ok(v) => chain6(ArgKind::Any, ArgKind::Any, ArgKind::Any, ArgKind::Any, ArgKind::Any, ArgKind::Any, old(r).remaining()) matches Ok((args, n)) && args == v.args()
                    && n <= old(r).remaining().len() && final(r).remaining() == old(r).remaining().skip(n as int),
                Err(e) => chain6(ArgKind::Any, ArgKind::Any, ArgKind::Any, ArgKind::Any, ArgKind::Any, ArgKind::Any, old(r).remaining()) matches Err(se) && se == e@,
            },
    {
        let arg1 = crate::term::decode_term_arg(r)?;
        let arg2 = crate::term::decode_term_arg(r)?;
        let arg3 = crate::term::decode_term_arg(r)?;
        let arg4 = crate::term::decode_term_arg(r)?;
        let arg5 = crate::term::decode_term_arg(r)?;
        let arg6 = crate::term::decode_term_arg(r)?;
        Ok(BsInit2 { arg1, arg2, arg3, arg4, arg5, arg6 })
    }

    #[verifier::rlimit(100)]
    pub(crate) fn encode_operands(&self, out: &mut Vec<u8>) -> (res: Result<(), EncodeError>)
        ensures
            res is Ok,
            final(out)@ == old(out)@ + self.enc(),
    {
        out.push(109);
        self.arg1.encode(out)?;
        self.arg2.encode(out)?;
        self.arg3.encode(out)?;
        self.arg4.encode(out)?;
        self.arg5.encode(out)?;
        self.arg6.encode(out)?;
        proof {
            assert(out@ =~= old(out)@ + self.enc());
        }
        Ok(())
    }
}

/// Deprecated.
#[derive(Debug, PartialEq)]
pub struct BsBitsToBytes {
    pub arg1: Term,
    pub arg2: Term,
    pub arg3: Term,
}

impl Opcode for BsBitsToBytes {
    const CODE: u8 = 110;
}

impl BsBitsToBytes {
    /// The operand views of this instruction, in wire order.
    pub open spec fn args(&self) -> Seq<TermV> {
        seq![
            self.arg1@,
            self.arg2@,
            self.arg3@,
        ]
    }

    /// The canonical byte string of this instruction.
    pub open spec fn enc(&self) -> Seq<u8> {
        seq![110u8] + wire::enc_termv(self.arg1@) + wire::enc_termv(self.arg2@) + wire::enc_termv(self.arg3@)
    }

    pub(crate) fn decode_operands(r: &mut Reader<'_>) -> (res: Result<BsBitsToBytes, DecodeError>)
        ensures
            match res {
                Ok(v) => chain3(ArgKind::Any, ArgKind::Any, ArgKind::Any, old(r).remaining()) matches Ok((args, n)) && args == v.args()
                    && n <= old(r).remaining().len() && final(r).remaining() == old(r).remaining().skip(n as int),
                Err(e) => chain3(ArgKind::Any, ArgKind::Any, ArgKind::Any, old(r).remaining()) matches Err(se) && se == e@,
            },
    {
        let arg1 = crate::term::decode_term_arg(r)?;
        let arg2 = crate::term::decode_term_arg(r)?;
        let arg3 = crate::term::decode_term_arg(r)?;
        Ok(BsBitsToBytes { arg1, arg2, arg3 })
    }

    pub(crate) fn encode_operands(&self, out: &mut Vec<u8>) -> (res: Result<(), EncodeError>)
        ensures
            res is Ok,
            final(out)@ == old(out)@ + self.enc(),
    {
        out.push(110);
        self.arg1.encode(out)?;
        self.arg2.encode(out)?;
        self.arg3.encode(out)?;
        proof {
            assert(out@ =~= old(out)@ + self.enc());
        }
        Ok(())
    }
}

#[derive(Debug, PartialEq)]
pub struct BsAdd {
    pub arg1: Term,
    pub arg2: Term,
    pub arg3: Term,
    pub arg4: Term,
    pub arg5: Term,
}

impl Opcode for BsAdd {
    const CODE: u8 = 111;
}

impl BsAdd {
    /// The operand views of this instruction, in wire order.
    pub open spec fn args(&self) -> Seq<TermV> {
        seq![
            self.arg1@,
            self.arg2@,
            self.arg3@,
            self.arg4@,
            self.arg5@,
        ]
    }

    /// The canonical byte string of this instruction.
    pub open spec fn enc(&self) -> Seq<u8> {
        seq![111u8] + wire::enc_termv(self.arg1@) + wire::enc_termv(self.arg2@) + wire::enc_termv(self.arg3@) + wire::enc_termv(self.arg4@) + wire::enc_termv(self.arg5@)
    }

    #[verifier::rlimit(100)]
    pub(crate) fn decode_operands(r: &mut Reader<'_>) -> (res: Result<BsAdd, DecodeError>)
        ensures
            match res {
                Ok(v) => chain5(ArgKind::Any, ArgKind::Any, ArgKind::Any, ArgKind::Any, ArgKind::Any, old(r).remaining()) matches Ok((args, n)) && args == v.args()
                    && n <= old(r).remaining().len() && final(r).remaining() == old(r).remaining().skip(n as int),
                Err(e) => chain5(ArgKind::Any, ArgKind::Any, ArgKind::Any, ArgKind::Any, ArgKind::Any, old(r).remaining()) matches Err(se) && se == e@,
            },
    {
        let arg1 = crate::term::decode_term_arg(r)?;
        let arg2 = crate::term::decode_term_arg(r)?;
        let arg3 = crate::term::decode_term_arg(r)?;
        let arg4 = crate::term::decode_term_arg(r)?;
        let arg5 = crate::term::decode_term_arg(r)?;
        Ok(BsAdd { arg1, arg2, arg3, arg4, arg5 })
    }

    #[verifier::rlimit(100)]
    pub(crate) fn encode_operands(&self, out: &mut Vec<u8>) -> (res: Result<(), EncodeError>)
        ensures
            res is Ok,
            final(out)@ == old(out)@ + self.enc(),
    {
        out.push(111);
        self.arg1.encode(out)?;
        self.arg2.encode(out)?;
        self.arg3.encode(out)?;
        self.arg4.encode(out)?;
        self.arg5.encode(out)?;
        proof {
            assert(out@ =~= old(out)@ + self.enc());
        }
        Ok(())
    }
}

#[derive(Debug, PartialEq)]
pub struct Apply {
    pub arg1: Term,
}

impl Opcode for Apply {
    const CODE: u8 = 112;
}

impl Apply {
    /// The operand views of this instruction, in wire order.
    pub open spec fn args(&self) -> Seq<TermV> {
        seq![
            self.arg1@,
        ]
    }

    /// The canonical byte string of this instruction.
    pub open spec fn enc(&self) -> Seq<u8> {
        seq![112u8] + wire::enc_termv(self.arg1@)
    }

    pub(crate) fn decode_operands(r: &mut Reader<'_>) -> (res: Result<Apply, DecodeError>)
        ensures
            match res {
                Ok(v) => chain1(ArgKind::Any, old(r).remaining()) matches Ok((args, n)) && args == v.args()
                    && n <= old(r).remaining().len() && final(r).remaining() == old(r).remaining().skip(n as int),
                Err(e) => chain1(ArgKind::Any, old(r).remaining()) matches Err(se) && se == e@,
            },
    {
        let arg1 = crate::term::decode_term_arg(r)?;
        Ok(Apply { arg1 })
    }

    pub(crate) fn encode_operands(&self, out: &mut Vec<u8>) -> (res: Result<(), EncodeError>)
        ensures
            res is Ok,
            final(out)@ == old(out)@ + self.enc(),
    {
        out.push(112);
        self.arg1.encode(out)?;
        proof {
            assert(out@ =~= old(out)@ + self.enc());
        }
        Ok(())
    }
}

#[derive(Debug, PartialEq)]
pub struct ApplyLast {
    pub arg1: Term,
    pub arg2: Term,
}

impl Opcode for ApplyLast {
    const CODE: u8 = 113;
}

impl ApplyLast {
    /// The operand views of this instruction, in wire order.
    pub open spec fn args(&self) -> Seq<TermV> {
        seq![
            self.arg1@,
            self.arg2@,
        ]
    }

    /// The canonical byte string of this instruction.
    pub open spec fn enc(&self) -> Seq<u8> {
        seq![113u8] + wire::enc_termv(self.arg1@) + wire::enc_termv(self.arg2@)
    }

    pub(crate) fn decode_operands(r: &mut Reader<'_>) -> (res: Result<ApplyLast, DecodeError>)
        ensures
            match res {
                Ok(v) => chain2(ArgKind::Any, ArgKind::Any, old(r).remaining()) matches Ok((args, n)) && args == v.args()
                    && n <= old(r).remaining().len() && final(r).remaining() == old(r).remaining().skip(n as int),
                Err(e) => chain2(ArgKind::Any, ArgKind::Any, old(r).remaining()) matches Err(se) && se == e@,
            },
    {
        let arg1 = crate::term::decode_term_arg(r)?;
        let arg2 = crate::term::decode_term_arg(r)?;
        Ok(ApplyLast { arg1, arg2 })
    }

    pub(crate) fn encode_operands(&self, out: &mut Vec<u8>) -> (res: Result<(), EncodeError>)
        ensures
            res is Ok,
            final(out)@ == old(out)@ + self.enc(),
    {
        out.push(113);
        self.arg1.encode(out)?;
        self.arg2.encode(out)?;
        proof {
            assert(out@ =~= old(out)@ + self.enc());
        }
        Ok(())
    }
}

#[derive(Debug, PartialEq)]
pub struct IsBoolean {
    pub arg1: Term,
    pub arg2: Term,
}

impl Opcode for IsBoolean {
    const CODE: u8 = 114;
}

impl IsBoolean {
    /// The operand views of this instruction, in wire order.
    pub open spec fn args(&self) -> Seq<TermV> {
        seq![
            self.arg1@,
            self.arg2@,
        ]
    }

    /// The canonical byte string of this instruction.
    pub open spec fn enc(&self) -> Seq<u8> {
        seq![114u8] + wire::enc_termv(self.arg1@) + wire::enc_termv(self.arg2@)
    }

    pub(crate) fn decode_operands(r: &mut Reader<'_>) -> (res: Result<IsBoolean, DecodeError>)
        ensures
            match res {
                Ok(v) => chain2(ArgKind::Any, ArgKind::Any, old(r).remaining()) matches Ok((args, n)) && args == v.args()
                    && n <= old(r).remaining().len() && final(r).remaining() == old(r).remaining().skip(n as int),
                Err(e) => chain2(ArgKind::Any, ArgKind::Any, old(r).remaining()) matches Err(se) && se == e@,
            },
    {
        let arg1 = crate::term::decode_term_arg(r)?;
        let arg2 = crate::term::decode_term_arg(r)?;
        Ok(IsBoolean { arg1, arg2 })
    }

    pub(crate) fn encode_operands(&self, out: &mut Vec<u8>) -> (res: Result<(), EncodeError>)
        ensures
            res is Ok,
            final(out)@ == old(out)@ + self.enc(),
    {
        out.push(114);
        self.arg1.encode(out)?;
        self.arg2.encode(out)?;
        proof {
            assert(out@ =~= old(out)@ + self.enc());
        }
        Ok(())
    }
}

#[derive(Debug, PartialEq)]
pub struct IsFunction2 {
    pub arg1: Term,
    pub arg2: Term,
    pub arg3: Term,
}

impl Opcode for IsFunction2 {
    const CODE: u8 = 115;
}

impl IsFunction2 {
    /// The operand views of this instruction, in wire order.
    pub open spec fn args(&self) -> Seq<TermV> {
        seq![
            self.arg1@,
            self.arg2@,
            self.arg3@,
        ]
    }

    /// The canonical byte string of this instruction.
    pub open spec fn enc(&self) -> Seq<u8> {
        seq![115u8] + wire::enc_termv(self.arg1@) + wire::enc_termv(self.arg2@) + wire::enc_termv(self.arg3@)
    }

    pub(crate) fn decode_operands(r: &mut Reader<'_>) -> (res: Result<IsFunction2, DecodeError>)
        ensures
            match res {
                Ok(v) => chain3(ArgKind::Any, ArgKind::Any, ArgKind::Any, old(r).remaining()) matches Ok((args, n)) && args == v.args()
                    && n <= old(r).remaining().len() && final(r).remaining() == old(r).remaining().skip(n as int),
                Err(e) => chain3(ArgKind::Any, ArgKind::Any, ArgKind::Any, old(r).remaining()) matches Err(se) && se == e@,
            },
    {
        let arg1 = crate::term::decode_term_arg(r)?;
        let arg2 = crate::term::decode_term_arg(r)?;
        let arg3 = crate::term::decode_term_arg(r)?;
        Ok(IsFunction2 { arg1, arg2, arg3 })
    }

    pub(crate) fn encode_operands(&self, out: &mut Vec<u8>) -> (res: Result<(), EncodeError>)
        ensures
            res is Ok,
            final(out)@ == old(out)@ + self.enc(),
    {
        out.push(115);
        self.arg1.encode(out)?;
        self.arg2.encode(out)?;
        self.arg3.encode(out)?;
        proof {
            assert(out@ =~= old(out)@ + self.enc());
        }
        Ok(())
    }
}

#[derive(Debug, PartialEq)]
pub struct BsStartMatch2 {
    pub arg1: Term,
    pub arg2: Term,
    pub arg3: Term,
    pub arg4: Term,
    pub arg5: Term,
}

impl Opcode for BsStartMatch2 {
    const CODE: u8 = 116;
}

impl BsStartMatch2 {
    /// The operand views of this instruction, in wire order.
    pub open spec fn args(&self) -> Seq<TermV> {
        seq![
            self.arg1@,
            self.arg2@,
            self.arg3@,
            self.arg4@,
            self.arg5@,
        ]
    }

    /// The canonical byte string of this instruction.
    pub open spec fn enc(&self) -> Seq<u8> {
        seq![116u8] + wire::enc_termv(self.arg1@) + wire::enc_termv(self.arg2@) + wire::enc_termv(self.arg3@) + wire::enc_termv(self.arg4@) + wire::enc_termv(self.arg5@)
    }

    #[verifier::rlimit(100)]
    pub(crate) fn decode_operands(r: &mut Reader<'_>) -> (res: Result<BsStartMatch2, DecodeError>)
        ensures
            match res {
                Ok(v) => chain5(ArgKind::Any, ArgKind::Any, ArgKind::Any, ArgKind::Any, ArgKind::Any, old(r).remaining()) matches Ok((args, n)) && args == v.args()
                    && n <= old(r).remaining().len() && final(r).remaining() == old(r).remaining().skip(n as int),
                Err(e) => chain5(ArgKind::Any, ArgKind::Any, ArgKind::Any, ArgKind::Any, ArgKind::Any, old(r).remaining()) matches Err(se) && se == e@,
            },
    {
        let arg1 = crate::term::decode_term_arg(r)?;
        let arg2 = crate::term::decode_term_arg(r)?;
        let arg3 = crate::term::decode_term_arg(r)?;
        let arg4 = crate::term::decode_term_arg(r)?;
        let arg5 = crate::term::decode_term_arg(r)?;
        Ok(BsStartMatch2 { arg1, arg2, arg3, arg4, arg5 })
    }

    #[verifier::rlimit(100)]
    pub(crate) fn encode_operands(&self, out: &mut Vec<u8>) -> (res: Result<(), EncodeError>)
        ensures
            res is Ok,
            final(out)@ == old(out)@ + self.enc(),
    {
        out.push(116);
        self.arg1.encode(out)?;
        self.arg2.encode(out)?;
        self.arg3.encode(out)?;
        self.arg4.encode(out)?;
        self.arg5.encode(out)?;
        proof {
            assert(out@ =~= old(out)@ + self.enc());
        }
        Ok(())
    }
}

#[derive(Debug, PartialEq)]
pub struct BsGetInteger2 {
    pub arg1: Term,
    pub arg2: Term,
    pub arg3: Term,
    pub arg4: Term,
    pub arg5: Term,
    pub arg6: Term,
    pub arg7: Term,
}

impl Opcode for BsGetInteger2 {
    const CODE: u8 = 117;
}

impl BsGetInteger2 {
    /// The operand views of this instruction, in wire order.
    pub open spec fn args(&self) -> Seq<TermV> {
        seq![
            self.arg1@,
            self.arg2@,
            self.arg3@,
            self.arg4@,
            self.arg5@,
            self.arg6@,
            self.arg7@,
        ]
    }

    /// The canonical byte string of this instruction.
    pub open spec fn enc(&self) -> Seq<u8> {
        seq![117u8] + wire::enc_termv(self.arg1@) + wire::enc_termv(self.arg2@) + wire::enc_termv(self.arg3@) + wire::enc_termv(self.arg4@) + wire::enc_termv(self.arg5@) + wire::enc_termv(self.arg6@) + wire::enc_termv(self.arg7@)
    }

    #[verifier::rlimit(100)]
    pub(crate) fn decode_operands(r: &mut Reader<'_>) -> (res: Result<BsGetInteger2, DecodeError>)
        ensures
            match res {
                Ok(v) => chain7(ArgKind::Any, ArgKind::Any, ArgKind::Any, ArgKind::Any, ArgKind::Any, ArgKind::Any, ArgKind::Any, old(r).remaining()) matches Ok((args, n)) && args == v.args()
                    && n <= old(r).remaining().len() && final(r).remaining() == old(r).remaining().skip(n as int),
                Err(e) => chain7(ArgKind::Any, ArgKind::Any, ArgKind::Any, ArgKind::Any, ArgKind::Any, ArgKind::Any, ArgKind::Any, old(r).remaining()) matches Err(se) && se == e@,
            },
    {
        let arg1 = crate::term::decode_term_arg(r)?;
        let arg2 = crate::term::decode_term_arg(r)?;
        let arg3 = crate::term::decode_term_arg(r)?;
        let arg4 = crate::term::decode_term_arg(r)?;
        let arg5 = crate::term::decode_term_arg(r)?;
        let arg6 = crate::term::decode_term_arg(r)?;
        let arg7 = crate::term::decode_term_arg(r)?;
        Ok(BsGetInteger2 { arg1, arg2, arg3, arg4, arg5, arg6, arg7 })
    }

    #[verifier::rlimit(100)]
    pub(crate) fn encode_operands(&self, out: &mut Vec<u8>) -> (res: Result<(), EncodeError>)
        ensures
            res is Ok,
            final(out)@ == old(out)@ + self.enc(),
    {
        out.push(117);
        self.arg1.encode(out)?;
        self.arg2.encode(out)?;
        self.arg3.encode(out)?;
        self.arg4.encode(out)?;
        self.arg5.encode(out)?;
        self.arg6.encode(out)?;
        self.arg7.encode(out)?;
        proof {
            assert(out@ =~= old(out)@ + self.enc());
        }
        Ok(())
    }
}

#[derive(Debug, PartialEq)]
pub struct BsGetFloat2 {
    pub arg1: Term,
    pub arg2: Term,
    pub arg3: Term,
    pub arg4: Term,
    pub arg5: Term,
    pub arg6: Term,
    pub arg7: Term,
}

impl Opcode for BsGetFloat2 {
    const CODE: u8 = 118;
}

impl BsGetFloat2 {
    /// The operand views of this instruction, in wire order.
    pub open spec fn args(&self) -> Seq<TermV> {
        seq![
            self.arg1@,
            self.arg2@,
            self.arg3@,
            self.arg4@,
            self.arg5@,
            self.arg6@,
            self.arg7@,
        ]
    }

    /// The canonical byte string of this instruction.
    pub open spec fn enc(&self) -> Seq<u8> {
        seq![118u8] + wire::enc_termv(self.arg1@) + wire::enc_termv(self.arg2@) + wire::enc_termv(self.arg3@) + wire::enc_termv(self.arg4@) + wire::enc_termv(self.arg5@) + wire::enc_termv(self.arg6@) + wire::enc_termv(self.arg7@)
    }

    #[verifier::rlimit(100)]
    pub(crate) fn decode_operands(r: &mut Reader<'_>) -> (res: Result<BsGetFloat2, DecodeError>)
        ensures
            match res {
                Ok(v) => chain7(ArgKind::Any, ArgKind::Any, ArgKind::Any, ArgKind::Any, ArgKind::Any, ArgKind::Any, ArgKind::Any, old(r).remaining()) matches Ok((args, n)) && args == v.args()
                    && n <= old(r).remaining().len() && final(r).remaining() == old(r).remaining().skip(n as int),
                Err(e) => chain7(ArgKind::Any, ArgKind::Any, ArgKind::Any, ArgKind::Any, ArgKind::Any, ArgKind::Any, ArgKind::Any, old(r).remaining()) matches Err(se) && se == e@,
            },
    {
        let arg1 = crate::term::decode_term_arg(r)?;
        let arg2 = crate::term::decode_term_arg(r)?;
        let arg3 = crate::term::decode_term_arg(r)?;
        let arg4 = crate::term::decode_term_arg(r)?;
        let arg5 = crate::term::decode_term_arg(r)?;
        let arg6 = crate::term::decode_term_arg(r)?;
        let arg7 = crate::term::decode_term_arg(r)?;
        Ok(BsGetFloat2 { arg1, arg2, arg3, arg4, arg5, arg6, arg7 })
    }

    #[verifier::rlimit(100)]
    pub(crate) fn encode_operands(&self, out: &mut Vec<u8>) -> (res: Result<(), EncodeError>)
        ensures
            res is Ok,
            final(out)@ == old(out)@ + self.enc(),
    {
        out.push(118);
        self.arg1.encode(out)?;
        self.arg2.encode(out)?;
        self.arg3.encode(out)?;
        self.arg4.encode(out)?;
        self.arg5.encode(out)?;
        self.arg6.encode(out)?;
        self.arg7.encode(out)?;
        proof {
            assert(out@ =~= old(out)@ + self.enc());
        }
        Ok(())
    }
}

#[derive(Debug, PartialEq)]
pub struct BsGetBinary2 {
    pub arg1: Term,
    pub arg2: Term,
    pub arg3: Term,
    pub arg4: Term,
    pub arg5: Term,
    pub arg6: Term,
    pub arg7: Term,
}

impl Opcode for BsGetBinary2 {
    const CODE: u8 = 119;
}

impl BsGetBinary2 {
    /// The operand views of this instruction, in wire order.
    pub open spec fn args(&self) -> Seq<TermV> {
        seq![
            self.arg1@,
            self.arg2@,
            self.arg3@,
            self.arg4@,
            self.arg5@,
            self.arg6@,
            self.arg7@,
        ]
    }

    /// The canonical byte string of this instruction.
    pub open spec fn enc(&self) -> Seq<u8> {
        seq![119u8] + wire::enc_termv(self.arg1@) + wire::enc_termv(self.arg2@) + wire::enc_termv(self.arg3@) + wire::enc_termv(self.arg4@) + wire::enc_termv(self.arg5@) + wire::enc_termv(self.arg6@) + wire::enc_termv(self.arg7@)
    }

    #[verifier::rlimit(100)]
    pub(crate) fn decode_operands(r: &mut Reader<'_>) -> (res: Result<BsGetBinary2, DecodeError>)
        ensures
            match res {
                Ok(v) => chain7(ArgKind::Any, ArgKind::Any, ArgKind::Any, ArgKind::Any, ArgKind::Any, ArgKind::Any, ArgKind::Any, old(r).remaining()) matches Ok((args, n)) && args == v.args()
                    && n <= old(r).remaining().len() && final(r).remaining() == old(r).remaining().skip(n as int),
                Err(e) => chain7(ArgKind::Any, ArgKind::Any, ArgKind::Any, ArgKind::Any, ArgKind::Any, ArgKind::Any, ArgKind::Any, old(r).remaining()) matches Err(se) && se == e@,
            },
    {
        let arg1 = crate::term::decode_term_arg(r)?;
        let arg2 = crate::term::decode_term_arg(r)?;
        let arg3 = crate::term::decode_term_arg(r)?;
        let arg4 = crate::term::decode_term_arg(r)?;
        let arg5 = crate::term::decode_term_arg(r)?;
        let arg6 = crate::term::decode_term_arg(r)?;
        let arg7 = crate::term::decode_term_arg(r)?;
        Ok(BsGetBinary2 { arg1, arg2, arg3, arg4, arg5, arg6, arg7 })
    }

    #[verifier::rlimit(100)]
    pub(crate) fn encode_operands(&self, out: &mut Vec<u8>) -> (res: Result<(), EncodeError>)
        ensures
            res is Ok,
            final(out)@ == old(out)@ + self.enc(),
    {
        out.push(119);
        self.arg1.encode(out)?;
        self.arg2.encode(out)?;
        self.arg3.encode(out)?;
        self.arg4.encode(out)?;
        self.arg5.encode(out)?;
        self.arg6.encode(out)?;
        self.arg7.encode(out)?;
        proof {
            assert(out@ =~= old(out)@ + self.enc());
        }
        Ok(())
    }
}

#[derive(Debug, PartialEq)]
pub struct BsSkipBits2 {
    pub arg1: Term,
    pub arg2: Term,
    pub arg3: Term,
    pub arg4: Term,
    pub arg5: Term,
}

impl Opcode for BsSkipBits2 {
    const CODE: u8 = 120;
}

impl BsSkipBits2 {
    /// The operand views of this instruction, in wire order.
    pub open spec fn args(&self) -> Seq<TermV> {
        seq![
            self.arg1@,
            self.arg2@,
            self.arg3@,
            self.arg4@,
            self.arg5@,
        ]
    }

    /// The canonical byte string of this instruction.
    pub open spec fn enc(&self) -> Seq<u8> {
        seq![120u8] + wire::enc_termv(self.arg1@) + wire::enc_termv(self.arg2@) + wire::enc_termv(self.arg3@) + wire::enc_termv(self.arg4@) + wire::enc_termv(self.arg5@)
    }

    #[verifier::rlimit(100)]
    pub(crate) fn decode_operands(r: &mut Reader<'_>) -> (res: Result<BsSkipBits2, DecodeError>)
        ensures
            match res {
                Ok(v) => chain5(ArgKind::Any, ArgKind::Any, ArgKind::Any, ArgKind::Any, ArgKind::Any, old(r).remaining()) matches Ok((args, n)) && args == v.args()
                    && n <= old(r).remaining().len() && final(r).remaining() == old(r).remaining().skip(n as int),
                Err(e) => chain5(ArgKind::Any, ArgKind::Any, ArgKind::Any, ArgKind::Any, ArgKind::Any, old(r).remaining()) matches Err(se) && se == e@,
            },
    {
        let arg1 = crate::term::decode_term_arg(r)?;
        let arg2 = crate::term::decode_term_arg(r)?;
        let arg3 = crate::term::decode_term_arg(r)?;
        let arg4 = crate::term::decode_term_arg(r)?;
        let arg5 = crate::term::decode_term_arg(r)?;
        Ok(BsSkipBits2 { arg1, arg2, arg3, arg4, arg5 })
    }

    #[verifier::rlimit(100)]
    pub(crate) fn encode_operands(&self, out: &mut Vec<u8>) -> (res: Result<(), EncodeError>)
        ensures
            res is Ok,
            final(out)@ == old(out)@ + self.enc(),
    {
        out.push(120);
        self.arg1.encode(out)?;
        self.arg2.encode(out)?;
        self.arg3.encode(out)?;
        self.arg4.encode(out)?;
        self.arg5.encode(out)?;
        proof {
            assert(out@ =~= old(out)@ + self.enc());
        }
        Ok(())
    }
}

#[derive(Debug, PartialEq)]
pub struct BsTestTail2 {
    pub arg1: Term,
    pub arg2: Term,
    pub arg3: Term,
}

impl Opcode for BsTestTail2 {
    const CODE: u8 = 121;
}

impl BsTestTail2 {
    /// The operand views of this instruction, in wire order.
    pub open spec fn args(&self) -> Seq<TermV> {
        seq![
            self.arg1@,
            self.arg2@,
            self.arg3@,
        ]
    }

    /// The canonical byte string of this instruction.
    pub open spec fn enc(&self) -> Seq<u8> {
        seq![121u8] + wire::enc_termv(self.arg1@) + wire::enc_termv(self.arg2@) + wire::enc_termv(self.arg3@)
    }

    pub(crate) fn decode_operands(r: &mut Reader<'_>) -> (res: Result<BsTestTail2, DecodeError>)
        ensures
            match res {
                Ok(v) => chain3(ArgKind::Any, ArgKind::Any, ArgKind::Any, old(r).remaining()) matches Ok((args, n)) && args == v.args()
                    && n <= old(r).remaining().len() && final(r).remaining() == old(r).remaining().skip(n as int),
                Err(e) => chain3(ArgKind::Any, ArgKind::Any, ArgKind::Any, old(r).remaining()) matches Err(se) && se == e@,
            },
    {
        let arg1 = crate::term::decode_term_arg(r)?;
        let arg2 = crate::term::decode_term_arg(r)?;
        let arg3 = crate::term::decode_term_arg(r)?;
        Ok(BsTestTail2 { arg1, arg2, arg3 })
    }

    pub(crate) fn encode_operands(&self, out: &mut Vec<u8>) -> (res: Result<(), EncodeError>)
        ensures
            res is Ok,
            final(out)@ == old(out)@ + self.enc(),
    {
        out.push(121);
        self.arg1.encode(out)?;
        self.arg2.encode(out)?;
        self.arg3.encode(out)?;
        proof {
            assert(out@ =~= old(out)@ + self.enc());
        }
        Ok(())
    }
}

#[derive(Debug, PartialEq)]
pub struct BsSave2 {
    pub arg1: Term,
    pub arg2: Term,
}

impl Opcode for BsSave2 {
    const CODE: u8 = 122;
}

impl BsSave2 {
    /// The operand views of this instruction, in wire order.
    pub open spec fn args(&self) -> Seq<TermV> {
        seq![
            self.arg1@,
            self.arg2@,
        ]
    }

    /// The canonical byte string of this instruction.
    pub open spec fn enc(&self) -> Seq<u8> {
        seq![122u8] + wire::enc_termv(self.arg1@) + wire::enc_termv(self.arg2@)
    }

    pub(crate) fn decode_operands(r: &mut Reader<'_>) -> (res: Result<BsSave2, DecodeError>)
        ensures
            match res {
                Ok(v) => chain2(ArgKind::Any, ArgKind::Any, old(r).remaining()) matches Ok((args, n)) && args == v.args()
                    && n <= old(r).remaining().len() && final(r).remaining() == old(r).remaining().skip(n as int),
                Err(e) => chain2(ArgKind::Any, ArgKind::Any, old(r).remaining()) matches Err(se) && se == e@,
            },
    {
        let arg1 = crate::term::decode_term_arg(r)?;
        let arg2 = crate::term::decode_term_arg(r)?;
        Ok(BsSave2 { arg1, arg2 })
    }

    pub(crate) fn encode_operands(&self, out: &mut Vec<u8>) -> (res: Result<(), EncodeError>)
        ensures
            res is Ok,
            final(out)@ == old(out)@ + self.enc(),
    {
        out.push(122);
        self.arg1.encode(out)?;
        self.arg2.encode(out)?;
        proof {
            assert(out@ =~= old(out)@ + self.enc());
        }
        Ok(())
    }
}

#[derive(Debug, PartialEq)]
pub struct BsRestore2 {
    pub arg1: Term,
    pub arg2: Term,
}

impl Opcode for BsRestore2 {
    const CODE: u8 = 123;
}

impl BsRestore2 {
    /// The operand views of this instruction, in wire order.
    pub open spec fn args(&self) -> Seq<TermV> {
        seq![
            self.arg1@,
            self.arg2@,
        ]
    }

    /// The canonical byte string of this instruction.
    pub open spec fn enc(&self) -> Seq<u8> {
        seq![123u8] + wire::enc_termv(self.arg1@) + wire::enc_termv(self.arg2@)
    }

    pub(crate) fn decode_operands(r: &mut Reader<'_>) -> (res: Result<BsRestore2, DecodeError>)
        ensures
            match res {
                Ok(v) => chain2(ArgKind::Any, ArgKind::Any, old(r).remaining()) matches Ok((args, n)) && args == v.args()
                    && n <= old(r).remaining().len() && final(r).remaining() == old(r).remaining().skip(n as int),
                Err(e) => chain2(ArgKind::Any, ArgKind::Any, old(r).remaining()) matches Err(se) && se == e@,
            },
    {
        let arg1 = crate::term::decode_term_arg(r)?;
        let arg2 = crate::term::decode_term_arg(r)?;
        Ok(BsRestore2 { arg1, arg2 })
    }

    pub(crate) fn encode_operands(&self, out: &mut Vec<u8>) -> (res: Result<(), EncodeError>)
        ensures
            res is Ok,
            final(out)@ == old(out)@ + self.enc(),
    {
        out.push(123);
        self.arg1.encode(out)?;
        self.arg2.encode(out)?;
        proof {
            assert(out@ =~= old(out)@ + self.enc());
        }
        Ok(())
    }
}

#[derive(Debug, PartialEq)]
pub struct GcBif1 {
    pub arg1: Term,
    pub arg2: Term,
    pub arg3: Term,
    pub arg4: Term,
    pub arg5: Term,
}

impl Opcode for GcBif1 {
    const CODE: u8 = 124;
}

impl GcBif1 {
    /// The operand views of this instruction, in wire order.
    pub open spec fn args(&self) -> Seq<TermV> {
        seq![
            self.arg1@,
            self.arg2@,
            self.arg3@,
            self.arg4@,
            self.arg5@,
        ]
    }

    /// The canonical byte string of this instruction.
    pub open spec fn enc(&self) -> Seq<u8> {
        seq![124u8] + wire::enc_termv(self.arg1@) + wire::enc_termv(self.arg2@) + wire::enc_termv(self.arg3@) + wire::enc_termv(self.arg4@) + wire::enc_termv(self.arg5@)
    }

    #[verifier::rlimit(100)]
    pub(crate) fn decode_operands(r: &mut Reader<'_>) -> (res: Result<GcBif1, DecodeError>)
        ensures
            match res {
                Ok(v) => chain5(ArgKind::Any, ArgKind::Any, ArgKind::Any, ArgKind::Any, ArgKind::Any, old(r).remaining()) matches Ok((args, n)) && args == v.args()
                    && n <= old(r).remaining().len() && final(r).remaining() == old(r).remaining().skip(n as int),
                Err(e) => chain5(ArgKind::Any, ArgKind::Any, ArgKind::Any, ArgKind::Any, ArgKind::Any, old(r).remaining()) matches Err(se) && se == e@,
            },
    {
        let arg1 = crate::term::decode_term_arg(r)?;
        let arg2 = crate::term::decode_term_arg(r)?;
        let arg3 = crate::term::decode_term_arg(r)?;
        let arg4 = crate::term::decode_term_arg(r)?;
        let arg5 = crate::term::decode_term_arg(r)?;
        Ok(GcBif1 { arg1, arg2, arg3, arg4, arg5 })
    }

    #[verifier::rlimit(100)]
    pub(crate) fn encode_operands(&self, out: &mut Vec<u8>) -> (res: Result<(), EncodeError>)
        ensures
            res is Ok,
            final(out)@ == old(out)@ + self.enc(),
    {
        out.push(124);
        self.arg1.encode(out)?;
        self.arg2.encode(out)?;
        self.arg3.encode(out)?;
        self.arg4.encode(out)?;
        self.arg5.encode(out)?;
        proof {
            assert(out@ =~= old(out)@ + self.enc());
        }
        Ok(())
    }
}

#[derive(Debug, PartialEq)]
pub struct GcBif2 {
    pub arg1: Term,
    pub arg2: Term,
    pub arg3: Term,
    pub arg4: Term,
    pub arg5: Term,
    pub arg6: Term,
}

impl Opcode for GcBif2 {
    const CODE: u8 = 125;
}

impl GcBif2 {
    /// The operand views of this instruction, in wire order.
    pub open spec fn args(&self) -> Seq<TermV> {
        seq![
            self.arg1@,
            self.arg2@,
            self.arg3@,
            self.arg4@,
            self.arg5@,
            self.arg6@,
        ]
    }

    /// The canonical byte string of this instruction.
    pub open spec fn enc(&self) -> Seq<u8> {
        seq![125u8] + wire::enc_termv(self.arg1@) + wire::enc_termv(self.arg2@) + wire::enc_termv(self.arg3@) + wire::enc_termv(self.arg4@) + wire::enc_termv(self.arg5@) + wire::enc_termv(self.arg6@)
    }

    #[verifier::rlimit(100)]
    pub(crate) fn decode_operands(r: &mut Reader<'_>) -> (res: Result<GcBif2, DecodeError>)
        ensures
            match res {
                Ok(v) => chain6(ArgKind::Any, ArgKind::Any, ArgKind::Any, ArgKind::Any, ArgKind::Any, ArgKind::Any, old(r).remaining()) matches Ok((args, n)) && args == v.args()
                    && n <= old(r).remaining().len() && final(r).remaining() == old(r).remaining().skip(n as int),
                Err(e) => chain6(ArgKind::Any, ArgKind::Any, ArgKind::Any, ArgKind::Any, ArgKind::Any, ArgKind::Any, old(r).remaining()) matches Err(se) && se == e@,
            },
    {
        let arg1 = crate::term::decode_term_arg(r)?;
        let arg2 = crate::term::decode_term_arg(r)?;
        let arg3 = crate::term::decode_term_arg(r)?;
        let arg4 = crate::term::decode_term_arg(r)?;
        let arg5 = crate::term::decode_term_arg(r)?;
        let arg6 = crate::term::decode_term_arg(r)?;
        Ok(GcBif2 { arg1, arg2, arg3, arg4, arg5, arg6 })
    }

    #[verifier::rlimit(100)]
    pub(crate) fn encode_operands(&self, out: &mut Vec<u8>) -> (res: Result<(), EncodeError>)
        ensures
            res is Ok,
            final(out)@ == old(out)@ + self.enc(),
    {
        out.push(125);
        self.arg1.encode(out)?;
        self.arg2.encode(out)?;
        self.arg3.encode(out)?;
        self.arg4.encode(out)?;
        self.arg5.encode(out)?;
        self.arg6.encode(out)?;
        proof {
            assert(out@ =~= old(out)@ + self.enc());
        }
        Ok(())
    }
}

/// Deprecated.
#[derive(Debug, PartialEq)]
pub struct BsFinal2 {
    pub arg1: Term,
    pub arg2: Term,
}

impl Opcode for BsFinal2 {
    const CODE: u8 = 126;
}

impl BsFinal2 {
    /// The operand views of this instruction, in wire order.
    pub open spec fn args(&self) -> Seq<TermV> {
        seq![
            self.arg1@,
            self.arg2@,
        ]
    }

    /// The canonical byte string of this instruction.
    pub open spec fn enc(&self) -> Seq<u8> {
        seq![126u8] + wire::enc_termv(self.arg1@) + wire::enc_termv(self.arg2@)
    }

    pub(crate) fn decode_operands(r: &mut Reader<'_>) -> (res: Result<BsFinal2, DecodeError>)
        ensures
            match res {
                Ok(v) => chain2(ArgKind::Any, ArgKind::Any, old(r).remaining()) matches Ok((args, n)) && args == v.args()
                    && n <= old(r).remaining().len() && final(r).remaining() == old(r).remaining().skip(n as int),
                Err(e) => chain2(ArgKind::Any, ArgKind::Any, old(r).remaining()) matches Err(se) && se == e@,
            },
    {
        let arg1 = crate::term::decode_term_arg(r)?;
        let arg2 = crate::term::decode_term_arg(r)?;
        Ok(BsFinal2 { arg1, arg2 })
    }

    pub(crate) fn encode_operands(&self, out: &mut Vec<u8>) -> (res: Result<(), EncodeError>)
        ensures
            res is Ok,
            final(out)@ == old(out)@ + self.enc(),
    {
        out.push(126);
        self.arg1.encode(out)?;
        self.arg2.encode(out)?;
        proof {
            assert(out@ =~= old(out)@ + self.enc());
        }
        Ok(())
    }
}

/// Deprecated.
#[derive(Debug, PartialEq)]
pub struct BsBitsToBytes2 {
    pub arg1: Term,
    pub arg2: Term,
}

impl Opcode for BsBitsToBytes2 {
    const CODE: u8 = 127;
}

impl BsBitsToBytes2 {
    /// The operand views of this instruction, in wire order.
    pub open spec fn args(&self) -> Seq<TermV> {
        seq![
            self.arg1@,
            self.arg2@,
        ]
    }

    /// The canonical byte string of this instruction.
    pub open spec fn enc(&self) -> Seq<u8> {
        seq![127u8] + wire::enc_termv(self.arg1@) + wire::enc_termv(self.arg2@)
    }

    pub(crate) fn decode_operands(r: &mut Reader<'_>) -> (res: Result<BsBitsToBytes2, DecodeError>)
        ensures
            match res {
                Ok(v) => chain2(ArgKind::Any, ArgKind::Any, old(r).remaining()) matches Ok((args, n)) && args == v.args()
                    && n <= old(r).remaining().len() && final(r).remaining() == old(r).remaining().skip(n as int),
                Err(e) => chain2(ArgKind::Any, ArgKind::Any, old(r).remaining()) matches Err(se) && se == e@,
            },
    {
        let arg1 = crate::term::decode_term_arg(r)?;
        let arg2 = crate::term::decode_term_arg(r)?;
        Ok(BsBitsToBytes2 { arg1, arg2 })
    }

    pub(crate) fn encode_operands(&self, out: &mut Vec<u8>) -> (res: Result<(), EncodeError>)
        ensures
            res is Ok,
            final(out)@ == old(out)@ + self.enc(),
    {
        out.push(127);
        self.arg1.encode(out)?;
        self.arg2.encode(out)?;
        proof {
            assert(out@ =~= old(out)@ + self.enc());
        }
        Ok(())
    }
}

/// Deprecated.
#[derive(Debug, PartialEq)]
pub struct PutLiteral {
    pub arg1: Term,
    pub arg2: Term,
}

impl Opcode for PutLiteral {
    const CODE: u8 = 128;
}

impl PutLiteral {
    /// The operand views of this instruction, in wire order.
    pub open spec fn args(&self) -> Seq<TermV> {
        seq![
            self.arg1@,
            self.arg2@,
        ]
    }

    /// The canonical byte string of this instruction.
    pub open spec fn enc(&self) -> Seq<u8> {
        seq![128u8] + wire::enc_termv(self.arg1@) + wire::enc_termv(self.arg2@)
    }

    pub(crate) fn decode_operands(r: &mut Reader<'_>) -> (res: Result<PutLiteral, DecodeError>)
        ensures
            match res {
                Ok(v) => chain2(ArgKind::Any, ArgKind::Any, old(r).remaining()) matches Ok((args, n)) && args == v.args()
                    && n <= old(r).remaining().len() && final(r).remaining() == old(r).remaining().skip(n as int),
                Err(e) => chain2(ArgKind::Any, ArgKind::Any, old(r).remaining()) matches Err(se) && se == e@,
            },
    {
        let arg1 = crate::term::decode_term_arg(r)?;
        let arg2 = crate::term::decode_term_arg(r)?;
        Ok(PutLiteral { arg1, arg2 })
    }

    pub(crate) fn encode_operands(&self, out: &mut Vec<u8>) -> (res: Result<(), EncodeError>)
        ensures
            res is Ok,
            final(out)@ == old(out)@ + self.enc(),
    {
        out.push(128);
        self.arg1.encode(out)?;
        self.arg2.encode(out)?;
        proof {
            assert(out@ =~= old(out)@ + self.enc());
        }
        Ok(())
    }
}

#[derive(Debug, PartialEq)]
pub struct IsBitstr {
    pub arg1: Term,
    pub arg2: Term,
}

impl Opcode for IsBitstr {
    const CODE: u8 = 129;
}

impl IsBitstr {
    /// The operand views of this instruction, in wire order.
    pub open spec fn args(&self) -> Seq<TermV> {
        seq![
            self.arg1@,
            self.arg2@,
        ]
    }

    /// The canonical byte string of this instruction.
    pub open spec fn enc(&self) -> Seq<u8> {
        seq![129u8] + wire::enc_termv(self.arg1@) + wire::enc_termv(self.arg2@)
    }

    pub(crate) fn decode_operands(r: &mut Reader<'_>) -> (res: Result<IsBitstr, DecodeError>)
        ensures
            match res {
                Ok(v) => chain2(ArgKind::Any, ArgKind::Any, old(r).remaining()) matches Ok((args, n)) && args == v.args()
                    && n <= old(r).remaining().len() && final(r).remaining() == old(r).remaining().skip(n as int),
                Err(e) => chain2(ArgKind::Any, ArgKind::Any, old(r).remaining()) matches Err(se) && se == e@,
            },
    {
        let arg1 = crate::term::decode_term_arg(r)?;
        let arg2 = crate::term::decode_term_arg(r)?;
        Ok(IsBitstr { arg1, arg2 })
    }

    pub(crate) fn encode_operands(&self, out: &mut Vec<u8>) -> (res: Result<(), EncodeError>)
        ensures
            res is Ok,
            final(out)@ == old(out)@ + self.enc(),
    {
        out.push(129);
        self.arg1.encode(out)?;
        self.arg2.encode(out)?;
        proof {
            assert(out@ =~= old(out)@ + self.enc());
        }
        Ok(())
    }
}

#[derive(Debug, PartialEq)]
pub struct BsContextToBinary {
    pub arg1: Term,
}

impl Opcode for BsContextToBinary {
    const CODE: u8 = 130;
}

impl BsContextToBinary {
    /// The operand views of this instruction, in wire order.
    pub open spec fn args(&self) -> Seq<TermV> {
        seq![
            self.arg1@,
        ]
    }

    /// The canonical byte string of this instruction.
    pub open spec fn enc(&self) -> Seq<u8> {
        seq![130u8] + wire::enc_termv(self.arg1@)
    }

    pub(crate) fn decode_operands(r: &mut Reader<'_>) -> (res: Result<BsContextToBinary, DecodeError>)
        ensures
            match res {
                Ok(v) => chain1(ArgKind::Any, old(r).remaining()) matches Ok((args, n)) && args == v.args()
                    && n <= old(r).remaining().len() && final(r).remaining() == old(r).remaining().skip(n as int),
                Err(e) => chain1(ArgKind::Any, old(r).remaining()) matches Err(se) && se == e@,
            },
    {
        let arg1 = crate::term::decode_term_arg(r)?;
        Ok(BsContextToBinary { arg1 })
    }

    pub(crate) fn encode_operands(&self, out: &mut Vec<u8>) -> (res: Result<(), EncodeError>)
        ensures
            res is Ok,
            final(out)@ == old(out)@ + self.enc(),
    {
        out.push(130);
        self.arg1.encode(out)?;
        proof {
            assert(out@ =~= old(out)@ + self.enc());
        }
        Ok(())
    }
}

#[derive(Debug, PartialEq)]
pub struct BsTestUnit {
    pub arg1: Term,
    pub arg2: Term,
    pub arg3: Term,
}

impl Opcode for BsTestUnit {
    const CODE: u8 = 131;
}

impl BsTestUnit {
    /// The operand views of this instruction, in wire order.
    pub open spec fn args(&self) -> Seq<TermV> {
        seq![
            self.arg1@,
            self.arg2@,
            self.arg3@,
        ]
    }

    /// The canonical byte string of this instruction.
    pub open spec fn enc(&self) -> Seq<u8> {
        seq![131u8] + wire::enc_termv(self.arg1@) + wire::enc_termv(self.arg2@) + wire::enc_termv(self.arg3@)
    }

    pub(crate) fn decode_operands(r: &mut Reader<'_>) -> (res: Result<BsTestUnit, DecodeError>)
        ensures
            match res {
                Ok(v) => chain3(ArgKind::Any, ArgKind::Any, ArgKind::Any, old(r).remaining()) matches Ok((args, n)) && args == v.args()
                    && n <= old(r).remaining().len() && final(r).remaining() == old(r).remaining().skip(n as int),
                Err(e) => chain3(ArgKind::Any, ArgKind::Any, ArgKind::Any, old(r).remaining()) matches Err(se) && se == e@,
            },
    {
        let arg1 = crate::term::decode_term_arg(r)?;
        let arg2 = crate::term::decode_term_arg(r)?;
        let arg3 = crate::term::decode_term_arg(r)?;
        Ok(BsTestUnit { arg1, arg2, arg3 })
    }

    pub(crate) fn encode_operands(&self, out: &mut Vec<u8>) -> (res: Result<(), EncodeError>)
        ensures
            res is Ok,
            final(out)@ == old(out)@ + self.enc(),
    {
        out.push(131);
        self.arg1.encode(out)?;
        self.arg2.encode(out)?;
        self.arg3.encode(out)?;
        proof {
            assert(out@ =~= old(out)@ + self.enc());
        }
        Ok(())
    }
}

#[derive(Debug, PartialEq)]
pub struct BsMatchString {
    pub arg1: Term,
    pub arg2: Term,
    pub arg3: Term,
    pub arg4: Term,
}

impl Opcode for BsMatchString {
    const CODE: u8 = 132;
}

impl BsMatchString {
    /// The operand views of this instruction, in wire order.
    pub open spec fn args(&self) -> Seq<TermV> {
        seq![
            self.arg1@,
            self.arg2@,
            self.arg3@,
            self.arg4@,
        ]
    }

    /// The canonical byte string of this instruction.
    pub open spec fn enc(&self) -> Seq<u8> {
        seq![132u8] + wire::enc_termv(self.arg1@) + wire::enc_termv(self.arg2@) + wire::enc_termv(self.arg3@) + wire::enc_termv(self.arg4@)
    }

    pub(crate) fn decode_operands(r: &mut Reader<'_>) -> (res: Result<BsMatchString, DecodeError>)
        ensures
            match res {
                Ok(v) => chain4(ArgKind::Any, ArgKind::Any, ArgKind::Any, ArgKind::Any, old(r).remaining()) matches Ok((args, n)) && args == v.args()
                    && n <= old(r).remaining().len() && final(r).remaining() == old(r).remaining().skip(n as int),
                Err(e) => chain4(ArgKind::Any, ArgKind::Any, ArgKind::Any, ArgKind::Any, old(r).remaining()) matches Err(se) && se == e@,
            },
    {
        let arg1 = crate::term::decode_term_arg(r)?;
        let arg2 = crate::term::decode_term_arg(r)?;
        let arg3 = crate::term::decode_term_arg(r)?;
        let arg4 = crate::term::decode_term_arg(r)?;
        Ok(BsMatchString { arg1, arg2, arg3, arg4 })
    }

    pub(crate) fn encode_operands(&self, out: &mut Vec<u8>) -> (res: Result<(), EncodeError>)
        ensures
            res is Ok,
            final(out)@ == old(out)@ + self.enc(),
    {
        out.push(132);
        self.arg1.encode(out)?;
        self.arg2.encode(out)?;
        self.arg3.encode(out)?;
        self.arg4.encode(out)?;
        proof {
            assert(out@ =~= old(out)@ + self.enc());
        }
        Ok(())
    }
}

#[derive(Debug, PartialEq)]
pub struct BsInitWritable {}

impl Opcode for BsInitWritable {
    const CODE: u8 = 133;
}

impl BsInitWritable {
    /// The operand views of this instruction, in wire order.
    pub open spec fn args(&self) -> Seq<TermV> {
        Seq::empty()
    }

    /// The canonical byte string of this instruction.
    pub open spec fn enc(&self) -> Seq<u8> {
        seq![133u8]
    }

    pub(crate) fn decode_operands(r: &mut Reader<'_>) -> (res: Result<BsInitWritable, DecodeError>)
        ensures
            match res {
                Ok(v) => chain0(old(r).remaining()) matches Ok((args, n)) && args == v.args()
                    && n <= old(r).remaining().len() && final(r).remaining() == old(r).remaining().skip(n as int),
                Err(e) => chain0(old(r).remaining()) matches Err(se) && se == e@,
            },
    {
        proof {
            assert(old(r).remaining().skip(0) =~= old(r).remaining());
        }
        Ok(BsInitWritable {  })
    }

    pub(crate) fn encode_operands(&self, out: &mut Vec<u8>) -> (res: Result<(), EncodeError>)
        ensures
            res is Ok,
            final(out)@ == old(out)@ + self.enc(),
    {
        out.push(133);
        proof {
            assert(out@ =~= old(out)@ + self.enc());
        }
        Ok(())
    }
}

#[derive(Debug, PartialEq)]
pub struct BsAppend {
    pub arg1: Term,
    pub arg2: Term,
    pub arg3: Term,
    pub arg4: Term,
    pub arg5: Term,
    pub arg6: Term,
    pub arg7: Term,
    pub arg8: Term,
}

impl Opcode for BsAppend {
    const CODE: u8 = 134;
}

impl BsAppend {
    /// The operand views of this instruction, in wire order.
    pub open spec fn args(&self) -> Seq<TermV> {
        seq![
            self.arg1@,
            self.arg2@,
            self.arg3@,
            self.arg4@,
            self.arg5@,
            self.arg6@,
            self.arg7@,
            self.arg8@,
        ]
    }

    /// The canonical byte string of this instruction.
    pub open spec fn enc(&self) -> Seq<u8> {
        seq![134u8] + wire::enc_termv(self.arg1@) + wire::enc_termv(self.arg2@) + wire::enc_termv(self.arg3@) + wire::enc_termv(self.arg4@) + wire::enc_termv(self.arg5@) + wire::enc_termv(self.arg6@) + wire::enc_termv(self.arg7@) + wire::enc_termv(self.arg8@)
    }

    #[verifier::rlimit(100)]
    pub(crate) fn decode_operands(r: &mut Reader<'_>) -> (res: Result<BsAppend, DecodeError>)
        ensures
            match res {
                Ok(v) => chain8(ArgKind::Any, ArgKind::Any, ArgKind::Any, ArgKind::Any, ArgKind::Any, ArgKind::Any, ArgKind::Any, ArgKind::Any, old(r).remaining()) matches Ok((args, n)) && args == v.args()
                    && n <= old(r).remaining().len() && final(r).remaining() == old(r).remaining().skip(n as int),
                Err(e) => chain8(ArgKind::Any, ArgKind::Any, ArgKind::Any, ArgKind::Any, ArgKind::Any, ArgKind::Any, ArgKind::Any, ArgKind::Any, old(r).remaining()) matches Err(se) && se == e@,
            },
    {
        let arg1 = crate::term::decode_term_arg(r)?;
        let arg2 = crate::term::decode_term_arg(r)?;
        let arg3 = crate::term::decode_term_arg(r)?;
        let arg4 = crate::term::decode_term_arg(r)?;
        let arg5 = crate::term::decode_term_arg(r)?;
        let arg6 = crate::term::decode_term_arg(r)?;
        let arg7 = crate::term::decode_term_arg(r)?;
        let arg8 = crate::term::decode_term_arg(r)?;
        Ok(BsAppend { arg1, arg2, arg3, arg4, arg5, arg6, arg7, arg8 })
    }

    #[verifier::rlimit(100)]
    pub(crate) fn encode_operands(&self, out: &mut Vec<u8>) -> (res: Result<(), EncodeError>)
        ensures
            res is Ok,
            final(out)@ == old(out)@ + self.enc(),
    {
        out.push(134);
        self.arg1.encode(out)?;
        self.arg2.encode(out)?;
        self.arg3.encode(out)?;
        self.arg4.encode(out)?;
        self.arg5.encode(out)?;
        self.arg6.encode(out)?;
        self.arg7.encode(out)?;
        self.arg8.encode(out)?;
        proof {
            assert(out@ =~= old(out)@ + self.enc());
        }
        Ok(())
    }
}

#[derive(Debug, PartialEq)]
pub struct BsPrivateAppend {
    pub arg1: Term,
    pub arg2: Term,
    pub arg3: Term,
    pub arg4: Term,
    pub arg5: Term,
    pub arg6: Term,
}

impl Opcode for BsPrivateAppend {
    const CODE: u8 = 135;
}

impl BsPrivateAppend {
    /// The operand views of this instruction, in wire order.
    pub open spec fn args(&self) -> Seq<TermV> {
        seq![
            self.arg1@,
            self.arg2@,
            self.arg3@,
            self.arg4@,
            self.arg5@,
            self.arg6@,
        ]
    }

    /// The canonical byte string of this instruction.
    pub open spec fn enc(&self) -> Seq<u8> {
        seq![135u8] + wire::enc_termv(self.arg1@) + wire::enc_termv(self.arg2@) + wire::enc_termv(self.arg3@) + wire::enc_termv(self.arg4@) + wire::enc_termv(self.arg5@) + wire::enc_termv(self.arg6@)
    }

    #[verifier::rlimit(100)]
    pub(crate) fn decode_operands(r: &mut Reader<'_>) -> (res: Result<BsPrivateAppend, DecodeError>)
        ensures
            match res {
                Ok(v) => chain6(ArgKind::Any, ArgKind::Any, ArgKind::Any, ArgKind::Any, ArgKind::Any, ArgKind::Any, old(r).remaining()) matches Ok((args, n)) && args == v.args()
                    && n <= old(r).remaining().len() && final(r).remaining() == old(r).remaining().skip(n as int),
                Err(e) => chain6(ArgKind::Any, ArgKind::Any, ArgKind::Any, ArgKind::Any, ArgKind::Any, ArgKind::Any, old(r).remaining()) matches Err(se) && se == e@,
            },
    {
        let arg1 = crate::term::decode_term_arg(r)?;
        let arg2 = crate::term::decode_term_arg(r)?;
        let arg3 = crate::term::decode_term_arg(r)?;
        let arg4 = crate::term::decode_term_arg(r)?;
        let arg5 = crate::term::decode_term_arg(r)?;
        let arg6 = crate::term::decode_term_arg(r)?;
        Ok(BsPrivateAppend { arg1, arg2, arg3, arg4, arg5, arg6 })
    }

    #[verifier::rlimit(100)]
    pub(crate) fn encode_operands(&self, out: &mut Vec<u8>) -> (res: Result<(), EncodeError>)
        ensures
            res is Ok,
            final(out)@ == old(out)@ + self.enc(),
    {
        out.push(135);
        self.arg1.encode(out)?;
        self.arg2.encode(out)?;
        self.arg3.encode(out)?;
        self.arg4.encode(out)?;
        self.arg5.encode(out)?;
        self.arg6.encode(out)?;
        proof {
            assert(out@ =~= old(out)@ + self.enc());
        }
        Ok(())
    }
}

#[derive(Debug, PartialEq)]
pub struct Trim {
    pub arg1: Term,
    pub arg2: Term,
}

impl Opcode for Trim {
    const CODE: u8 = 136;
}

impl Trim {
    /// The operand views of this instruction, in wire order.
    pub open spec fn args(&self) -> Seq<TermV> {
        seq![
            self.arg1@,
            self.arg2@,
        ]
    }

    /// The canonical byte string of this instruction.
    pub open spec fn enc(&self) -> Seq<u8> {
        seq![136u8] + wire::enc_termv(self.arg1@) + wire::enc_termv(self.arg2@)
    }

    pub(crate) fn decode_operands(r: &mut Reader<'_>) -> (res: Result<Trim, DecodeError>)
        ensures
            match res {
                Ok(v) => chain2(ArgKind::Any, ArgKind::Any, old(r).remaining()) matches Ok((args, n)) && args == v.args()
                    && n <= old(r).remaining().len() && final(r).remaining() == old(r).remaining().skip(n as int),
                Err(e) => chain2(ArgKind::Any, ArgKind::Any, old(r).remaining()) matches Err(se) && se == e@,
            },
    {
        let arg1 = crate::term::decode_term_arg(r)?;
        let arg2 = crate::term::decode_term_arg(r)?;
        Ok(Trim { arg1, arg2 })
    }

    pub(crate) fn encode_operands(&self, out: &mut Vec<u8>) -> (res: Result<(), EncodeError>)
        ensures
            res is Ok,
            final(out)@ == old(out)@ + self.enc(),
    {
        out.push(136);
        self.arg1.encode(out)?;
        self.arg2.encode(out)?;
        proof {
            assert(out@ =~= old(out)@ + self.enc());
        }
        Ok(())
    }
}

#[derive(Debug, PartialEq)]
pub struct BsInitBits {
    pub arg1: Term,
    pub arg2: Term,
    pub arg3: Term,
    pub arg4: Term,
    pub arg5: Term,
    pub arg6: Term,
}

impl Opcode for BsInitBits {
    const CODE: u8 = 137;
}

impl BsInitBits {
    /// The operand views of this instruction, in wire order.
    pub open spec fn args(&self) -> Seq<TermV> {
        seq![
            self.arg1@,
            self.arg2@,
            self.arg3@,
            self.arg4@,
            self.arg5@,
            self.arg6@,
        ]
    }

    /// The canonical byte string of this instruction.
    pub open spec fn enc(&self) -> Seq<u8> {
        seq![137u8] + wire::enc_termv(self.arg1@) + wire::enc_termv(self.arg2@) + wire::enc_termv(self.arg3@) + wire::enc_termv(self.arg4@) + wire::enc_termv(self.arg5@) + wire::enc_termv(self.arg6@)
    }

    #[verifier::rlimit(100)]
    pub(crate) fn decode_operands(r: &mut Reader<'_>) -> (res: Result<BsInitBits, DecodeError>)
        ensures
            match res {
                Ok(v) => chain6(ArgKind::Any, ArgKind::Any, ArgKind::Any, ArgKind::Any, ArgKind::Any, ArgKind::Any, old(r).remaining()) matches Ok((args, n)) && args == v.args()
                    && n <= old(r).remaining().len() && final(r).remaining() == old(r).remaining().skip(n as int),
                Err(e) => chain6(ArgKind::Any, ArgKind::Any, ArgKind::Any, ArgKind::Any, ArgKind::Any, ArgKind::Any, old(r).remaining()) matches Err(se) && se == e@,
            },
    {
        let arg1 = crate::term::decode_term_arg(r)?;
        let arg2 = crate::term::decode_term_arg(r)?;
        let arg3 = crate::term::decode_term_arg(r)?;
        let arg4 = crate::term::decode_term_arg(r)?;
        let arg5 = crate::term::decode_term_arg(r)?;
        let arg6 = crate::term::decode_term_arg(r)?;
        Ok(BsInitBits { arg1, arg2, arg3, arg4, arg5, arg6 })
    }

    #[verifier::rlimit(100)]
    pub(crate) fn encode_operands(&self, out: &mut Vec<u8>) -> (res: Result<(), EncodeError>)
        ensures
            res is Ok,
            final(out)@ == old(out)@ + self.enc(),
    {
        out.push(137);
        self.arg1.encode(out)?;
        self.arg2.encode(out)?;
        self.arg3.encode(out)?;
        self.arg4.encode(out)?;
        self.arg5.encode(out)?;
        self.arg6.encode(out)?;
        proof {
            assert(out@ =~= old(out)@ + self.enc());
        }
        Ok(())
    }
}

#[derive(Debug, PartialEq)]
pub struct BsGetUtf8 {
    pub arg1: Term,
    pub arg2: Term,
    pub arg3: Term,
    pub arg4: Term,
    pub arg5: Term,
}

impl Opcode for BsGetUtf8 {
    const CODE: u8 = 138;
}

impl BsGetUtf8 {
    /// The operand views of this instruction, in wire order.
    pub open spec fn args(&self) -> Seq<TermV> {
        seq![
            self.arg1@,
            self.arg2@,
            self.arg3@,
            self.arg4@,
            self.arg5@,
        ]
    }

    /// The canonical byte string of this instruction.
    pub open spec fn enc(&self) -> Seq<u8> {
        seq![138u8] + wire::enc_termv(self.arg1@) + wire::enc_termv(self.arg2@) + wire::enc_termv(self.arg3@) + wire::enc_termv(self.arg4@) + wire::enc_termv(self.arg5@)
    }

    #[verifier::rlimit(100)]
    pub(crate) fn decode_operands(r: &mut Reader<'_>) -> (res: Result<BsGetUtf8, DecodeError>)
        ensures
            match res {
                Ok(v) => chain5(ArgKind::Any, ArgKind::Any, ArgKind::Any, ArgKind::Any, ArgKind::Any, old(r).remaining()) matches Ok((args, n)) && args == v.args()
                    && n <= old(r).remaining().len() && final(r).remaining() == old(r).remaining().skip(n as int),
                Err(e) => chain5(ArgKind::Any, ArgKind::Any, ArgKind::Any, ArgKind::Any, ArgKind::Any, old(r).remaining()) matches Err(se) && se == e@,
            },
    {
        let arg1 = crate::term::decode_term_arg(r)?;
        let arg2 = crate::term::decode_term_arg(r)?;
        let arg3 = crate::term::decode_term_arg(r)?;
        let arg4 = crate::term::decode_term_arg(r)?;
        let arg5 = crate::term::decode_term_arg(r)?;
        Ok(BsGetUtf8 { arg1, arg2, arg3, arg4, arg5 })
    }

    #[verifier::rlimit(100)]
    pub(crate) fn encode_operands(&self, out: &mut Vec<u8>) -> (res: Result<(), EncodeError>)
        ensures
            res is Ok,
            final(out)@ == old(out)@ + self.enc(),
    {
        out.push(138);
        self.arg1.encode(out)?;
        self.arg2.encode(out)?;
        self.arg3.encode(out)?;
        self.arg4.encode(out)?;
        self.arg5.encode(out)?;
        proof {
            assert(out@ =~= old(out)@ + self.enc());
        }
        Ok(())
    }
}

#[derive(Debug, PartialEq)]
pub struct BsSkipUtf8 {
    pub arg1: Term,
    pub arg2: Term,
    pub arg3: Term,
    pub arg4: Term,
}

impl Opcode for BsSkipUtf8 {
    const CODE: u8 = 139;
}

impl BsSkipUtf8 {
    /// The operand views of this instruction, in wire order.
    pub open spec fn args(&self) -> Seq<TermV> {
        seq![
            self.arg1@,
            self.arg2@,
            self.arg3@,
            self.arg4@,
        ]
    }

    /// The canonical byte string of this instruction.
    pub open spec fn enc(&self) -> Seq<u8> {
        seq![139u8] + wire::enc_termv(self.arg1@) + wire::enc_termv(self.arg2@) + wire::enc_termv(self.arg3@) + wire::enc_termv(self.arg4@)
    }

    pub(crate) fn decode_operands(r: &mut Reader<'_>) -> (res: Result<BsSkipUtf8, DecodeError>)
        ensures
            match res {
                Ok(v) => chain4(ArgKind::Any, ArgKind::Any, ArgKind::Any, ArgKind::Any, old(r).remaining()) matches Ok((args, n)) && args == v.args()
                    && n <= old(r).remaining().len() && final(r).remaining() == old(r).remaining().skip(n as int),
                Err(e) => chain4(ArgKind::Any, ArgKind::Any, ArgKind::Any, ArgKind::Any, old(r).remaining()) matches Err(se) && se == e@,
            },
    {
        let arg1 = crate::term::decode_term_arg(r)?;
        let arg2 = crate::term::decode_term_arg(r)?;
        let arg3 = crate::term::decode_term_arg(r)?;
        let arg4 = crate::term::decode_term_arg(r)?;
        Ok(BsSkipUtf8 { arg1, arg2, arg3, arg4 })
    }

    pub(crate) fn encode_operands(&self, out: &mut Vec<u8>) -> (res: Result<(), EncodeError>)
        ensures
            res is Ok,
            final(out)@ == old(out)@ + self.enc(),
    {
        out.push(139);
        self.arg1.encode(out)?;
        self.arg2.encode(out)?;
        self.arg3.encode(out)?;
        self.arg4.encode(out)?;
        proof {
            assert(out@ =~= old(out)@ + self.enc());
        }
        Ok(())
    }
}

#[derive(Debug, PartialEq)]
pub struct BsGetUtf16 {
    pub arg1: Term,
    pub arg2: Term,
    pub arg3: Term,
    pub arg4: Term,
    pub arg5: Term,
}

impl Opcode for BsGetUtf16 {
    const CODE: u8 = 140;
}

impl BsGetUtf16 {
    /// The operand views of this instruction, in wire order.
    pub open spec fn args(&self) -> Seq<TermV> {
        seq![
            self.arg1@,
            self.arg2@,
            self.arg3@,
            self.arg4@,
            self.arg5@,
        ]
    }

    /// The canonical byte string of this instruction.
    pub open spec fn enc(&self) -> Seq<u8> {
        seq![140u8] + wire::enc_termv(self.arg1@) + wire::enc_termv(self.arg2@) + wire::enc_termv(self.arg3@) + wire::enc_termv(self.arg4@) + wire::enc_termv(self.arg5@)
    }

    #[verifier::rlimit(100)]
    pub(crate) fn decode_operands(r: &mut Reader<'_>) -> (res: Result<BsGetUtf16, DecodeError>)
        ensures
            match res {
                Ok(v) => chain5(ArgKind::Any, ArgKind::Any, ArgKind::Any, ArgKind::Any, ArgKind::Any, old(r).remaining()) matches Ok((args, n)) && args == v.args()
                    && n <= old(r).remaining().len() && final(r).remaining() == old(r).remaining().skip(n as int),
                Err(e) => chain5(ArgKind::Any, ArgKind::Any, ArgKind::Any, ArgKind::Any, ArgKind::Any, old(r).remaining()) matches Err(se) && se == e@,
            },
    {
        let arg1 = crate::term::decode_term_arg(r)?;
        let arg2 = crate::term::decode_term_arg(r)?;
        let arg3 = crate::term::decode_term_arg(r)?;
        let arg4 = crate::term::decode_term_arg(r)?;
        let arg5 = crate::term::decode_term_arg(r)?;
        Ok(BsGetUtf16 { arg1, arg2, arg3, arg4, arg5 })
    }

    #[verifier::rlimit(100)]
    pub(crate) fn encode_operands(&self, out: &mut Vec<u8>) -> (res: Result<(), EncodeError>)
        ensures
            res is Ok,
            final(out)@ == old(out)@ + self.enc(),
    {
        out.push(140);
        self.arg1.encode(out)?;
        self.arg2.encode(out)?;
        self.arg3.encode(out)?;
        self.arg4.encode(out)?;
        self.arg5.encode(out)?;
        proof {
            assert(out@ =~= old(out)@ + self.enc());
        }
        Ok(())
    }
}

#[derive(Debug, PartialEq)]
pub struct BsSkipUtf16 {
    pub arg1: Term,
    pub arg2: Term,
    pub arg3: Term,
    pub arg4: Term,
}

impl Opcode for BsSkipUtf16 {
    const CODE: u8 = 141;
}

impl BsSkipUtf16 {
    /// The operand views of this instruction, in wire order.
    pub open spec fn args(&self) -> Seq<TermV> {
        seq![
            self.arg1@,
            self.arg2@,
            self.arg3@,
            self.arg4@,
        ]
    }

    /// The canonical byte string of this instruction.
    pub open spec fn enc(&self) -> Seq<u8> {
        seq![141u8] + wire::enc_termv(self.arg1@) + wire::enc_termv(self.arg2@) + wire::enc_termv(self.arg3@) + wire::enc_termv(self.arg4@)
    }

    pub(crate) fn decode_operands(r: &mut Reader<'_>) -> (res: Result<BsSkipUtf16, DecodeError>)
        ensures
            match res {
                Ok(v) => chain4(ArgKind::Any, ArgKind::Any, ArgKind::Any, ArgKind::Any, old(r).remaining()) matches Ok((args, n)) && args == v.args()
                    && n <= old(r).remaining().len() && final(r).remaining() == old(r).remaining().skip(n as int),
                Err(e) => chain4(ArgKind::Any, ArgKind::Any, ArgKind::Any, ArgKind::Any, old(r).remaining()) matches Err(se) && se == e@,
            },
    {
        let arg1 = crate::term::decode_term_arg(r)?;
        let arg2 = crate::term::decode_term_arg(r)?;
        let arg3 = crate::term::decode_term_arg(r)?;
        let arg4 = crate::term::decode_term_arg(r)?;
        Ok(BsSkipUtf16 { arg1, arg2, arg3, arg4 })
    }

    pub(crate) fn encode_operands(&self, out: &mut Vec<u8>) -> (res: Result<(), EncodeError>)
        ensures
            res is Ok,
            final(out)@ == old(out)@ + self.enc(),
    {
        out.push(141);
        self.arg1.encode(out)?;
        self.arg2.encode(out)?;
        self.arg3.encode(out)?;
        self.arg4.encode(out)?;
        proof {
            assert(out@ =~= old(out)@ + self.enc());
        }
        Ok(())
    }
}

#[derive(Debug, PartialEq)]
pub struct BsGetUtf32 {
    pub arg1: Term,
    pub arg2: Term,
    pub arg3: Term,
    pub arg4: Term,
    pub arg5: Term,
}

impl Opcode for BsGetUtf32 {
    const CODE: u8 = 142;
}

impl BsGetUtf32 {
    /// The operand views of this instruction, in wire order.
    pub open spec fn args(&self) -> Seq<TermV> {
        seq![
            self.arg1@,
            self.arg2@,
            self.arg3@,
            self.arg4@,
            self.arg5@,
        ]
    }

    /// The canonical byte string of this instruction.
    pub open spec fn enc(&self) -> Seq<u8> {
        seq![142u8] + wire::enc_termv(self.arg1@) + wire::enc_termv(self.arg2@) + wire::enc_termv(self.arg3@) + wire::enc_termv(self.arg4@) + wire::enc_termv(self.arg5@)
    }

    #[verifier::rlimit(100)]
    pub(crate) fn decode_operands(r: &mut Reader<'_>) -> (res: Result<BsGetUtf32, DecodeError>)
        ensures
            match res {
                Ok(v) => chain5(ArgKind::Any, ArgKind::Any, ArgKind::Any, ArgKind::Any, ArgKind::Any, old(r).remaining()) matches Ok((args, n)) && args == v.args()
                    && n <= old(r).remaining().len() && final(r).remaining() == old(r).remaining().skip(n as int),
                Err(e) => chain5(ArgKind::Any, ArgKind::Any, ArgKind::Any, ArgKind::Any, ArgKind::Any, old(r).remaining()) matches Err(se) && se == e@,
            },
    {
        let arg1 = crate::term::decode_term_arg(r)?;
        let arg2 = crate::term::decode_term_arg(r)?;
        let arg3 = crate::term::decode_term_arg(r)?;
        let arg4 = crate::term::decode_term_arg(r)?;
        let arg5 = crate::term::decode_term_arg(r)?;
        Ok(BsGetUtf32 { arg1, arg2, arg3, arg4, arg5 })
    }

    #[verifier::rlimit(100)]
    pub(crate) fn encode_operands(&self, out: &mut Vec<u8>) -> (res: Result<(), EncodeError>)
        ensures
            res is Ok,
            final(out)@ == old(out)@ + self.enc(),
    {
        out.push(142);
        self.arg1.encode(out)?;
        self.arg2.encode(out)?;
        self.arg3.encode(out)?;
        self.arg4.encode(out)?;
        self.arg5.encode(out)?;
        proof {
            assert(out@ =~= old(out)@ + self.enc());
        }
        Ok(())
    }
}

#[derive(Debug, PartialEq)]
pub struct BsSkipUtf32 {
    pub arg1: Term,
    pub arg2: Term,
    pub arg3: Term,
    pub arg4: Term,
}

impl Opcode for BsSkipUtf32 {
    const CODE: u8 = 143;
}

impl BsSkipUtf32 {
    /// The operand views of this instruction, in wire order.
    pub open spec fn args(&self) -> Seq<TermV> {
        seq![
            self.arg1@,
            self.arg2@,
            self.arg3@,
            self.arg4@,
        ]
    }

    /// The canonical byte string of this instruction.
    pub open spec fn enc(&self) -> Seq<u8> {
        seq![143u8] + wire::enc_termv(self.arg1@) + wire::enc_termv(self.arg2@) + wire::enc_termv(self.arg3@) + wire::enc_termv(self.arg4@)
    }

    pub(crate) fn decode_operands(r: &mut Reader<'_>) -> (res: Result<BsSkipUtf32, DecodeError>)
        ensures
            match res {
                Ok(v) => chain4(ArgKind::Any, ArgKind::Any, ArgKind::Any, ArgKind::Any, old(r).remaining()) matches Ok((args, n)) && args == v.args()
                    && n <= old(r).remaining().len() && final(r).remaining() == old(r).remaining().skip(n as int),
                Err(e) => chain4(ArgKind::Any, ArgKind::Any, ArgKind::Any, ArgKind::Any, old(r).remaining()) matches Err(se) && se == e@,
            },
    {
        let arg1 = crate::term::decode_term_arg(r)?;
        let arg2 = crate::term::decode_term_arg(r)?;
        let arg3 = crate::term::decode_term_arg(r)?;
        let arg4 = crate::term::decode_term_arg(r)?;
        Ok(BsSkipUtf32 { arg1, arg2, arg3, arg4 })
    }

    pub(crate) fn encode_operands(&self, out: &mut Vec<u8>) -> (res: Result<(), EncodeError>)
        ensures
            res is Ok,
            final(out)@ == old(out)@ + self.enc(),
    {
        out.push(143);
        self.arg1.encode(out)?;
        self.arg2.encode(out)?;
        self.arg3.encode(out)?;
        self.arg4.encode(out)?;
        proof {
            assert(out@ =~= old(out)@ + self.enc());
        }
        Ok(())
    }
}

#[derive(Debug, PartialEq)]
pub struct BsUtf8Size {
    pub arg1: Term,
    pub arg2: Term,
    pub arg3: Term,
}

impl Opcode for BsUtf8Size {
    const CODE: u8 = 144;
}

impl BsUtf8Size {
    /// The operand views of this instruction, in wire order.
    pub open spec fn args(&self) -> Seq<TermV> {
        seq![
            self.arg1@,
            self.arg2@,
            self.arg3@,
        ]
    }

    /// The canonical byte string of this instruction.
    pub open spec fn enc(&self) -> Seq<u8> {
        seq![144u8] + wire::enc_termv(self.arg1@) + wire::enc_termv(self.arg2@) + wire::enc_termv(self.arg3@)
    }

    pub(crate) fn decode_operands(r: &mut Reader<'_>) -> (res: Result<BsUtf8Size, DecodeError>)
        ensures
            match res {
                Ok(v) => chain3(ArgKind::Any, ArgKind::Any, ArgKind::Any, old(r).remaining()) matches Ok((args, n)) && args == v.args()
                    && n <= old(r).remaining().len() && final(r).remaining() == old(r).remaining().skip(n as int),
                Err(e) => chain3(ArgKind::Any, ArgKind::Any, ArgKind::Any, old(r).remaining()) matches Err(se) && se == e@,
            },
    {
        let arg1 = crate::term::decode_term_arg(r)?;
        let arg2 = crate::term::decode_term_arg(r)?;
        let arg3 = crate::term::decode_term_arg(r)?;
        Ok(BsUtf8Size { arg1, arg2, arg3 })
    }

    pub(crate) fn encode_operands(&self, out: &mut Vec<u8>) -> (res: Result<(), EncodeError>)
        ensures
            res is Ok,
            final(out)@ == old(out)@ + self.enc(),
    {
        out.push(144);
        self.arg1.encode(out)?;
        self.arg2.encode(out)?;
        self.arg3.encode(out)?;
        proof {
            assert(out@ =~= old(out)@ + self.enc());
        }
        Ok(())
    }
}

#[derive(Debug, PartialEq)]
pub struct BsPutUtf8 {
    pub arg1: Term,
    pub arg2: Term,
    pub arg3: Term,
}

impl Opcode for BsPutUtf8 {
    const CODE: u8 = 145;
}

impl BsPutUtf8 {
    /// The operand views of this instruction, in wire order.
    pub open spec fn args(&self) -> Seq<TermV> {
        seq![
            self.arg1@,
            self.arg2@,
            self.arg3@,
        ]
    }

    /// The canonical byte string of this instruction.
    pub open spec fn enc(&self) -> Seq<u8> {
        seq![145u8] + wire::enc_termv(self.arg1@) + wire::enc_termv(self.arg2@) + wire::enc_termv(self.arg3@)
    }

    pub(crate) fn decode_operands(r: &mut Reader<'_>) -> (res: Result<BsPutUtf8, DecodeError>)
        ensures
            match res {
                Ok(v) => chain3(ArgKind::Any, ArgKind::Any, ArgKind::Any, old(r).remaining()) matches Ok((args, n)) && args == v.args()
                    && n <= old(r).remaining().len() && final(r).remaining() == old(r).remaining().skip(n as int),
                Err(e) => chain3(ArgKind::Any, ArgKind::Any, ArgKind::Any, old(r).remaining()) matches Err(se) && se == e@,
            },
    {
        let arg1 = crate::term::decode_term_arg(r)?;
        let arg2 = crate::term::decode_term_arg(r)?;
        let arg3 = crate::term::decode_term_arg(r)?;
        Ok(BsPutUtf8 { arg1, arg2, arg3 })
    }

    pub(crate) fn encode_operands(&self, out: &mut Vec<u8>) -> (res: Result<(), EncodeError>)
        ensures
            res is Ok,
            final(out)@ == old(out)@ + self.enc(),
    {
        out.push(145);
        self.arg1.encode(out)?;
        self.arg2.encode(out)?;
        self.arg3.encode(out)?;
        proof {
            assert(out@ =~= old(out)@ + self.enc());
        }
        Ok(())
    }
}

#[derive(Debug, PartialEq)]
pub struct BsUtf16Size {
    pub arg1: Term,
    pub arg2: Term,
    pub arg3: Term,
}

impl Opcode for BsUtf16Size {
    const CODE: u8 = 146;
}

impl BsUtf16Size {
    /// The operand views of this instruction, in wire order.
    pub open spec fn args(&self) -> Seq<TermV> {
        seq![
            self.arg1@,
            self.arg2@,
            self.arg3@,
        ]
    }

    /// The canonical byte string of this instruction.
    pub open spec fn enc(&self) -> Seq<u8> {
        seq![146u8] + wire::enc_termv(self.arg1@) + wire::enc_termv(self.arg2@) + wire::enc_termv(self.arg3@)
    }

    pub(crate) fn decode_operands(r: &mut Reader<'_>) -> (res: Result<BsUtf16Size, DecodeError>)
        ensures
            match res {
                Ok(v) => chain3(ArgKind::Any, ArgKind::Any, ArgKind::Any, old(r).remaining()) matches Ok((args, n)) && args == v.args()
                    && n <= old(r).remaining().len() && final(r).remaining() == old(r).remaining().skip(n as int),
                Err(e) => chain3(ArgKind::Any, ArgKind::Any, ArgKind::Any, old(r).remaining()) matches Err(se) && se == e@,
            },
    {
        let arg1 = crate::term::decode_term_arg(r)?;
        let arg2 = crate::term::decode_term_arg(r)?;
        let arg3 = crate::term::decode_term_arg(r)?;
        Ok(BsUtf16Size { arg1, arg2, arg3 })
    }

    pub(crate) fn encode_operands(&self, out: &mut Vec<u8>) -> (res: Result<(), EncodeError>)
        ensures
            res is Ok,
            final(out)@ == old(out)@ + self.enc(),
    {
        out.push(146);
        self.arg1.encode(out)?;
        self.arg2.encode(out)?;
        self.arg3.encode(out)?;
        proof {
            assert(out@ =~= old(out)@ + self.enc());
        }
        Ok(())
    }
}

#[derive(Debug, PartialEq)]
pub struct BsPutUtf16 {
    pub arg1: Term,
    pub arg2: Term,
    pub arg3: Term,
}

impl Opcode for BsPutUtf16 {
    const CODE: u8 = 147;
}

impl BsPutUtf16 {
    /// The operand views of this instruction, in wire order.
    pub open spec fn args(&self) -> Seq<TermV> {
        seq![
            self.arg1@,
            self.arg2@,
            self.arg3@,
        ]
    }

    /// The canonical byte string of this instruction.
    pub open spec fn enc(&self) -> Seq<u8> {
        seq![147u8] + wire::enc_termv(self.arg1@) + wire::enc_termv(self.arg2@) + wire::enc_termv(self.arg3@)
    }

    pub(crate) fn decode_operands(r: &mut Reader<'_>) -> (res: Result<BsPutUtf16, DecodeError>)
        ensures
            match res {
                Ok(v) => chain3(ArgKind::Any, ArgKind::Any, ArgKind::Any, old(r).remaining()) matches Ok((args, n)) && args == v.args()
                    && n <= old(r).remaining().len() && final(r).remaining() == old(r).remaining().skip(n as int),
                Err(e) => chain3(ArgKind::Any, ArgKind::Any, ArgKind::Any, old(r).remaining()) matches Err(se) && se == e@,
            },
    {
        let arg1 = crate::term::decode_term_arg(r)?;
        let arg2 = crate::term::decode_term_arg(r)?;
        let arg3 = crate::term::decode_term_arg(r)?;
        Ok(BsPutUtf16 { arg1, arg2, arg3 })
    }

    pub(crate) fn encode_operands(&self, out: &mut Vec<u8>) -> (res: Result<(), EncodeError>)
        ensures
            res is Ok,
            final(out)@ == old(out)@ + self.enc(),
    {
        out.push(147);
        self.arg1.encode(out)?;
        self.arg2.encode(out)?;
        self.arg3.encode(out)?;
        proof {
            assert(out@ =~= old(out)@ + self.enc());
        }
        Ok(())
    }
}

#[derive(Debug, PartialEq)]
pub struct BsPutUtf32 {
    pub arg1: Term,
    pub arg2: Term,
    pub arg3: Term,
}

impl Opcode for BsPutUtf32 {
    const CODE: u8 = 148;
}

impl BsPutUtf32 {
    /// The operand views of this instruction, in wire order.
    pub open spec fn args(&self) -> Seq<TermV> {
        seq![
            self.arg1@,
            self.arg2@,
            self.arg3@,
        ]
    }

    /// The canonical byte string of this instruction.
    pub open spec fn enc(&self) -> Seq<u8> {
        seq![148u8] + wire::enc_termv(self.arg1@) + wire::enc_termv(self.arg2@) + wire::enc_termv(self.arg3@)
    }

    pub(crate) fn decode_operands(r: &mut Reader<'_>) -> (res: Result<BsPutUtf32, DecodeError>)
        ensures
            match res {
                Ok(v) => chain3(ArgKind::Any, ArgKind::Any, ArgKind::Any, old(r).remaining()) matches Ok((args, n)) && args == v.args()
                    && n <= old(r).remaining().len() && final(r).remaining() == old(r).remaining().skip(n as int),
                Err(e) => chain3(ArgKind::Any, ArgKind::Any, ArgKind::Any, old(r).remaining()) matches Err(se) && se == e@,
            },
    {
        let arg1 = crate::term::decode_term_arg(r)?;
        let arg2 = crate::term::decode_term_arg(r)?;
        let arg3 = crate::term::decode_term_arg(r)?;
        Ok(BsPutUtf32 { arg1, arg2, arg3 })
    }

    pub(crate) fn encode_operands(&self, out: &mut Vec<u8>) -> (res: Result<(), EncodeError>)
        ensures
            res is Ok,
            final(out)@ == old(out)@ + self.enc(),
    {
        out.push(148);
        self.arg1.encode(out)?;
        self.arg2.encode(out)?;
        self.arg3.encode(out)?;
        proof {
            assert(out@ =~= old(out)@ + self.enc());
        }
        Ok(())
    }
}

#[derive(Debug, PartialEq)]
pub struct OnLoad {}

impl Opcode for OnLoad {
    const CODE: u8 = 149;
}

impl OnLoad {
    /// The operand views of this instruction, in wire order.
    pub open spec fn args(&self) -> Seq<TermV> {
        Seq::empty()
    }

    /// The canonical byte string of this instruction.
    pub open spec fn enc(&self) -> Seq<u8> {
        seq![149u8]
    }

    pub(crate) fn decode_operands(r: &mut Reader<'_>) -> (res: Result<OnLoad, DecodeError>)
        ensures
            match res {
                Ok(v) => chain0(old(r).remaining()) matches Ok((args, n)) && args == v.args()
                    && n <= old(r).remaining().len() && final(r).remaining() == old(r).remaining().skip(n as int),
                Err(e) => chain0(old(r).remaining()) matches Err(se) && se == e@,
            },
    {
        proof {
            assert(old(r).remaining().skip(0) =~= old(r).remaining());
        }
        Ok(OnLoad {  })
    }

    pub(crate) fn encode_operands(&self, out: &mut Vec<u8>) -> (res: Result<(), EncodeError>)
        ensures
            res is Ok,
            final(out)@ == old(out)@ + self.enc(),
    {
        out.push(149);
        proof {
            assert(out@ =~= old(out)@ + self.enc());
        }
        Ok(())
    }
}

#[derive(Debug, PartialEq)]
pub struct RecvMark {
    pub arg1: Term,
}

impl Opcode for RecvMark {
    const CODE: u8 = 150;
}

impl RecvMark {
    /// The operand views of this instruction, in wire order.
    pub open spec fn args(&self) -> Seq<TermV> {
        seq![
            self.arg1@,
        ]
    }

    /// The canonical byte string of this instruction.
    pub open spec fn enc(&self) -> Seq<u8> {
        seq![150u8] + wire::enc_termv(self.arg1@)
    }

    pub(crate) fn decode_operands(r: &mut Reader<'_>) -> (res: Result<RecvMark, DecodeError>)
        ensures
            match res {
                Ok(v) => chain1(ArgKind::Any, old(r).remaining()) matches Ok((args, n)) && args == v.args()
                    && n <= old(r).remaining().len() && final(r).remaining() == old(r).remaining().skip(n as int),
                Err(e) => chain1(ArgKind::Any, old(r).remaining()) matches Err(se) && se == e@,
            },
    {
        let arg1 = crate::term::decode_term_arg(r)?;
        Ok(RecvMark { arg1 })
    }

    pub(crate) fn encode_operands(&self, out: &mut Vec<u8>) -> (res: Result<(), EncodeError>)
        ensures
            res is Ok,
            final(out)@ == old(out)@ + self.enc(),
    {
        out.push(150);
        self.arg1.encode(out)?;
        proof {
            assert(out@ =~= old(out)@ + self.enc());
        }
        Ok(())
    }
}

#[derive(Debug, PartialEq)]
pub struct RecvSet {
    pub arg1: Term,
}

impl Opcode for RecvSet {
    const CODE: u8 = 151;
}

impl RecvSet {
    /// The operand views of this instruction, in wire order.
    pub open spec fn args(&self) -> Seq<TermV> {
        seq![
            self.arg1@,
        ]
    }

    /// The canonical byte string of this instruction.
    pub open spec fn enc(&self) -> Seq<u8> {
        seq![151u8] + wire::enc_termv(self.arg1@)
    }

    pub(crate) fn decode_operands(r: &mut Reader<'_>) -> (res: Result<RecvSet, DecodeError>)
        ensures
            match res {
                Ok(v) => chain1(ArgKind::Any, old(r).remaining()) matches Ok((args, n)) && args == v.args()
                    && n <= old(r).remaining().len() && final(r).remaining() == old(r).remaining().skip(n as int),
                Err(e) => chain1(ArgKind::Any, old(r).remaining()) matches Err(se) && se == e@,
            },
    {
        let arg1 = crate::term::decode_term_arg(r)?;
        Ok(RecvSet { arg1 })
    }

    pub(crate) fn encode_operands(&self, out: &mut Vec<u8>) -> (res: Result<(), EncodeError>)
        ensures
            res is Ok,
            final(out)@ == old(out)@ + self.enc(),
    {
        out.push(151);
        self.arg1.encode(out)?;
        proof {
            assert(out@ =~= old(out)@ + self.enc());
        }
        Ok(())
    }
}

#[derive(Debug, PartialEq)]
pub struct GcBif3 {
    pub arg1: Term,
    pub arg2: Term,
    pub arg3: Term,
    pub arg4: Term,
    pub arg5: Term,
    pub arg6: Term,
    pub arg7: Term,
}

impl Opcode for GcBif3 {
    const CODE: u8 = 152;
}

impl GcBif3 {
    /// The operand views of this instruction, in wire order.
    pub open spec fn args(&self) -> Seq<TermV> {
        seq![
            self.arg1@,
            self.arg2@,
            self.arg3@,
            self.arg4@,
            self.arg5@,
            self.arg6@,
            self.arg7@,
        ]
    }

    /// The canonical byte string of this instruction.
    pub open spec fn enc(&self) -> Seq<u8> {
        seq![152u8] + wire::enc_termv(self.arg1@) + wire::enc_termv(self.arg2@) + wire::enc_termv(self.arg3@) + wire::enc_termv(self.arg4@) + wire::enc_termv(self.arg5@) + wire::enc_termv(self.arg6@) + wire::enc_termv(self.arg7@)
    }

    #[verifier::rlimit(100)]
    pub(crate) fn decode_operands(r: &mut Reader<'_>) -> (res: Result<GcBif3, DecodeError>)
        ensures
            match res {
                Ok(v) => chain7(ArgKind::Any, ArgKind::Any, ArgKind::Any, ArgKind::Any, ArgKind::Any, ArgKind::Any, ArgKind::Any, old(r).remaining()) matches Ok((args, n)) && args == v.args()
                    && n <= old(r).remaining().len() && final(r).remaining() == old(r).remaining().skip(n as int),
                Err(e) => chain7(ArgKind::Any, ArgKind::Any, ArgKind::Any, ArgKind::Any, ArgKind::Any, ArgKind::Any, ArgKind::Any, old(r).remaining()) matches Err(se) && se == e@,
            },
    {
        let arg1 = crate::term::decode_term_arg(r)?;
        let arg2 = crate::term::decode_term_arg(r)?;
        let arg3 = crate::term::decode_term_arg(r)?;
        let arg4 = crate::term::decode_term_arg(r)?;
        let arg5 = crate::term::decode_term_arg(r)?;
        let arg6 = crate::term::decode_term_arg(r)?;
        let arg7 = crate::term::decode_term_arg(r)?;
        Ok(GcBif3 { arg1, arg2, arg3, arg4, arg5, arg6, arg7 })
    }

    #[verifier::rlimit(100)]
    pub(crate) fn encode_operands(&self, out: &mut Vec<u8>) -> (res: Result<(), EncodeError>)
        ensures
            res is Ok,
            final(out)@ == old(out)@ + self.enc(),
    {
        out.push(152);
        self.arg1.encode(out)?;
        self.arg2.encode(out)?;
        self.arg3.encode(out)?;
        self.arg4.encode(out)?;
        self.arg5.encode(out)?;
        self.arg6.encode(out)?;
        self.arg7.encode(out)?;
        proof {
            assert(out@ =~= old(out)@ + self.enc());
        }
        Ok(())
    }
}

#[derive(Debug, PartialEq)]
pub struct Line {
    pub literal: usize,
}

impl Opcode for Line {
    const CODE: u8 = 153;
}

impl Line {
    /// The operand views of this instruction, in wire order.
    pub open spec fn args(&self) -> Seq<TermV> {
        seq![
            TermV::Usize(self.literal as int),
        ]
    }

    /// The canonical byte string of this instruction.
    pub open spec fn enc(&self) -> Seq<u8> {
        seq![153u8] + wire::enc_termv(TermV::Usize(self.literal as int))
    }

    pub(crate) fn decode_operands(r: &mut Reader<'_>) -> (res: Result<Line, DecodeError>)
        ensures
            match res {
                Ok(v) => chain1(ArgKind::U, old(r).remaining()) matches Ok((args, n)) && args == v.args()
                    && n <= old(r).remaining().len() && final(r).remaining() == old(r).remaining().skip(n as int),
                Err(e) => chain1(ArgKind::U, old(r).remaining()) matches Err(se) && se == e@,
            },
    {
        let literal = crate::term::decode_usize_arg(r)?;
        Ok(Line { literal })
    }

    pub(crate) fn encode_operands(&self, out: &mut Vec<u8>) -> (res: Result<(), EncodeError>)
        ensures
            res is Ok,
            final(out)@ == old(out)@ + self.enc(),
    {
        out.push(153);
        crate::term::encode_usize(0, self.literal, out);
        proof {
            assert(out@ =~= old(out)@ + self.enc());
        }
        Ok(())
    }
}

#[derive(Debug, PartialEq)]
pub struct PutMapAssoc {
    pub arg1: Term,
    pub arg2: Term,
    pub arg3: Term,
    pub arg4: Term,
    pub arg5: Term,
}

impl Opcode for PutMapAssoc {
    const CODE: u8 = 154;
}

impl PutMapAssoc {
    /// The operand views of this instruction, in wire order.
    pub open spec fn args(&self) -> Seq<TermV> {
        seq![
            self.arg1@,
            self.arg2@,
            self.arg3@,
            self.arg4@,
            self.arg5@,
        ]
    }

    /// The canonical byte string of this instruction.
    pub open spec fn enc(&self) -> Seq<u8> {
        seq![154u8] + wire::enc_termv(self.arg1@) + wire::enc_termv(self.arg2@) + wire::enc_termv(self.arg3@) + wire::enc_termv(self.arg4@) + wire::enc_termv(self.arg5@)
    }

    #[verifier::rlimit(100)]
    pub(crate) fn decode_operands(r: &mut Reader<'_>) -> (res: Result<PutMapAssoc, DecodeError>)
        ensures
            match res {
                Ok(v) => chain5(ArgKind::Any, ArgKind::Any, ArgKind::Any, ArgKind::Any, ArgKind::Any, old(r).remaining()) matches Ok((args, n)) && args == v.args()
                    && n <= old(r).remaining().len() && final(r).remaining() == old(r).remaining().skip(n as int),
                Err(e) => chain5(ArgKind::Any, ArgKind::Any, ArgKind::Any, ArgKind::Any, ArgKind::Any, old(r).remaining()) matches Err(se) && se == e@,
            },
    {
        let arg1 = crate::term::decode_term_arg(r)?;
        let arg2 = crate::term::decode_term_arg(r)?;
        let arg3 = crate::term::decode_term_arg(r)?;
        let arg4 = crate::term::decode_term_arg(r)?;
        let arg5 = crate::term::decode_term_arg(r)?;
        Ok(PutMapAssoc { arg1, arg2, arg3, arg4, arg5 })
    }

    #[verifier::rlimit(100)]
    pub(crate) fn encode_operands(&self, out: &mut Vec<u8>) -> (res: Result<(), EncodeError>)
        ensures
            res is Ok,
            final(out)@ == old(out)@ + self.enc(),
    {
        out.push(154);
        self.arg1.encode(out)?;
        self.arg2.encode(out)?;
        self.arg3.encode(out)?;
        self.arg4.encode(out)?;
        self.arg5.encode(out)?;
        proof {
            assert(out@ =~= old(out)@ + self.enc());
        }
        Ok(())
    }
}

#[derive(Debug, PartialEq)]
pub struct PutMapExact {
    pub arg1: Term,
    pub arg2: Term,
    pub arg3: Term,
    pub arg4: Term,
    pub arg5: Term,
}

impl Opcode for PutMapExact {
    const CODE: u8 = 155;
}

impl PutMapExact {
    /// The operand views of this instruction, in wire order.
    pub open spec fn args(&self) -> Seq<TermV> {
        seq![
            self.arg1@,
            self.arg2@,
            self.arg3@,
            self.arg4@,
            self.arg5@,
        ]
    }

    /// The canonical byte string of this instruction.
    pub open spec fn enc(&self) -> Seq<u8> {
        seq![155u8] + wire::enc_termv(self.arg1@) + wire::enc_termv(self.arg2@) + wire::enc_termv(self.arg3@) + wire::enc_termv(self.arg4@) + wire::enc_termv(self.arg5@)
    }

    #[verifier::rlimit(100)]
    pub(crate) fn decode_operands(r: &mut Reader<'_>) -> (res: Result<PutMapExact, DecodeError>)
        ensures
            match res {
                Ok(v) => chain5(ArgKind::Any, ArgKind::Any, ArgKind::Any, ArgKind::Any, ArgKind::Any, old(r).remaining()) matches Ok((args, n)) && args == v.args()
                    && n <= old(r).remaining().len() && final(r).remaining() == old(r).remaining().skip(n as int),
                Err(e) => chain5(ArgKind::Any, ArgKind::Any, ArgKind::Any, ArgKind::Any, ArgKind::Any, old(r).remaining()) matches Err(se) && se == e@,
            },
    {
        let arg1 = crate::term::decode_term_arg(r)?;
        let arg2 = crate::term::decode_term_arg(r)?;
        let arg3 = crate::term::decode_term_arg(r)?;
        let arg4 = crate::term::decode_term_arg(r)?;
        let arg5 = crate::term::decode_term_arg(r)?;
        Ok(PutMapExact { arg1, arg2, arg3, arg4, arg5 })
    }

    #[verifier::rlimit(100)]
    pub(crate) fn encode_operands(&self, out: &mut Vec<u8>) -> (res: Result<(), EncodeError>)
        ensures
            res is Ok,
            final(out)@ == old(out)@ + self.enc(),
    {
        out.push(155);
        self.arg1.encode(out)?;
        self.arg2.encode(out)?;
        self.arg3.encode(out)?;
        self.arg4.encode(out)?;
        self.arg5.encode(out)?;
        proof {
            assert(out@ =~= old(out)@ + self.enc());
        }
        Ok(())
    }
}

#[derive(Debug, PartialEq)]
pub struct IsMap {
    pub arg1: Term,
    pub arg2: Term,
}

impl Opcode for IsMap {
    const CODE: u8 = 156;
}

impl IsMap {
    /// The operand views of this instruction, in wire order.
    pub open spec fn args(&self) -> Seq<TermV> {
        seq![
            self.arg1@,
            self.arg2@,
        ]
    }

    /// The canonical byte string of this instruction.
    pub open spec fn enc(&self) -> Seq<u8> {
        seq![156u8] + wire::enc_termv(self.arg1@) + wire::enc_termv(self.arg2@)
    }

    pub(crate) fn decode_operands(r: &mut Reader<'_>) -> (res: Result<IsMap, DecodeError>)
        ensures
            match res {
                Ok(v) => chain2(ArgKind::Any, ArgKind::Any, old(r).remaining()) matches Ok((args, n)) && args == v.args()
                    && n <= old(r).remaining().len() && final(r).remaining() == old(r).remaining().skip(n as int),
                Err(e) => chain2(ArgKind::Any, ArgKind::Any, old(r).remaining()) matches Err(se) && se == e@,
            },
    {
        let arg1 = crate::term::decode_term_arg(r)?;
        let arg2 = crate::term::decode_term_arg(r)?;
        Ok(IsMap { arg1, arg2 })
    }

    pub(crate) fn encode_operands(&self, out: &mut Vec<u8>) -> (res: Result<(), EncodeError>)
        ensures
            res is Ok,
            final(out)@ == old(out)@ + self.enc(),
    {
        out.push(156);
        self.arg1.encode(out)?;
        self.arg2.encode(out)?;
        proof {
            assert(out@ =~= old(out)@ + self.enc());
        }
        Ok(())
    }
}

#[derive(Debug, PartialEq)]
pub struct HasMapFields {
    pub arg1: Term,
    pub arg2: Term,
    pub arg3: Term,
}

impl Opcode for HasMapFields {
    const CODE: u8 = 157;
}

impl HasMapFields {
    /// The operand views of this instruction, in wire order.
    pub open spec fn args(&self) -> Seq<TermV> {
        seq![
            self.arg1@,
            self.arg2@,
            self.arg3@,
        ]
    }

    /// The canonical byte string of this instruction.
    pub open spec fn enc(&self) -> Seq<u8> {
        seq![157u8] + wire::enc_termv(self.arg1@) + wire::enc_termv(self.arg2@) + wire::enc_termv(self.arg3@)
    }

    pub(crate) fn decode_operands(r: &mut Reader<'_>) -> (res: Result<HasMapFields, DecodeError>)
        ensures
            match res {
                Ok(v) => chain3(ArgKind::Any, ArgKind::Any, ArgKind::Any, old(r).remaining()) matches Ok((args, n)) && args == v.args()
                    && n <= old(r).remaining().len() && final(r).remaining() == old(r).remaining().skip(n as int),
                Err(e) => chain3(ArgKind::Any, ArgKind::Any, ArgKind::Any, old(r).remaining()) matches Err(se) && se == e@,
            },
    {
        let arg1 = crate::term::decode_term_arg(r)?;
        let arg2 = crate::term::decode_term_arg(r)?;
        let arg3 = crate::term::decode_term_arg(r)?;
        Ok(HasMapFields { arg1, arg2, arg3 })
    }

    pub(crate) fn encode_operands(&self, out: &mut Vec<u8>) -> (res: Result<(), EncodeError>)
        ensures
            res is Ok,
            final(out)@ == old(out)@ + self.enc(),
    {
        out.push(157);
        self.arg1.encode(out)?;
        self.arg2.encode(out)?;
        self.arg3.encode(out)?;
        proof {
            assert(out@ =~= old(out)@ + self.enc());
        }
        Ok(())
    }
}

#[derive(Debug, PartialEq)]
pub struct GetMapElement {
    pub arg1: Term,
    pub arg2: Term,
    pub arg3: Term,
}

impl Opcode for GetMapElement {
    const CODE: u8 = 158;
}

impl GetMapElement {
    /// The operand views of this instruction, in wire order.
    pub open spec fn args(&self) -> Seq<TermV> {
        seq![
            self.arg1@,
            self.arg2@,
            self.arg3@,
        ]
    }

    /// The canonical byte string of this instruction.
    pub open spec fn enc(&self) -> Seq<u8> {
        seq![158u8] + wire::enc_termv(self.arg1@) + wire::enc_termv(self.arg2@) + wire::enc_termv(self.arg3@)
    }

    pub(crate) fn decode_operands(r: &mut Reader<'_>) -> (res: Result<GetMapElement, DecodeError>)
        ensures
            match res {
                Ok(v) => chain3(ArgKind::Any, ArgKind::Any, ArgKind::Any, old(r).remaining()) matches Ok((args, n)) && args == v.args()
                    && n <= old(r).remaining().len() && final(r).remaining() == old(r).remaining().skip(n as int),
                Err(e) => chain3(ArgKind::Any, ArgKind::Any, ArgKind::Any, old(r).remaining()) matches Err(se) && se == e@,
            },
    {
        let arg1 = crate::term::decode_term_arg(r)?;
        let arg2 = crate::term::decode_term_arg(r)?;
        let arg3 = crate::term::decode_term_arg(r)?;
        Ok(GetMapElement { arg1, arg2, arg3 })
    }

    pub(crate) fn encode_operands(&self, out: &mut Vec<u8>) -> (res: Result<(), EncodeError>)
        ensures
            res is Ok,
            final(out)@ == old(out)@ + self.enc(),
    {
        out.push(158);
        self.arg1.encode(out)?;
        self.arg2.encode(out)?;
        self.arg3.encode(out)?;
        proof {
            assert(out@ =~= old(out)@ + self.enc());
        }
        Ok(())
    }
}

#[derive(Debug, PartialEq)]
pub struct IsTaggedTuple {
    pub label: crate::term::Label,
    pub register: Register,
    pub arity: usize,
    pub atom: Atom,
}

impl Opcode for IsTaggedTuple {
    const CODE: u8 = 159;
}

impl IsTaggedTuple {
    /// The operand views of this instruction, in wire order.
    pub open spec fn args(&self) -> Seq<TermV> {
        seq![
            TermV::Label(self.label.value as int),
            self.register@,
            TermV::Usize(self.arity as int),
            TermV::Atom(self.atom.value as int),
        ]
    }

    /// The canonical byte string of this instruction.
    pub open spec fn enc(&self) -> Seq<u8> {
        seq![159u8] + wire::enc_termv(TermV::Label(self.label.value as int)) + wire::enc_termv(self.register@) + wire::enc_termv(TermV::Usize(self.arity as int)) + wire::enc_termv(TermV::Atom(self.atom.value as int))
    }

    pub(crate) fn decode_operands(r: &mut Reader<'_>) -> (res: Result<IsTaggedTuple, DecodeError>)
        ensures
            match res {
                Ok(v) => chain4(ArgKind::Lbl, ArgKind::Reg, ArgKind::U, ArgKind::Atm, old(r).remaining()) matches Ok((args, n)) && args == v.args()
                    && n <= old(r).remaining().len() && final(r).remaining() == old(r).remaining().skip(n as int),
                Err(e) => chain4(ArgKind::Lbl, ArgKind::Reg, ArgKind::U, ArgKind::Atm, old(r).remaining()) matches Err(se) && se == e@,
            },
    {
        let label = crate::term::Label::decode(r)?;
        let register = Register::decode(r)?;
        let arity = crate::term::decode_usize_arg(r)?;
        let atom = Atom::decode(r)?;
        Ok(IsTaggedTuple { label, register, arity, atom })
    }

    pub(crate) fn encode_operands(&self, out: &mut Vec<u8>) -> (res: Result<(), EncodeError>)
        ensures
            res is Ok,
            final(out)@ == old(out)@ + self.enc(),
    {
        out.push(159);
        self.label.encode(out)?;
        self.register.encode(out)?;
        crate::term::encode_usize(0, self.arity, out);
        self.atom.encode(out)?;
        proof {
            assert(out@ =~= old(out)@ + self.enc());
        }
        Ok(())
    }
}

#[derive(Debug, PartialEq)]
pub struct BuildStacktrace {}

impl Opcode for BuildStacktrace {
    const CODE: u8 = 160;
}

impl BuildStacktrace {
    /// The operand views of this instruction, in wire order.
    pub open spec fn args(&self) -> Seq<TermV> {
        Seq::empty()
    }

    /// The canonical byte string of this instruction.
    pub open spec fn enc(&self) -> Seq<u8> {
        seq![160u8]
    }

    pub(crate) fn decode_operands(r: &mut Reader<'_>) -> (res: Result<BuildStacktrace, DecodeError>)
        ensures
            match res {
                Ok(v) => chain0(old(r).remaining()) matches Ok((args, n)) && args == v.args()
                    && n <= old(r).remaining().len() && final(r).remaining() == old(r).remaining().skip(n as int),
                Err(e) => chain0(old(r).remaining()) matches Err(se) && se == e@,
            },
    {
        proof {
            assert(old(r).remaining().skip(0) =~= old(r).remaining());
        }
        Ok(BuildStacktrace {  })
    }

    pub(crate) fn encode_operands(&self, out: &mut Vec<u8>) -> (res: Result<(), EncodeError>)
        ensures
            res is Ok,
            final(out)@ == old(out)@ + self.enc(),
    {
        out.push(160);
        proof {
            assert(out@ =~= old(out)@ + self.enc());
        }
        Ok(())
    }
}

#[derive(Debug, PartialEq)]
pub struct RawRaise {}

impl Opcode for RawRaise {
    const CODE: u8 = 161;
}

impl RawRaise {
    /// The operand views of this instruction, in wire order.
    pub open spec fn args(&self) -> Seq<TermV> {
        Seq::empty()
    }

    /// The canonical byte string of this instruction.
    pub open spec fn enc(&self) -> Seq<u8> {
        seq![161u8]
    }

    pub(crate) fn decode_operands(r: &mut Reader<'_>) -> (res: Result<RawRaise, DecodeError>)
        ensures
            match res {
                Ok(v) => chain0(old(r).remaining()) matches Ok((args, n)) && args == v.args()
                    && n <= old(r).remaining().len() && final(r).remaining() == old(r).remaining().skip(n as int),
                Err(e) => chain0(old(r).remaining()) matches Err(se) && se == e@,
            },
    {
        proof {
            assert(old(r).remaining().skip(0) =~= old(r).remaining());
        }
        Ok(RawRaise {  })
    }

    pub(crate) fn encode_operands(&self, out: &mut Vec<u8>) -> (res: Result<(), EncodeError>)
        ensures
            res is Ok,
            final(out)@ == old(out)@ + self.enc(),
    {
        out.push(161);
        proof {
            assert(out@ =~= old(out)@ + self.enc());
        }
        Ok(())
    }
}

#[derive(Debug, PartialEq)]
pub struct GetHd {
    pub arg1: Term,
    pub arg2: Term,
}

impl Opcode for GetHd {
    const CODE: u8 = 162;
}

impl GetHd {
    /// The operand views of this instruction, in wire order.
    pub open spec fn args(&self) -> Seq<TermV> {
        seq![
            self.arg1@,
            self.arg2@,
        ]
    }

    /// The canonical byte string of this instruction.
    pub open spec fn enc(&self) -> Seq<u8> {
        seq![162u8] + wire::enc_termv(self.arg1@) + wire::enc_termv(self.arg2@)
    }

    pub(crate) fn decode_operands(r: &mut Reader<'_>) -> (res: Result<GetHd, DecodeError>)
        ensures
            match res {
                Ok(v) => chain2(ArgKind::Any, ArgKind::Any, old(r).remaining()) matches Ok((args, n)) && args == v.args()
                    && n <= old(r).remaining().len() && final(r).remaining() == old(r).remaining().skip(n as int),
                Err(e) => chain2(ArgKind::Any, ArgKind::Any, old(r).remaining()) matches Err(se) && se == e@,
            },
    {
        let arg1 = crate::term::decode_term_arg(r)?;
        let arg2 = crate::term::decode_term_arg(r)?;
        Ok(GetHd { arg1, arg2 })
    }

    pub(crate) fn encode_operands(&self, out: &mut Vec<u8>) -> (res: Result<(), EncodeError>)
        ensures
            res is Ok,
            final(out)@ == old(out)@ + self.enc(),
    {
        out.push(162);
        self.arg1.encode(out)?;
        self.arg2.encode(out)?;
        proof {
            assert(out@ =~= old(out)@ + self.enc());
        }
        Ok(())
    }
}

#[derive(Debug, PartialEq)]
pub struct GetTl {
    pub arg1: Term,
    pub arg2: Term,
}

impl Opcode for GetTl {
    const CODE: u8 = 163;
}

impl GetTl {
    /// The operand views of this instruction, in wire order.
    pub open spec fn args(&self) -> Seq<TermV> {
        seq![
            self.arg1@,
            self.arg2@,
        ]
    }

    /// The canonical byte string of this instruction.
    pub open spec fn enc(&self) -> Seq<u8> {
        seq![163u8] + wire::enc_termv(self.arg1@) + wire::enc_termv(self.arg2@)
    }

    pub(crate) fn decode_operands(r: &mut Reader<'_>) -> (res: Result<GetTl, DecodeError>)
        ensures
            match res {
                Ok(v) => chain2(ArgKind::Any, ArgKind::Any, old(r).remaining()) matches Ok((args, n)) && args == v.args()
                    && n <= old(r).remaining().len() && final(r).remaining() == old(r).remaining().skip(n as int),
                Err(e) => chain2(ArgKind::Any, ArgKind::Any, old(r).remaining()) matches Err(se) && se == e@,
            },
    {
        let arg1 = crate::term::decode_term_arg(r)?;
        let arg2 = crate::term::decode_term_arg(r)?;
        Ok(GetTl { arg1, arg2 })
    }

    pub(crate) fn encode_operands(&self, out: &mut Vec<u8>) -> (res: Result<(), EncodeError>)
        ensures
            res is Ok,
            final(out)@ == old(out)@ + self.enc(),
    {
        out.push(163);
        self.arg1.encode(out)?;
        self.arg2.encode(out)?;
        proof {
            assert(out@ =~= old(out)@ + self.enc());
        }
        Ok(())
    }
}

#[derive(Debug, PartialEq)]
pub struct PutTuple2 {
    pub destination: Register,
    pub elements: List,
}

impl Opcode for PutTuple2 {
    const CODE: u8 = 164;
}

impl PutTuple2 {
    /// The operand views of this instruction, in wire order.
    pub open spec fn args(&self) -> Seq<TermV> {
        seq![
            self.destination@,
            TermV::List(self.elements@),
        ]
    }

    /// The canonical byte string of this instruction.
    pub open spec fn enc(&self) -> Seq<u8> {
        seq![164u8] + wire::enc_termv(self.destination@) + wire::enc_termv(TermV::List(self.elements@))
    }

    pub(crate) fn decode_operands(r: &mut Reader<'_>) -> (res: Result<PutTuple2, DecodeError>)
        ensures
            match res {
                Ok(v) => chain2(ArgKind::Reg, ArgKind::Lst, old(r).remaining()) matches Ok((args, n)) && args == v.args()
                    && n <= old(r).remaining().len() && final(r).remaining() == old(r).remaining().skip(n as int),
                Err(e) => chain2(ArgKind::Reg, ArgKind::Lst, old(r).remaining()) matches Err(se) && se == e@,
            },
    {
        let destination = Register::decode(r)?;
        let elements = crate::term::decode_list_arg(r)?;
        Ok(PutTuple2 { destination, elements })
    }

    pub(crate) fn encode_operands(&self, out: &mut Vec<u8>) -> (res: Result<(), EncodeError>)
        ensures
            res is Ok,
            final(out)@ == old(out)@ + self.enc(),
    {
        out.push(164);
        self.destination.encode(out)?;
        self.elements.encode(out)?;
        proof {
            assert(out@ =~= old(out)@ + self.enc());
        }
        Ok(())
    }
}

#[derive(Debug, PartialEq)]
pub struct BsGetTail {
    pub context: Term,
    pub destination: Register,
    pub live: usize,
}

impl Opcode for BsGetTail {
    const CODE: u8 = 165;
}

impl BsGetTail {
    /// The operand views of this instruction, in wire order.
    pub open spec fn args(&self) -> Seq<TermV> {
        seq![
            self.context@,
            self.destination@,
            TermV::Usize(self.live as int),
        ]
    }

    /// The canonical byte string of this instruction.
    pub open spec fn enc(&self) -> Seq<u8> {
        seq![165u8] + wire::enc_termv(self.context@) + wire::enc_termv(self.destination@) + wire::enc_termv(TermV::Usize(self.live as int))
    }

    pub(crate) fn decode_operands(r: &mut Reader<'_>) -> (res: Result<BsGetTail, DecodeError>)
        ensures
            match res {
                Ok(v) => chain3(ArgKind::Any, ArgKind::Reg, ArgKind::U, old(r).remaining()) matches Ok((args, n)) && args == v.args()
                    && n <= old(r).remaining().len() && final(r).remaining() == old(r).remaining().skip(n as int),
                Err(e) => chain3(ArgKind::Any, ArgKind::Reg, ArgKind::U, old(r).remaining()) matches Err(se) && se == e@,
            },
    {
        let context = crate::term::decode_term_arg(r)?;
        let destination = Register::decode(r)?;
        let live = crate::term::decode_usize_arg(r)?;
        Ok(BsGetTail { context, destination, live })
    }

    pub(crate) fn encode_operands(&self, out: &mut Vec<u8>) -> (res: Result<(), EncodeError>)
        ensures
            res is Ok,
            final(out)@ == old(out)@ + self.enc(),
    {
        out.push(165);
        self.context.encode(out)?;
        self.destination.encode(out)?;
        crate::term::encode_usize(0, self.live, out);
        proof {
            assert(out@ =~= old(out)@ + self.enc());
        }
        Ok(())
    }
}

#[derive(Debug, PartialEq)]
pub struct BsStartMatch3 {
    pub fail: crate::term::Label,
    pub bin: Term,
    pub live: usize,
    pub destination: Register,
}

impl Opcode for BsStartMatch3 {
    const CODE: u8 = 166;
}

impl BsStartMatch3 {
    /// The operand views of this instruction, in wire order.
    pub open spec fn args(&self) -> Seq<TermV> {
        seq![
            TermV::Label(self.fail.value as int),
            self.bin@,
            TermV::Usize(self.live as int),
            self.destination@,
        ]
    }

    /// The canonical byte string of this instruction.
    pub open spec fn enc(&self) -> Seq<u8> {
        seq![166u8] + wire::enc_termv(TermV::Label(self.fail.value as int)) + wire::enc_termv(self.bin@) + wire::enc_termv(TermV::Usize(self.live as int)) + wire::enc_termv(self.destination@)
    }

    pub(crate) fn decode_operands(r: &mut Reader<'_>) -> (res: Result<BsStartMatch3, DecodeError>)
        ensures
            match res {
                Ok(v) => chain4(ArgKind::Lbl, ArgKind::Any, ArgKind::U, ArgKind::Reg, old(r).remaining()) matches Ok((args, n)) && args == v.args()
                    && n <= old(r).remaining().len() && final(r).remaining() == old(r).remaining().skip(n as int),
                Err(e) => chain4(ArgKind::Lbl, ArgKind::Any, ArgKind::U, ArgKind::Reg, old(r).remaining()) matches Err(se) && se == e@,
            },
    {
        let fail = crate::term::Label::decode(r)?;
        let bin = crate::term::decode_term_arg(r)?;
        let live = crate::term::decode_usize_arg(r)?;
        let destination = Register::decode(r)?;
        Ok(BsStartMatch3 { fail, bin, live, destination })
    }

    pub(crate) fn encode_operands(&self, out: &mut Vec<u8>) -> (res: Result<(), EncodeError>)
        ensures
            res is Ok,
            final(out)@ == old(out)@ + self.enc(),
    {
        out.push(166);
        self.fail.encode(out)?;
        self.bin.encode(out)?;
        crate::term::encode_usize(0, self.live, out);
        self.destination.encode(out)?;
        proof {
            assert(out@ =~= old(out)@ + self.enc());
        }
        Ok(())
    }
}

#[derive(Debug, PartialEq)]
pub struct BsGetPosition {
    pub context: Term,
    pub destination: Register,
    pub live: usize,
}

impl Opcode for BsGetPosition {
    const CODE: u8 = 167;
}

impl BsGetPosition {
    /// The operand views of this instruction, in wire order.
    pub open spec fn args(&self) -> Seq<TermV> {
        seq![
            self.context@,
            self.destination@,
            TermV::Usize(self.live as int),
        ]
    }

    /// The canonical byte string of this instruction.
    pub open spec fn enc(&self) -> Seq<u8> {
        seq![167u8] + wire::enc_termv(self.context@) + wire::enc_termv(self.destination@) + wire::enc_termv(TermV::Usize(self.live as int))
    }

    pub(crate) fn decode_operands(r: &mut Reader<'_>) -> (res: Result<BsGetPosition, DecodeError>)
        ensures
            match res {
                Ok(v) => chain3(ArgKind::Any, ArgKind::Reg, ArgKind::U, old(r).remaining()) matches Ok((args, n)) && args == v.args()
                    && n <= old(r).remaining().len() && final(r).remaining() == old(r).remaining().skip(n as int),
                Err(e) => chain3(ArgKind::Any, ArgKind::Reg, ArgKind::U, old(r).remaining()) matches Err(se) && se == e@,
            },
    {
        let context = crate::term::decode_term_arg(r)?;
        let destination = Register::decode(r)?;
        let live = crate::term::decode_usize_arg(r)?;
        Ok(BsGetPosition { context, destination, live })
    }

    pub(crate) fn encode_operands(&self, out: &mut Vec<u8>) -> (res: Result<(), EncodeError>)
        ensures
            res is Ok,
            final(out)@ == old(out)@ + self.enc(),
    {
        out.push(167);
        self.context.encode(out)?;
        self.destination.encode(out)?;
        crate::term::encode_usize(0, self.live, out);
        proof {
            assert(out@ =~= old(out)@ + self.enc());
        }
        Ok(())
    }
}

#[derive(Debug, PartialEq)]
pub struct BsSetPosition {
    pub context: Term,
    pub position: Term,
}

impl Opcode for BsSetPosition {
    const CODE: u8 = 168;
}

impl BsSetPosition {
    /// The operand views of this instruction, in wire order.
    pub open spec fn args(&self) -> Seq<TermV> {
        seq![
            self.context@,
            self.position@,
        ]
    }

    /// The canonical byte string of this instruction.
    pub open spec fn enc(&self) -> Seq<u8> {
        seq![168u8] + wire::enc_termv(self.context@) + wire::enc_termv(self.position@)
    }

    pub(crate) fn decode_operands(r: &mut Reader<'_>) -> (res: Result<BsSetPosition, DecodeError>)
        ensures
            match res {
                Ok(v) => chain2(ArgKind::Any, ArgKind::Any, old(r).remaining()) matches Ok((args, n)) && args == v.args()
                    && n <= old(r).remaining().len() && final(r).remaining() == old(r).remaining().skip(n as int),
                Err(e) => chain2(ArgKind::Any, ArgKind::Any, old(r).remaining()) matches Err(se) && se == e@,
            },
    {
        let context = crate::term::decode_term_arg(r)?;
        let position = crate::term::decode_term_arg(r)?;
        Ok(BsSetPosition { context, position })
    }

    pub(crate) fn encode_operands(&self, out: &mut Vec<u8>) -> (res: Result<(), EncodeError>)
        ensures
            res is Ok,
            final(out)@ == old(out)@ + self.enc(),
    {
        out.push(168);
        self.context.encode(out)?;
        self.position.encode(out)?;
        proof {
            assert(out@ =~= old(out)@ + self.enc());
        }
        Ok(())
    }
}

#[derive(Debug, PartialEq)]
pub struct Swap {
    pub arg1: Term,
    pub arg2: Term,
}

impl Opcode for Swap {
    const CODE: u8 = 169;
}

impl Swap {
    /// The operand views of this instruction, in wire order.
    pub open spec fn args(&self) -> Seq<TermV> {
        seq![
            self.arg1@,
            self.arg2@,
        ]
    }

    /// The canonical byte string of this instruction.
    pub open spec fn enc(&self) -> Seq<u8> {
        seq![169u8] + wire::enc_termv(self.arg1@) + wire::enc_termv(self.arg2@)
    }

    pub(crate) fn decode_operands(r: &mut Reader<'_>) -> (res: Result<Swap, DecodeError>)
        ensures
            match res {
                Ok(v) => chain2(ArgKind::Any, ArgKind::Any, old(r).remaining()) matches Ok((args, n)) && args == v.args()
                    && n <= old(r).remaining().len() && final(r).remaining() == old(r).remaining().skip(n as int),
                Err(e) => chain2(ArgKind::Any, ArgKind::Any, old(r).remaining()) matches Err(se) && se == e@,
            },
    {
        let arg1 = crate::term::decode_term_arg(r)?;
        let arg2 = crate::term::decode_term_arg(r)?;
        Ok(Swap { arg1, arg2 })
    }

    pub(crate) fn encode_operands(&self, out: &mut Vec<u8>) -> (res: Result<(), EncodeError>)
        ensures
            res is Ok,
            final(out)@ == old(out)@ + self.enc(),
    {
        out.push(169);
        self.arg1.encode(out)?;
        self.arg2.encode(out)?;
        proof {
            assert(out@ =~= old(out)@ + self.enc());
        }
        Ok(())
    }
}

#[derive(Debug, PartialEq)]
pub struct BsStartMatch4 {
    pub arg1: Term,
    pub arg2: Term,
    pub arg3: Term,
    pub arg4: Term,
}

impl Opcode for BsStartMatch4 {
    const CODE: u8 = 170;
}

impl BsStartMatch4 {
    /// The operand views of this instruction, in wire order.
    pub open spec fn args(&self) -> Seq<TermV> {
        seq![
            self.arg1@,
            self.arg2@,
            self.arg3@,
            self.arg4@,
        ]
    }

    /// The canonical byte string of this instruction.
    pub open spec fn enc(&self) -> Seq<u8> {
        seq![170u8] + wire::enc_termv(self.arg1@) + wire::enc_termv(self.arg2@) + wire::enc_termv(self.arg3@) + wire::enc_termv(self.arg4@)
    }

    pub(crate) fn decode_operands(r: &mut Reader<'_>) -> (res: Result<BsStartMatch4, DecodeError>)
        ensures
            match res {
                Ok(v) => chain4(ArgKind::Any, ArgKind::Any, ArgKind::Any, ArgKind::Any, old(r).remaining()) matches Ok((args, n)) && args == v.args()
                    && n <= old(r).remaining().len() && final(r).remaining() == old(r).remaining().skip(n as int),
                Err(e) => chain4(ArgKind::Any, ArgKind::Any, ArgKind::Any, ArgKind::Any, old(r).remaining()) matches Err(se) && se == e@,
            },
    {
        let arg1 = crate::term::decode_term_arg(r)?;
        let arg2 = crate::term::decode_term_arg(r)?;
        let arg3 = crate::term::decode_term_arg(r)?;
        let arg4 = crate::term::decode_term_arg(r)?;
        Ok(BsStartMatch4 { arg1, arg2, arg3, arg4 })
    }

    pub(crate) fn encode_operands(&self, out: &mut Vec<u8>) -> (res: Result<(), EncodeError>)
        ensures
            res is Ok,
            final(out)@ == old(out)@ + self.enc(),
    {
        out.push(170);
        self.arg1.encode(out)?;
        self.arg2.encode(out)?;
        self.arg3.encode(out)?;
        self.arg4.encode(out)?;
        proof {
            assert(out@ =~= old(out)@ + self.enc());
        }
        Ok(())
    }
}

#[derive(Debug, PartialEq)]
pub struct MakeFun3 {
    pub arg1: Term,
    pub arg2: Term,
    pub arg3: Term,
}

impl Opcode for MakeFun3 {
    const CODE: u8 = 171;
}

impl MakeFun3 {
    /// The operand views of this instruction, in wire order.
    pub open spec fn args(&self) -> Seq<TermV> {
        seq![
            self.arg1@,
            self.arg2@,
            self.arg3@,
        ]
    }

    /// The canonical byte string of this instruction.
    pub open spec fn enc(&self) -> Seq<u8> {
        seq![171u8] + wire::enc_termv(self.arg1@) + wire::enc_termv(self.arg2@) + wire::enc_termv(self.arg3@)
    }

    pub(crate) fn decode_operands(r: &mut Reader<'_>) -> (res: Result<MakeFun3, DecodeError>)
        ensures
            match res {
                Ok(v) => chain3(ArgKind::Any, ArgKind::Any, ArgKind::Any, old(r).remaining()) matches Ok((args, n)) && args == v.args()
                    && n <= old(r).remaining().len() && final(r).remaining() == old(r).remaining().skip(n as int),
                Err(e) => chain3(ArgKind::Any, ArgKind::Any, ArgKind::Any, old(r).remaining()) matches Err(se) && se == e@,
            },
    {
        let arg1 = crate::term::decode_term_arg(r)?;
        let arg2 = crate::term::decode_term_arg(r)?;
        let arg3 = crate::term::decode_term_arg(r)?;
        Ok(MakeFun3 { arg1, arg2, arg3 })
    }

    pub(crate) fn encode_operands(&self, out: &mut Vec<u8>) -> (res: Result<(), EncodeError>)
        ensures
            res is Ok,
            final(out)@ == old(out)@ + self.enc(),
    {
        out.push(171);
        self.arg1.encode(out)?;
        self.arg2.encode(out)?;
        self.arg3.encode(out)?;
        proof {
            assert(out@ =~= old(out)@ + self.enc());
        }
        Ok(())
    }
}

#[derive(Debug, PartialEq)]
pub struct InitYregs {
    pub registers: Vec<YRegister>,
}

impl Opcode for InitYregs {
    const CODE: u8 = 172;
}

impl InitYregs {
    /// The operand views of this instruction, in wire order.
    pub open spec fn args(&self) -> Seq<TermV> {
        seq![
            TermV::List(crate::term::view_yregs(self.registers@)),
        ]
    }

    /// The canonical byte string of this instruction.
    pub open spec fn enc(&self) -> Seq<u8> {
        seq![172u8] + wire::enc_termv(TermV::List(crate::term::view_yregs(self.registers@)))
    }

    pub(crate) fn decode_operands(r: &mut Reader<'_>) -> (res: Result<InitYregs, DecodeError>)
        ensures
            match res {
                Ok(v) => chain1(ArgKind::Ys, old(r).remaining()) matches Ok((args, n)) && args == v.args()
                    && n <= old(r).remaining().len() && final(r).remaining() == old(r).remaining().skip(n as int),
                Err(e) => chain1(ArgKind::Ys, old(r).remaining()) matches Err(se) && se == e@,
            },
    {
        let registers = crate::term::decode_yreg_list(r)?;
        Ok(InitYregs { registers })
    }

    pub(crate) fn encode_operands(&self, out: &mut Vec<u8>) -> (res: Result<(), EncodeError>)
        ensures
            res is Ok,
            final(out)@ == old(out)@ + self.enc(),
    {
        out.push(172);
        crate::term::encode_yreg_list(&self.registers, out)?;
        proof {
            assert(out@ =~= old(out)@ + self.enc());
        }
        Ok(())
    }
}

#[derive(Debug, PartialEq)]
pub struct RecvMarkerBind {
    pub arg1: Term,
    pub arg2: Term,
}

impl Opcode for RecvMarkerBind {
    const CODE: u8 = 173;
}

impl RecvMarkerBind {
    /// The operand views of this instruction, in wire order.
    pub open spec fn args(&self) -> Seq<TermV> {
        seq![
            self.arg1@,
            self.arg2@,
        ]
    }

    /// The canonical byte string of this instruction.
    pub open spec fn enc(&self) -> Seq<u8> {
        seq![173u8] + wire::enc_termv(self.arg1@) + wire::enc_termv(self.arg2@)
    }

    pub(crate) fn decode_operands(r: &mut Reader<'_>) -> (res: Result<RecvMarkerBind, DecodeError>)
        ensures
            match res {
                Ok(v) => chain2(ArgKind::Any, ArgKind::Any, old(r).remaining()) matches Ok((args, n)) && args == v.args()
                    && n <= old(r).remaining().len() && final(r).remaining() == old(r).remaining().skip(n as int),
                Err(e) => chain2(ArgKind::Any, ArgKind::Any, old(r).remaining()) matches Err(se) && se == e@,
            },
    {
        let arg1 = crate::term::decode_term_arg(r)?;
        let arg2 = crate::term::decode_term_arg(r)?;
        Ok(RecvMarkerBind { arg1, arg2 })
    }

    pub(crate) fn encode_operands(&self, out: &mut Vec<u8>) -> (res: Result<(), EncodeError>)
        ensures
            res is Ok,
            final(out)@ == old(out)@ + self.enc(),
    {
        out.push(173);
        self.arg1.encode(out)?;
        self.arg2.encode(out)?;
        proof {
            assert(out@ =~= old(out)@ + self.enc());
        }
        Ok(())
    }
}

#[derive(Debug, PartialEq)]
pub struct RecvMarkerClear {
    pub arg1: Term,
}

impl Opcode for RecvMarkerClear {
    const CODE: u8 = 174;
}

impl RecvMarkerClear {
    /// The operand views of this instruction, in wire order.
    pub open spec fn args(&self) -> Seq<TermV> {
        seq![
            self.arg1@,
        ]
    }

    /// The canonical byte string of this instruction.
    pub open spec fn enc(&self) -> Seq<u8> {
        seq![174u8] + wire::enc_termv(self.arg1@)
    }

    pub(crate) fn decode_operands(r: &mut Reader<'_>) -> (res: Result<RecvMarkerClear, DecodeError>)
        ensures
            match res {
                Ok(v) => chain1(ArgKind::Any, old(r).remaining()) matches Ok((args, n)) && args == v.args()
                    && n <= old(r).remaining().len() && final(r).remaining() == old(r).remaining().skip(n as int),
                Err(e) => chain1(ArgKind::Any, old(r).remaining()) matches Err(se) && se == e@,
            },
    {
        let arg1 = crate::term::decode_term_arg(r)?;
        Ok(RecvMarkerClear { arg1 })
    }

    pub(crate) fn encode_operands(&self, out: &mut Vec<u8>) -> (res: Result<(), EncodeError>)
        ensures
            res is Ok,
            final(out)@ == old(out)@ + self.enc(),
    {
        out.push(174);
        self.arg1.encode(out)?;
        proof {
            assert(out@ =~= old(out)@ + self.enc());
        }
        Ok(())
    }
}

#[derive(Debug, PartialEq)]
pub struct RecvMarkerReserve {
    pub arg1: Term,
}

impl Opcode for RecvMarkerReserve {
    const CODE: u8 = 175;
}

impl RecvMarkerReserve {
    /// The operand views of this instruction, in wire order.
    pub open spec fn args(&self) -> Seq<TermV> {
        seq![
            self.arg1@,
        ]
    }

    /// The canonical byte string of this instruction.
    pub open spec fn enc(&self) -> Seq<u8> {
        seq![175u8] + wire::enc_termv(self.arg1@)
    }

    pub(crate) fn decode_operands(r: &mut Reader<'_>) -> (res: Result<RecvMarkerReserve, DecodeError>)
        ensures
            match res {
                Ok(v) => chain1(ArgKind::Any, old(r).remaining()) matches Ok((args, n)) && args == v.args()
                    && n <= old(r).remaining().len() && final(r).remaining() == old(r).remaining().skip(n as int),
                Err(e) => chain1(ArgKind::Any, old(r).remaining()) matches Err(se) && se == e@,
            },
    {
        let arg1 = crate::term::decode_term_arg(r)?;
        Ok(RecvMarkerReserve { arg1 })
    }

    pub(crate) fn encode_operands(&self, out: &mut Vec<u8>) -> (res: Result<(), EncodeError>)
        ensures
            res is Ok,
            final(out)@ == old(out)@ + self.enc(),
    {
        out.push(175);
        self.arg1.encode(out)?;
        proof {
            assert(out@ =~= old(out)@ + self.enc());
        }
        Ok(())
    }
}

#[derive(Debug, PartialEq)]
pub struct RecvMarkerUse {
    pub arg1: Term,
}

impl Opcode for RecvMarkerUse {
    const CODE: u8 = 176;
}

impl RecvMarkerUse {
    /// The operand views of this instruction, in wire order.
    pub open spec fn args(&self) -> Seq<TermV> {
        seq![
            self.arg1@,
        ]
    }

    /// The canonical byte string of this instruction.
    pub open spec fn enc(&self) -> Seq<u8> {
        seq![176u8] + wire::enc_termv(self.arg1@)
    }

    pub(crate) fn decode_operands(r: &mut Reader<'_>) -> (res: Result<RecvMarkerUse, DecodeError>)
        ensures
            match res {
                Ok(v) => chain1(ArgKind::Any, old(r).remaining()) matches Ok((args, n)) && args == v.args()
                    && n <= old(r).remaining().len() && final(r).remaining() == old(r).remaining().skip(n as int),
                Err(e) => chain1(ArgKind::Any, old(r).remaining()) matches Err(se) && se == e@,
            },
    {
        let arg1 = crate::term::decode_term_arg(r)?;
        Ok(RecvMarkerUse { arg1 })
    }

    pub(crate) fn encode_operands(&self, out: &mut Vec<u8>) -> (res: Result<(), EncodeError>)
        ensures
            res is Ok,
            final(out)@ == old(out)@ + self.enc(),
    {
        out.push(176);
        self.arg1.encode(out)?;
        proof {
            assert(out@ =~= old(out)@ + self.enc());
        }
        Ok(())
    }
}

#[derive(Debug, PartialEq)]
pub struct BsCreateBin {
    pub arg1: Term,
    pub arg2: Term,
    pub arg3: Term,
    pub arg4: Term,
    pub arg5: Term,
    pub arg6: Term,
}

impl Opcode for BsCreateBin {
    const CODE: u8 = 177;
}

impl BsCreateBin {
    /// The operand views of this instruction, in wire order.
    pub open spec fn args(&self) -> Seq<TermV> {
        seq![
            self.arg1@,
            self.arg2@,
            self.arg3@,
            self.arg4@,
            self.arg5@,
            self.arg6@,
        ]
    }

    /// The canonical byte string of this instruction.
    pub open spec fn enc(&self) -> Seq<u8> {
        seq![177u8] + wire::enc_termv(self.arg1@) + wire::enc_termv(self.arg2@) + wire::enc_termv(self.arg3@) + wire::enc_termv(self.arg4@) + wire::enc_termv(self.arg5@) + wire::enc_termv(self.arg6@)
    }

    #[verifier::rlimit(100)]
    pub(crate) fn decode_operands(r: &mut Reader<'_>) -> (res: Result<BsCreateBin, DecodeError>)
        ensures
            match res {
                Ok(v) => chain6(ArgKind::Any, ArgKind::Any, ArgKind::Any, ArgKind::Any, ArgKind::Any, ArgKind::Any, old(r).remaining()) matches Ok((args, n)) && args == v.args()
                    && n <= old(r).remaining().len() && final(r).remaining() == old(r).remaining().skip(n as int),
                Err(e) => chain6(ArgKind::Any, ArgKind::Any, ArgKind::Any, ArgKind::Any, ArgKind::Any, ArgKind::Any, old(r).remaining()) matches Err(se) && se == e@,
            },
    {
        let arg1 = crate::term::decode_term_arg(r)?;
        let arg2 = crate::term::decode_term_arg(r)?;
        let arg3 = crate::term::decode_term_arg(r)?;
        let arg4 = crate::term::decode_term_arg(r)?;
        let arg5 = crate::term::decode_term_arg(r)?;
        let arg6 = crate::term::decode_term_arg(r)?;
        Ok(BsCreateBin { arg1, arg2, arg3, arg4, arg5, arg6 })
    }

    #[verifier::rlimit(100)]
    pub(crate) fn encode_operands(&self, out: &mut Vec<u8>) -> (res: Result<(), EncodeError>)
        ensures
            res is Ok,
            final(out)@ == old(out)@ + self.enc(),
    {
        out.push(177);
        self.arg1.encode(out)?;
        self.arg2.encode(out)?;
        self.arg3.encode(out)?;
        self.arg4.encode(out)?;
        self.arg5.encode(out)?;
        self.arg6.encode(out)?;
        proof {
            assert(out@ =~= old(out)@ + self.enc());
        }
        Ok(())
    }
}

#[derive(Debug, PartialEq)]
pub struct CallFun2 {
    pub arg1: Term,
    pub arg2: Term,
    pub arg3: Term,
}

impl Opcode for CallFun2 {
    const CODE: u8 = 178;
}

impl CallFun2 {
    /// The operand views of this instruction, in wire order.
    pub open spec fn args(&self) -> Seq<TermV> {
        seq![
            self.arg1@,
            self.arg2@,
            self.arg3@,
        ]
    }

    /// The canonical byte string of this instruction.
    pub open spec fn enc(&self) -> Seq<u8> {
        seq![178u8] + wire::enc_termv(self.arg1@) + wire::enc_termv(self.arg2@) + wire::enc_termv(self.arg3@)
    }

    pub(crate) fn decode_operands(r: &mut Reader<'_>) -> (res: Result<CallFun2, DecodeError>)
        ensures
            match res {
                Ok(v) => chain3(ArgKind::Any, ArgKind::Any, ArgKind::Any, old(r).remaining()) matches Ok((args, n)) && args == v.args()
                    && n <= old(r).remaining().len() && final(r).remaining() == old(r).remaining().skip(n as int),
                Err(e) => chain3(ArgKind::Any, ArgKind::Any, ArgKind::Any, old(r).remaining()) matches Err(se) && se == e@,
            },
    {
        let arg1 = crate::term::decode_term_arg(r)?;
        let arg2 = crate::term::decode_term_arg(r)?;
        let arg3 = crate::term::decode_term_arg(r)?;
        Ok(CallFun2 { arg1, arg2, arg3 })
    }

    pub(crate) fn encode_operands(&self, out: &mut Vec<u8>) -> (res: Result<(), EncodeError>)
        ensures
            res is Ok,
            final(out)@ == old(out)@ + self.enc(),
    {
        out.push(178);
        self.arg1.encode(out)?;
        self.arg2.encode(out)?;
        self.arg3.encode(out)?;
        proof {
            assert(out@ =~= old(out)@ + self.enc());
        }
        Ok(())
    }
}

#[derive(Debug, PartialEq)]
pub struct NifStart {}

impl Opcode for NifStart {
    const CODE: u8 = 179;
}

impl NifStart {
    /// The operand views of this instruction, in wire order.
    pub open spec fn args(&self) -> Seq<TermV> {
        Seq::empty()
    }

    /// The canonical byte string of this instruction.
    pub open spec fn enc(&self) -> Seq<u8> {
        seq![179u8]
    }

    pub(crate) fn decode_operands(r: &mut Reader<'_>) -> (res: Result<NifStart, DecodeError>)
        ensures
            match res {
                Ok(v) => chain0(old(r).remaining()) matches Ok((args, n)) && args == v.args()
                    && n <= old(r).remaining().len() && final(r).remaining() == old(r).remaining().skip(n as int),
                Err(e) => chain0(old(r).remaining()) matches Err(se) && se == e@,
            },
    {
        proof {
            assert(old(r).remaining().skip(0) =~= old(r).remaining());
        }
        Ok(NifStart {  })
    }

    pub(crate) fn encode_operands(&self, out: &mut Vec<u8>) -> (res: Result<(), EncodeError>)
        ensures
            res is Ok,
            final(out)@ == old(out)@ + self.enc(),
    {
        out.push(179);
        proof {
            assert(out@ =~= old(out)@ + self.enc());
        }
        Ok(())
    }
}

#[derive(Debug, PartialEq)]
pub struct Badrecord {
    pub arg1: Term,
}

impl Opcode for Badrecord {
    const CODE: u8 = 180;
}

impl Badrecord {
    /// The operand views of this instruction, in wire order.
    pub open spec fn args(&self) -> Seq<TermV> {
        seq![
            self.arg1@,
        ]
    }

    /// The canonical byte string of this instruction.
    pub open spec fn enc(&self) -> Seq<u8> {
        seq![180u8] + wire::enc_termv(self.arg1@)
    }

    pub(crate) fn decode_operands(r: &mut Reader<'_>) -> (res: Result<Badrecord, DecodeError>)
        ensures
            match res {
                Ok(v) => chain1(ArgKind::Any, old(r).remaining()) matches Ok((args, n)) && args == v.args()
                    && n <= old(r).remaining().len() && final(r).remaining() == old(r).remaining().skip(n as int),
                Err(e) => chain1(ArgKind::Any, old(r).remaining()) matches Err(se) && se == e@,
            },
    {
        let arg1 = crate::term::decode_term_arg(r)?;
        Ok(Badrecord { arg1 })
    }

    pub(crate) fn encode_operands(&self, out: &mut Vec<u8>) -> (res: Result<(), EncodeError>)
        ensures
            res is Ok,
            final(out)@ == old(out)@ + self.enc(),
    {
        out.push(180);
        self.arg1.encode(out)?;
        proof {
            assert(out@ =~= old(out)@ + self.enc());
        }
        Ok(())
    }
}

/// One bytecode instruction.
#[derive(Debug, PartialEq)]
pub enum Instruction {
    Allocate(Allocate),
    AllocateHeap(AllocateHeap),
    AllocateHeapZero(AllocateHeapZero),
    AllocateZero(AllocateZero),
    Apply(Apply),
    ApplyLast(ApplyLast),
    Badmatch(Badmatch),
    Badrecord(Badrecord),
    Bif0(Bif0),
    Bif1(Bif1),
    Bif2(Bif2),
    BsAdd(BsAdd),
    BsAppend(BsAppend),
    /// Deprecated.
    BsBitsToBytes(BsBitsToBytes),
    /// Deprecated.
    BsBitsToBytes2(BsBitsToBytes2),
    BsContextToBinary(BsContextToBinary),
    BsCreateBin(BsCreateBin),
    /// Deprecated.
    BsFinal(BsFinal),
    /// Deprecated.
    BsFinal2(BsFinal2),
    /// Deprecated.
    BsGetBinary(BsGetBinary),
    BsGetBinary2(BsGetBinary2),
    /// Deprecated.
    BsGetFloat(BsGetFloat),
    BsGetFloat2(BsGetFloat2),
    /// Deprecated.
    BsGetInteger(BsGetInteger),
    BsGetInteger2(BsGetInteger2),
    BsGetPosition(BsGetPosition),
    BsGetTail(BsGetTail),
    BsGetUtf16(BsGetUtf16),
    BsGetUtf32(BsGetUtf32),
    BsGetUtf8(BsGetUtf8),
    /// Deprecated.
    BsInit(BsInit),
    BsInit2(BsInit2),
    BsInitBits(BsInitBits),
    BsInitWritable(BsInitWritable),
    BsMatchString(BsMatchString),
    BsNeedBuf(BsNeedBuf),
    BsPrivateAppend(BsPrivateAppend),
    BsPutBinary(BsPutBinary),
    BsPutFloat(BsPutFloat),
    BsPutInteger(BsPutInteger),
    BsPutString(BsPutString),
    BsPutUtf16(BsPutUtf16),
    BsPutUtf32(BsPutUtf32),
    BsPutUtf8(BsPutUtf8),
    /// Deprecated.
    BsRestore(BsRestore),
    BsRestore2(BsRestore2),
    BsSave(BsSave),
    BsSave2(BsSave2),
    BsSetPosition(BsSetPosition),
    BsSkipBits(BsSkipBits),
    BsSkipBits2(BsSkipBits2),
    BsSkipUtf16(BsSkipUtf16),
    BsSkipUtf32(BsSkipUtf32),
    BsSkipUtf8(BsSkipUtf8),
    /// Deprecated.
    BsStartMatch(BsStartMatch),
    BsStartMatch2(BsStartMatch2),
    BsStartMatch3(BsStartMatch3),
    BsStartMatch4(BsStartMatch4),
    /// Deprecated.
    BsTestTail(BsTestTail),
    BsTestTail2(BsTestTail2),
    BsTestUnit(BsTestUnit),
    BsUtf16Size(BsUtf16Size),
    BsUtf8Size(BsUtf8Size),
    BuildStacktrace(BuildStacktrace),
    Call(Call),
    CallExt(CallExt),
    CallExtLast(CallExtLast),
    CallExtOnly(CallExtOnly),
    CallFun(CallFun),
    CallFun2(CallFun2),
    CallLast(CallLast),
    CallOnly(CallOnly),
    CaseEnd(CaseEnd),
    Catch(Catch),
    CatchEnd(CatchEnd),
    Deallocate(Deallocate),
    Fadd(Fadd),
    Fcheckerror(Fcheckerror),
    Fclearerror(Fclearerror),
    Fconv(Fconv),
    Fdiv(Fdiv),
    Fmove(Fmove),
    Fmul(Fmul),
    Fnegate(Fnegate),
    Fsub(Fsub),
    FuncInfo(FuncInfo),
    GcBif1(GcBif1),
    GcBif2(GcBif2),
    GcBif3(GcBif3),
    GetHd(GetHd),
    GetList(GetList),
    GetMapElement(GetMapElement),
    GetTl(GetTl),
    GetTupleElement(GetTupleElement),
    HasMapFields(HasMapFields),
    IfEnd(IfEnd),
    Init(Init),
    InitYregs(InitYregs),
    /// Deprecated.
    IntBand(IntBand),
    /// Deprecated.
    IntBnot(IntBnot),
    /// Deprecated.
    IntBor(IntBor),
    /// Deprecated.
    IntBsl(IntBsl),
    /// Deprecated.
    IntBsr(IntBsr),
    /// Deprecated.
    IntBxor(IntBxor),
    IntCodeEnd(IntCodeEnd),
    /// Deprecated.
    IntDiv(IntDiv),
    /// Deprecated.
    IntRem(IntRem),
    IsAtom(IsAtom),
    IsBinary(IsBinary),
    IsBitstr(IsBitstr),
    IsBoolean(IsBoolean),
    /// Deprecated.
    IsConstant(IsConstant),
    IsEq(IsEq),
    IsEqExact(IsEqExact),
    IsFloat(IsFloat),
    IsFunction(IsFunction),
    IsFunction2(IsFunction2),
    IsGe(IsGe),
    IsInteger(IsInteger),
    IsList(IsList),
    IsLt(IsLt),
    IsMap(IsMap),
    IsNe(IsNe),
    IsNeExact(IsNeExact),
    IsNil(IsNil),
    IsNonemptyList(IsNonemptyList),
    IsNumber(IsNumber),
    IsPid(IsPid),
    IsPort(IsPort),
    IsReference(IsReference),
    IsTaggedTuple(IsTaggedTuple),
    IsTuple(IsTuple),
    Jump(Jump),
    Label(Label),
    Line(Line),
    LoopRec(LoopRec),
    LoopRecEnd(LoopRecEnd),
    /// Deprecated.
    MDiv(MDiv),
    /// Deprecated.
    MMinus(MMinus),
    /// Deprecated.
    MPlus(MPlus),
    /// Deprecated.
    MTimes(MTimes),
    /// Deprecated.
    MakeFun(MakeFun),
    MakeFun2(MakeFun2),
    MakeFun3(MakeFun3),
    Move(Move),
    NifStart(NifStart),
    OnLoad(OnLoad),
    Put(Put),
    PutList(PutList),
    /// Deprecated.
    PutLiteral(PutLiteral),
    PutMapAssoc(PutMapAssoc),
    PutMapExact(PutMapExact),
    /// Deprecated.
    PutString(PutString),
    PutTuple(PutTuple),
    PutTuple2(PutTuple2),
    Raise(Raise),
    RawRaise(RawRaise),
    RecvMark(RecvMark),
    RecvMarkerBind(RecvMarkerBind),
    RecvMarkerClear(RecvMarkerClear),
    RecvMarkerReserve(RecvMarkerReserve),
    RecvMarkerUse(RecvMarkerUse),
    RecvSet(RecvSet),
    RemoveMessage(RemoveMessage),
    Return(Return),
    SelectTupleArity(SelectTupleArity),
    SelectVal(SelectVal),
    Send(Send),
    SetTupleElement(SetTupleElement),
    Swap(Swap),
    TestArity(TestArity),
    TestHeap(TestHeap),
    Timeout(Timeout),
    Trim(Trim),
    Try(Try),
    TryCase(TryCase),
    TryCaseEnd(TryCaseEnd),
    TryEnd(TryEnd),
    Wait(Wait),
    WaitTimeout(WaitTimeout),
}

/// The opcode byte of an instruction.
pub open spec fn opcode_of(i: Instruction) -> u8 {
    match i {
        Instruction::Label(_) => 1,
        Instruction::FuncInfo(_) => 2,
        Instruction::IntCodeEnd(_) => 3,
        Instruction::Call(_) => 4,
        Instruction::CallLast(_) => 5,
        Instruction::CallOnly(_) => 6,
        Instruction::CallExt(_) => 7,
        Instruction::CallExtLast(_) => 8,
        Instruction::Bif0(_) => 9,
        Instruction::Bif1(_) => 10,
        Instruction::Bif2(_) => 11,
        Instruction::Allocate(_) => 12,
        Instruction::AllocateHeap(_) => 13,
        Instruction::AllocateZero(_) => 14,
        Instruction::AllocateHeapZero(_) => 15,
        Instruction::TestHeap(_) => 16,
        Instruction::Init(_) => 17,
        Instruction::Deallocate(_) => 18,
        Instruction::Return(_) => 19,
        Instruction::Send(_) => 20,
        Instruction::RemoveMessage(_) => 21,
        Instruction::Timeout(_) => 22,
        Instruction::LoopRec(_) => 23,
        Instruction::LoopRecEnd(_) => 24,
        Instruction::Wait(_) => 25,
        Instruction::WaitTimeout(_) => 26,
        Instruction::MPlus(_) => 27,
        Instruction::MMinus(_) => 28,
        Instruction::MTimes(_) => 29,
        Instruction::MDiv(_) => 30,
        Instruction::IntDiv(_) => 31,
        Instruction::IntRem(_) => 32,
        Instruction::IntBand(_) => 33,
        Instruction::IntBor(_) => 34,
        Instruction::IntBxor(_) => 35,
        Instruction::IntBsl(_) => 36,
        Instruction::IntBsr(_) => 37,
        Instruction::IntBnot(_) => 38,
        Instruction::IsLt(_) => 39,
        Instruction::IsGe(_) => 40,
        Instruction::IsEq(_) => 41,
        Instruction::IsNe(_) => 42,
        Instruction::IsEqExact(_) => 43,
        Instruction::IsNeExact(_) => 44,
        Instruction::IsInteger(_) => 45,
        Instruction::IsFloat(_) => 46,
        Instruction::IsNumber(_) => 47,
        Instruction::IsAtom(_) => 48,
        Instruction::IsPid(_) => 49,
        Instruction::IsReference(_) => 50,
        Instruction::IsPort(_) => 51,
        Instruction::IsNil(_) => 52,
        Instruction::IsBinary(_) => 53,
        Instruction::IsConstant(_) => 54,
        Instruction::IsList(_) => 55,
        Instruction::IsNonemptyList(_) => 56,
        Instruction::IsTuple(_) => 57,
        Instruction::TestArity(_) => 58,
        Instruction::SelectVal(_) => 59,
        Instruction::SelectTupleArity(_) => 60,
        Instruction::Jump(_) => 61,
        Instruction::Catch(_) => 62,
        Instruction::CatchEnd(_) => 63,
        Instruction::Move(_) => 64,
        Instruction::GetList(_) => 65,
        Instruction::GetTupleElement(_) => 66,
        Instruction::SetTupleElement(_) => 67,
        Instruction::PutString(_) => 68,
        Instruction::PutList(_) => 69,
        Instruction::PutTuple(_) => 70,
        Instruction::Put(_) => 71,
        Instruction::Badmatch(_) => 72,
        Instruction::IfEnd(_) => 73,
        Instruction::CaseEnd(_) => 74,
        Instruction::CallFun(_) => 75,
        Instruction::MakeFun(_) => 76,
        Instruction::IsFunction(_) => 77,
        Instruction::CallExtOnly(_) => 78,
        Instruction::BsStartMatch(_) => 79,
        Instruction::BsGetInteger(_) => 80,
        Instruction::BsGetFloat(_) => 81,
        Instruction::BsGetBinary(_) => 82,
        Instruction::BsSkipBits(_) => 83,
        Instruction::BsTestTail(_) => 84,
        Instruction::BsSave(_) => 85,
        Instruction::BsRestore(_) => 86,
        Instruction::BsInit(_) => 87,
        Instruction::BsFinal(_) => 88,
        Instruction::BsPutInteger(_) => 89,
        Instruction::BsPutBinary(_) => 90,
        Instruction::BsPutFloat(_) => 91,
        Instruction::BsPutString(_) => 92,
        Instruction::BsNeedBuf(_) => 93,
        Instruction::Fclearerror(_) => 94,
        Instruction::Fcheckerror(_) => 95,
        Instruction::Fmove(_) => 96,
        Instruction::Fconv(_) => 97,
        Instruction::Fadd(_) => 98,
        Instruction::Fsub(_) => 99,
        Instruction::Fmul(_) => 100,
        Instruction::Fdiv(_) => 101,
        Instruction::Fnegate(_) => 102,
        Instruction::MakeFun2(_) => 103,
        Instruction::Try(_) => 104,
        Instruction::TryEnd(_) => 105,
        Instruction::TryCase(_) => 106,
        Instruction::TryCaseEnd(_) => 107,
        Instruction::Raise(_) => 108,
        Instruction::BsInit2(_) => 109,
        Instruction::BsBitsToBytes(_) => 110,
        Instruction::BsAdd(_) => 111,
        Instruction::Apply(_) => 112,
        Instruction::ApplyLast(_) => 113,
        Instruction::IsBoolean(_) => 114,
        Instruction::IsFunction2(_) => 115,
        Instruction::BsStartMatch2(_) => 116,
        Instruction::BsGetInteger2(_) => 117,
        Instruction::BsGetFloat2(_) => 118,
        Instruction::BsGetBinary2(_) => 119,
        Instruction::BsSkipBits2(_) => 120,
        Instruction::BsTestTail2(_) => 121,
        Instruction::BsSave2(_) => 122,
        Instruction::BsRestore2(_) => 123,
        Instruction::GcBif1(_) => 124,
        Instruction::GcBif2(_) => 125,
        Instruction::BsFinal2(_) => 126,
        Instruction::BsBitsToBytes2(_) => 127,
        Instruction::PutLiteral(_) => 128,
        Instruction::IsBitstr(_) => 129,
        Instruction::BsContextToBinary(_) => 130,
        Instruction::BsTestUnit(_) => 131,
        Instruction::BsMatchString(_) => 132,
        Instruction::BsInitWritable(_) => 133,
        Instruction::BsAppend(_) => 134,
        Instruction::BsPrivateAppend(_) => 135,
        Instruction::Trim(_) => 136,
        Instruction::BsInitBits(_) => 137,
        Instruction::BsGetUtf8(_) => 138,
        Instruction::BsSkipUtf8(_) => 139,
        Instruction::BsGetUtf16(_) => 140,
        Instruction::BsSkipUtf16(_) => 141,
        Instruction::BsGetUtf32(_) => 142,
        Instruction::BsSkipUtf32(_) => 143,
        Instruction::BsUtf8Size(_) => 144,
        Instruction::BsPutUtf8(_) => 145,
        Instruction::BsUtf16Size(_) => 146,
        Instruction::BsPutUtf16(_) => 147,
        Instruction::BsPutUtf32(_) => 148,
        Instruction::OnLoad(_) => 149,
        Instruction::RecvMark(_) => 150,
        Instruction::RecvSet(_) => 151,
        Instruction::GcBif3(_) => 152,
        Instruction::Line(_) => 153,
        Instruction::PutMapAssoc(_) => 154,
        Instruction::PutMapExact(_) => 155,
        Instruction::IsMap(_) => 156,
        Instruction::HasMapFields(_) => 157,
        Instruction::GetMapElement(_) => 158,
        Instruction::IsTaggedTuple(_) => 159,
        Instruction::BuildStacktrace(_) => 160,
        Instruction::RawRaise(_) => 161,
        Instruction::GetHd(_) => 162,
        Instruction::GetTl(_) => 163,
        Instruction::PutTuple2(_) => 164,
        Instruction::BsGetTail(_) => 165,
        Instruction::BsStartMatch3(_) => 166,
        Instruction::BsGetPosition(_) => 167,
        Instruction::BsSetPosition(_) => 168,
        Instruction::Swap(_) => 169,
        Instruction::BsStartMatch4(_) => 170,
        Instruction::MakeFun3(_) => 171,
        Instruction::InitYregs(_) => 172,
        Instruction::RecvMarkerBind(_) => 173,
        Instruction::RecvMarkerClear(_) => 174,
        Instruction::RecvMarkerReserve(_) => 175,
        Instruction::RecvMarkerUse(_) => 176,
        Instruction::BsCreateBin(_) => 177,
        Instruction::CallFun2(_) => 178,
        Instruction::NifStart(_) => 179,
        Instruction::Badrecord(_) => 180,
    }
}

/// The operand views of an instruction, in wire order.
pub open spec fn args_of(i: Instruction) -> Seq<TermV> {
    match i {
        Instruction::Label(x) => x.args(),
        Instruction::FuncInfo(x) => x.args(),
        Instruction::IntCodeEnd(x) => x.args(),
        Instruction::Call(x) => x.args(),
        Instruction::CallLast(x) => x.args(),
        Instruction::CallOnly(x) => x.args(),
        Instruction::CallExt(x) => x.args(),
        Instruction::CallExtLast(x) => x.args(),
        Instruction::Bif0(x) => x.args(),
        Instruction::Bif1(x) => x.args(),
        Instruction::Bif2(x) => x.args(),
        Instruction::Allocate(x) => x.args(),
        Instruction::AllocateHeap(x) => x.args(),
        Instruction::AllocateZero(x) => x.args(),
        Instruction::AllocateHeapZero(x) => x.args(),
        Instruction::TestHeap(x) => x.args(),
        Instruction::Init(x) => x.args(),
        Instruction::Deallocate(x) => x.args(),
        Instruction::Return(x) => x.args(),
        Instruction::Send(x) => x.args(),
        Instruction::RemoveMessage(x) => x.args(),
        Instruction::Timeout(x) => x.args(),
        Instruction::LoopRec(x) => x.args(),
        Instruction::LoopRecEnd(x) => x.args(),
        Instruction::Wait(x) => x.args(),
        Instruction::WaitTimeout(x) => x.args(),
        Instruction::MPlus(x) => x.args(),
        Instruction::MMinus(x) => x.args(),
        Instruction::MTimes(x) => x.args(),
        Instruction::MDiv(x) => x.args(),
        Instruction::IntDiv(x) => x.args(),
        Instruction::IntRem(x) => x.args(),
        Instruction::IntBand(x) => x.args(),
        Instruction::IntBor(x) => x.args(),
        Instruction::IntBxor(x) => x.args(),
        Instruction::IntBsl(x) => x.args(),
        Instruction::IntBsr(x) => x.args(),
        Instruction::IntBnot(x) => x.args(),
        Instruction::IsLt(x) => x.args(),
        Instruction::IsGe(x) => x.args(),
        Instruction::IsEq(x) => x.args(),
        Instruction::IsNe(x) => x.args(),
        Instruction::IsEqExact(x) => x.args(),
        Instruction::IsNeExact(x) => x.args(),
        Instruction::IsInteger(x) => x.args(),
        Instruction::IsFloat(x) => x.args(),
        Instruction::IsNumber(x) => x.args(),
        Instruction::IsAtom(x) => x.args(),
        Instruction::IsPid(x) => x.args(),
        Instruction::IsReference(x) => x.args(),
        Instruction::IsPort(x) => x.args(),
        Instruction::IsNil(x) => x.args(),
        Instruction::IsBinary(x) => x.args(),
        Instruction::IsConstant(x) => x.args(),
        Instruction::IsList(x) => x.args(),
        Instruction::IsNonemptyList(x) => x.args(),
        Instruction::IsTuple(x) => x.args(),
        Instruction::TestArity(x) => x.args(),
        Instruction::SelectVal(x) => x.args(),
        Instruction::SelectTupleArity(x) => x.args(),
        Instruction::Jump(x) => x.args(),
        Instruction::Catch(x) => x.args(),
        Instruction::CatchEnd(x) => x.args(),
        Instruction::Move(x) => x.args(),
        Instruction::GetList(x) => x.args(),
        Instruction::GetTupleElement(x) => x.args(),
        Instruction::SetTupleElement(x) => x.args(),
        Instruction::PutString(x) => x.args(),
        Instruction::PutList(x) => x.args(),
        Instruction::PutTuple(x) => x.args(),
        Instruction::Put(x) => x.args(),
        Instruction::Badmatch(x) => x.args(),
        Instruction::IfEnd(x) => x.args(),
        Instruction::CaseEnd(x) => x.args(),
        Instruction::CallFun(x) => x.args(),
        Instruction::MakeFun(x) => x.args(),
        Instruction::IsFunction(x) => x.args(),
        Instruction::CallExtOnly(x) => x.args(),
        Instruction::BsStartMatch(x) => x.args(),
        Instruction::BsGetInteger(x) => x.args(),
        Instruction::BsGetFloat(x) => x.args(),
        Instruction::BsGetBinary(x) => x.args(),
        Instruction::BsSkipBits(x) => x.args(),
        Instruction::BsTestTail(x) => x.args(),
        Instruction::BsSave(x) => x.args(),
        Instruction::BsRestore(x) => x.args(),
        Instruction::BsInit(x) => x.args(),
        Instruction::BsFinal(x) => x.args(),
        Instruction::BsPutInteger(x) => x.args(),
        Instruction::BsPutBinary(x) => x.args(),
        Instruction::BsPutFloat(x) => x.args(),
        Instruction::BsPutString(x) => x.args(),
        Instruction::BsNeedBuf(x) => x.args(),
        Instruction::Fclearerror(x) => x.args(),
        Instruction::Fcheckerror(x) => x.args(),
        Instruction::Fmove(x) => x.args(),
        Instruction::Fconv(x) => x.args(),
        Instruction::Fadd(x) => x.args(),
        Instruction::Fsub(x) => x.args(),
        Instruction::Fmul(x) => x.args(),
        Instruction::Fdiv(x) => x.args(),
        Instruction::Fnegate(x) => x.args(),
        Instruction::MakeFun2(x) => x.args(),
        Instruction::Try(x) => x.args(),
        Instruction::TryEnd(x) => x.args(),
        Instruction::TryCase(x) => x.args(),
        Instruction::TryCaseEnd(x) => x.args(),
        Instruction::Raise(x) => x.args(),
        Instruction::BsInit2(x) => x.args(),
        Instruction::BsBitsToBytes(x) => x.args(),
        Instruction::BsAdd(x) => x.args(),
        Instruction::Apply(x) => x.args(),
        Instruction::ApplyLast(x) => x.args(),
        Instruction::IsBoolean(x) => x.args(),
        Instruction::IsFunction2(x) => x.args(),
        Instruction::BsStartMatch2(x) => x.args(),
        Instruction::BsGetInteger2(x) => x.args(),
        Instruction::BsGetFloat2(x) => x.args(),
        Instruction::BsGetBinary2(x) => x.args(),
        Instruction::BsSkipBits2(x) => x.args(),
        Instruction::BsTestTail2(x) => x.args(),
        Instruction::BsSave2(x) => x.args(),
        Instruction::BsRestore2(x) => x.args(),
        Instruction::GcBif1(x) => x.args(),
        Instruction::GcBif2(x) => x.args(),
        Instruction::BsFinal2(x) => x.args(),
        Instruction::BsBitsToBytes2(x) => x.args(),
        Instruction::PutLiteral(x) => x.args(),
        Instruction::IsBitstr(x) => x.args(),
        Instruction::BsContextToBinary(x) => x.args(),
        Instruction::BsTestUnit(x) => x.args(),
        Instruction::BsMatchString(x) => x.args(),
        Instruction::BsInitWritable(x) => x.args(),
        Instruction::BsAppend(x) => x.args(),
        Instruction::BsPrivateAppend(x) => x.args(),
        Instruction::Trim(x) => x.args(),
        Instruction::BsInitBits(x) => x.args(),
        Instruction::BsGetUtf8(x) => x.args(),
        Instruction::BsSkipUtf8(x) => x.args(),
        Instruction::BsGetUtf16(x) => x.args(),
        Instruction::BsSkipUtf16(x) => x.args(),
        Instruction::BsGetUtf32(x) => x.args(),
        Instruction::BsSkipUtf32(x) => x.args(),
        Instruction::BsUtf8Size(x) => x.args(),
        Instruction::BsPutUtf8(x) => x.args(),
        Instruction::BsUtf16Size(x) => x.args(),
        Instruction::BsPutUtf16(x) => x.args(),
        Instruction::BsPutUtf32(x) => x.args(),
        Instruction::OnLoad(x) => x.args(),
        Instruction::RecvMark(x) => x.args(),
        Instruction::RecvSet(x) => x.args(),
        Instruction::GcBif3(x) => x.args(),
        Instruction::Line(x) => x.args(),
        Instruction::PutMapAssoc(x) => x.args(),
        Instruction::PutMapExact(x) => x.args(),
        Instruction::IsMap(x) => x.args(),
        Instruction::HasMapFields(x) => x.args(),
        Instruction::GetMapElement(x) => x.args(),
        Instruction::IsTaggedTuple(x) => x.args(),
        Instruction::BuildStacktrace(x) => x.args(),
        Instruction::RawRaise(x) => x.args(),
        Instruction::GetHd(x) => x.args(),
        Instruction::GetTl(x) => x.args(),
        Instruction::PutTuple2(x) => x.args(),
        Instruction::BsGetTail(x) => x.args(),
        Instruction::BsStartMatch3(x) => x.args(),
        Instruction::BsGetPosition(x) => x.args(),
        Instruction::BsSetPosition(x) => x.args(),
        Instruction::Swap(x) => x.args(),
        Instruction::BsStartMatch4(x) => x.args(),
        Instruction::MakeFun3(x) => x.args(),
        Instruction::InitYregs(x) => x.args(),
        Instruction::RecvMarkerBind(x) => x.args(),
        Instruction::RecvMarkerClear(x) => x.args(),
        Instruction::RecvMarkerReserve(x) => x.args(),
        Instruction::RecvMarkerUse(x) => x.args(),
        Instruction::BsCreateBin(x) => x.args(),
        Instruction::CallFun2(x) => x.args(),
        Instruction::NifStart(x) => x.args(),
        Instruction::Badrecord(x) => x.args(),
    }
}

/// The canonical byte string of an instruction.
pub open spec fn enc_instr(i: Instruction) -> Seq<u8> {
    match i {
        Instruction::Label(x) => x.enc(),
        Instruction::FuncInfo(x) => x.enc(),
        Instruction::IntCodeEnd(x) => x.enc(),
        Instruction::Call(x) => x.enc(),
        Instruction::CallLast(x) => x.enc(),
        Instruction::CallOnly(x) => x.enc(),
        Instruction::CallExt(x) => x.enc(),
        Instruction::CallExtLast(x) => x.enc(),
        Instruction::Bif0(x) => x.enc(),
        Instruction::Bif1(x) => x.enc(),
        Instruction::Bif2(x) => x.enc(),
        Instruction::Allocate(x) => x.enc(),
        Instruction::AllocateHeap(x) => x.enc(),
        Instruction::AllocateZero(x) => x.enc(),
        Instruction::AllocateHeapZero(x) => x.enc(),
        Instruction::TestHeap(x) => x.enc(),
        Instruction::Init(x) => x.enc(),
        Instruction::Deallocate(x) => x.enc(),
        Instruction::Return(x) => x.enc(),
        Instruction::Send(x) => x.enc(),
        Instruction::RemoveMessage(x) => x.enc(),
        Instruction::Timeout(x) => x.enc(),
        Instruction::LoopRec(x) => x.enc(),
        Instruction::LoopRecEnd(x) => x.enc(),
        Instruction::Wait(x) => x.enc(),
        Instruction::WaitTimeout(x) => x.enc(),
        Instruction::MPlus(x) => x.enc(),
        Instruction::MMinus(x) => x.enc(),
        Instruction::MTimes(x) => x.enc(),
        Instruction::MDiv(x) => x.enc(),
        Instruction::IntDiv(x) => x.enc(),
        Instruction::IntRem(x) => x.enc(),
        Instruction::IntBand(x) => x.enc(),
        Instruction::IntBor(x) => x.enc(),
        Instruction::IntBxor(x) => x.enc(),
        Instruction::IntBsl(x) => x.enc(),
        Instruction::IntBsr(x) => x.enc(),
        Instruction::IntBnot(x) => x.enc(),
        Instruction::IsLt(x) => x.enc(),
        Instruction::IsGe(x) => x.enc(),
        Instruction::IsEq(x) => x.enc(),
        Instruction::IsNe(x) => x.enc(),
        Instruction::IsEqExact(x) => x.enc(),
        Instruction::IsNeExact(x) => x.enc(),
        Instruction::IsInteger(x) => x.enc(),
        Instruction::IsFloat(x) => x.enc(),
        Instruction::IsNumber(x) => x.enc(),
        Instruction::IsAtom(x) => x.enc(),
        Instruction::IsPid(x) => x.enc(),
        Instruction::IsReference(x) => x.enc(),
        Instruction::IsPort(x) => x.enc(),
        Instruction::IsNil(x) => x.enc(),
        Instruction::IsBinary(x) => x.enc(),
        Instruction::IsConstant(x) => x.enc(),
        Instruction::IsList(x) => x.enc(),
        Instruction::IsNonemptyList(x) => x.enc(),
        Instruction::IsTuple(x) => x.enc(),
        Instruction::TestArity(x) => x.enc(),
        Instruction::SelectVal(x) => x.enc(),
        Instruction::SelectTupleArity(x) => x.enc(),
        Instruction::Jump(x) => x.enc(),
        Instruction::Catch(x) => x.enc(),
        Instruction::CatchEnd(x) => x.enc(),
        Instruction::Move(x) => x.enc(),
        Instruction::GetList(x) => x.enc(),
        Instruction::GetTupleElement(x) => x.enc(),
        Instruction::SetTupleElement(x) => x.enc(),
        Instruction::PutString(x) => x.enc(),
        Instruction::PutList(x) => x.enc(),
        Instruction::PutTuple(x) => x.enc(),
        Instruction::Put(x) => x.enc(),
        Instruction::Badmatch(x) => x.enc(),
        Instruction::IfEnd(x) => x.enc(),
        Instruction::CaseEnd(x) => x.enc(),
        Instruction::CallFun(x) => x.enc(),
        Instruction::MakeFun(x) => x.enc(),
        Instruction::IsFunction(x) => x.enc(),
        Instruction::CallExtOnly(x) => x.enc(),
        Instruction::BsStartMatch(x) => x.enc(),
        Instruction::BsGetInteger(x) => x.enc(),
        Instruction::BsGetFloat(x) => x.enc(),
        Instruction::BsGetBinary(x) => x.enc(),
        Instruction::BsSkipBits(x) => x.enc(),
        Instruction::BsTestTail(x) => x.enc(),
        Instruction::BsSave(x) => x.enc(),
        Instruction::BsRestore(x) => x.enc(),
        Instruction::BsInit(x) => x.enc(),
        Instruction::BsFinal(x) => x.enc(),
        Instruction::BsPutInteger(x) => x.enc(),
        Instruction::BsPutBinary(x) => x.enc(),
        Instruction::BsPutFloat(x) => x.enc(),
        Instruction::BsPutString(x) => x.enc(),
        Instruction::BsNeedBuf(x) => x.enc(),
        Instruction::Fclearerror(x) => x.enc(),
        Instruction::Fcheckerror(x) => x.enc(),
        Instruction::Fmove(x) => x.enc(),
        Instruction::Fconv(x) => x.enc(),
        Instruction::Fadd(x) => x.enc(),
        Instruction::Fsub(x) => x.enc(),
        Instruction::Fmul(x) => x.enc(),
        Instruction::Fdiv(x) => x.enc(),
        Instruction::Fnegate(x) => x.enc(),
        Instruction::MakeFun2(x) => x.enc(),
        Instruction::Try(x) => x.enc(),
        Instruction::TryEnd(x) => x.enc(),
        Instruction::TryCase(x) => x.enc(),
        Instruction::TryCaseEnd(x) => x.enc(),
        Instruction::Raise(x) => x.enc(),
        Instruction::BsInit2(x) => x.enc(),
        Instruction::BsBitsToBytes(x) => x.enc(),
        Instruction::BsAdd(x) => x.enc(),
        Instruction::Apply(x) => x.enc(),
        Instruction::ApplyLast(x) => x.enc(),
        Instruction::IsBoolean(x) => x.enc(),
        Instruction::IsFunction2(x) => x.enc(),
        Instruction::BsStartMatch2(x) => x.enc(),
        Instruction::BsGetInteger2(x) => x.enc(),
        Instruction::BsGetFloat2(x) => x.enc(),
        Instruction::BsGetBinary2(x) => x.enc(),
        Instruction::BsSkipBits2(x) => x.enc(),
        Instruction::BsTestTail2(x) => x.enc(),
        Instruction::BsSave2(x) => x.enc(),
        Instruction::BsRestore2(x) => x.enc(),
        Instruction::GcBif1(x) => x.enc(),
        Instruction::GcBif2(x) => x.enc(),
        Instruction::BsFinal2(x) => x.enc(),
        Instruction::BsBitsToBytes2(x) => x.enc(),
        Instruction::PutLiteral(x) => x.enc(),
        Instruction::IsBitstr(x) => x.enc(),
        Instruction::BsContextToBinary(x) => x.enc(),
        Instruction::BsTestUnit(x) => x.enc(),
        Instruction::BsMatchString(x) => x.enc(),
        Instruction::BsInitWritable(x) => x.enc(),
        Instruction::BsAppend(x) => x.enc(),
        Instruction::BsPrivateAppend(x) => x.enc(),
        Instruction::Trim(x) => x.enc(),
        Instruction::BsInitBits(x) => x.enc(),
        Instruction::BsGetUtf8(x) => x.enc(),
        Instruction::BsSkipUtf8(x) => x.enc(),
        Instruction::BsGetUtf16(x) => x.enc(),
        Instruction::BsSkipUtf16(x) => x.enc(),
        Instruction::BsGetUtf32(x) => x.enc(),
        Instruction::BsSkipUtf32(x) => x.enc(),
        Instruction::BsUtf8Size(x) => x.enc(),
        Instruction::BsPutUtf8(x) => x.enc(),
        Instruction::BsUtf16Size(x) => x.enc(),
        Instruction::BsPutUtf16(x) => x.enc(),
        Instruction::BsPutUtf32(x) => x.enc(),
        Instruction::OnLoad(x) => x.enc(),
        Instruction::RecvMark(x) => x.enc(),
        Instruction::RecvSet(x) => x.enc(),
        Instruction::GcBif3(x) => x.enc(),
        Instruction::Line(x) => x.enc(),
        Instruction::PutMapAssoc(x) => x.enc(),
        Instruction::PutMapExact(x) => x.enc(),
        Instruction::IsMap(x) => x.enc(),
        Instruction::HasMapFields(x) => x.enc(),
        Instruction::GetMapElement(x) => x.enc(),
        Instruction::IsTaggedTuple(x) => x.enc(),
        Instruction::BuildStacktrace(x) => x.enc(),
        Instruction::RawRaise(x) => x.enc(),
        Instruction::GetHd(x) => x.enc(),
        Instruction::GetTl(x) => x.enc(),
        Instruction::PutTuple2(x) => x.enc(),
        Instruction::BsGetTail(x) => x.enc(),
        Instruction::BsStartMatch3(x) => x.enc(),
        Instruction::BsGetPosition(x) => x.enc(),
        Instruction::BsSetPosition(x) => x.enc(),
        Instruction::Swap(x) => x.enc(),
        Instruction::BsStartMatch4(x) => x.enc(),
        Instruction::MakeFun3(x) => x.enc(),
        Instruction::InitYregs(x) => x.enc(),
        Instruction::RecvMarkerBind(x) => x.enc(),
        Instruction::RecvMarkerClear(x) => x.enc(),
        Instruction::RecvMarkerReserve(x) => x.enc(),
        Instruction::RecvMarkerUse(x) => x.enc(),
        Instruction::BsCreateBin(x) => x.enc(),
        Instruction::CallFun2(x) => x.enc(),
        Instruction::NifStart(x) => x.enc(),
        Instruction::Badrecord(x) => x.enc(),
    }
}

/// Decode one instruction from the front of `s`: the opcode byte, then its
/// operands.
pub open spec fn dec_instr(s: Seq<u8>) -> Result<(u8, Seq<TermV>, nat), DecodeErrorV> {
    if s.len() == 0 {
        Err(DecodeErrorV::IoError)
    } else {
        match dec_ops(s[0], s.skip(1)) {
            Ok((args, n)) => Ok((s[0], args, (n + 1) as nat)),
            Err(e) => Err(e),
        }
    }
}

#[verifier::rlimit(100)]
fn decode_op_range_1(op: u8, r: &mut Reader<'_>) -> (res: Result<Instruction, DecodeError>)
    requires
        1 <= op <= 30,
    ensures
        match res {
            Ok(v) => {
                &&& opcode_of(v) == op
                &&& dec_ops(op, old(r).remaining()) matches Ok((args, n)) && args == args_of(v)
                    && n <= old(r).remaining().len()
                    && final(r).remaining() == old(r).remaining().skip(n as int)
            },
            Err(e) => dec_ops(op, old(r).remaining()) matches Err(se) && se == e@,
        },
{
    match op {
        1u8 => Ok(Instruction::Label(Label::decode_operands(r)?)),
        2u8 => Ok(Instruction::FuncInfo(FuncInfo::decode_operands(r)?)),
        3u8 => Ok(Instruction::IntCodeEnd(IntCodeEnd::decode_operands(r)?)),
        4u8 => Ok(Instruction::Call(Call::decode_operands(r)?)),
        5u8 => Ok(Instruction::CallLast(CallLast::decode_operands(r)?)),
        6u8 => Ok(Instruction::CallOnly(CallOnly::decode_operands(r)?)),
        7u8 => Ok(Instruction::CallExt(CallExt::decode_operands(r)?)),
        8u8 => Ok(Instruction::CallExtLast(CallExtLast::decode_operands(r)?)),
        9u8 => Ok(Instruction::Bif0(Bif0::decode_operands(r)?)),
        10u8 => Ok(Instruction::Bif1(Bif1::decode_operands(r)?)),
        11u8 => Ok(Instruction::Bif2(Bif2::decode_operands(r)?)),
        12u8 => Ok(Instruction::Allocate(Allocate::decode_operands(r)?)),
        13u8 => Ok(Instruction::AllocateHeap(AllocateHeap::decode_operands(r)?)),
        14u8 => Ok(Instruction::AllocateZero(AllocateZero::decode_operands(r)?)),
        15u8 => Ok(Instruction::AllocateHeapZero(AllocateHeapZero::decode_operands(r)?)),
        16u8 => Ok(Instruction::TestHeap(TestHeap::decode_operands(r)?)),
        17u8 => Ok(Instruction::Init(Init::decode_operands(r)?)),
        18u8 => Ok(Instruction::Deallocate(Deallocate::decode_operands(r)?)),
        19u8 => Ok(Instruction::Return(Return::decode_operands(r)?)),
        20u8 => Ok(Instruction::Send(Send::decode_operands(r)?)),
        21u8 => Ok(Instruction::RemoveMessage(RemoveMessage::decode_operands(r)?)),
        22u8 => Ok(Instruction::Timeout(Timeout::decode_operands(r)?)),
        23u8 => Ok(Instruction::LoopRec(LoopRec::decode_operands(r)?)),
        24u8 => Ok(Instruction::LoopRecEnd(LoopRecEnd::decode_operands(r)?)),
        25u8 => Ok(Instruction::Wait(Wait::decode_operands(r)?)),
        26u8 => Ok(Instruction::WaitTimeout(WaitTimeout::decode_operands(r)?)),
        27u8 => Ok(Instruction::MPlus(MPlus::decode_operands(r)?)),
        28u8 => Ok(Instruction::MMinus(MMinus::decode_operands(r)?)),
        29u8 => Ok(Instruction::MTimes(MTimes::decode_operands(r)?)),
        30u8 => Ok(Instruction::MDiv(MDiv::decode_operands(r)?)),
        _ => {
            proof {
                assert(false);
            }
            Err(DecodeError::UnknownOpcode { opcode: op })
        },
    }
}

#[verifier::rlimit(100)]
fn decode_op_range_2(op: u8, r: &mut Reader<'_>) -> (res: Result<Instruction, DecodeError>)
    requires
        31 <= op <= 60,
    ensures
        match res {
            Ok(v) => {
                &&& opcode_of(v) == op
                &&& dec_ops(op, old(r).remaining()) matches Ok((args, n)) && args == args_of(v)
                    && n <= old(r).remaining().len()
                    && final(r).remaining() == old(r).remaining().skip(n as int)
            },
            Err(e) => dec_ops(op, old(r).remaining()) matches Err(se) && se == e@,
        },
{
    match op {
        31u8 => Ok(Instruction::IntDiv(IntDiv::decode_operands(r)?)),
        32u8 => Ok(Instruction::IntRem(IntRem::decode_operands(r)?)),
        33u8 => Ok(Instruction::IntBand(IntBand::decode_operands(r)?)),
        34u8 => Ok(Instruction::IntBor(IntBor::decode_operands(r)?)),
        35u8 => Ok(Instruction::IntBxor(IntBxor::decode_operands(r)?)),
        36u8 => Ok(Instruction::IntBsl(IntBsl::decode_operands(r)?)),
        37u8 => Ok(Instruction::IntBsr(IntBsr::decode_operands(r)?)),
        38u8 => Ok(Instruction::IntBnot(IntBnot::decode_operands(r)?)),
        39u8 => Ok(Instruction::IsLt(IsLt::decode_operands(r)?)),
        40u8 => Ok(Instruction::IsGe(IsGe::decode_operands(r)?)),
        41u8 => Ok(Instruction::IsEq(IsEq::decode_operands(r)?)),
        42u8 => Ok(Instruction::IsNe(IsNe::decode_operands(r)?)),
        43u8 => Ok(Instruction::IsEqExact(IsEqExact::decode_operands(r)?)),
        44u8 => Ok(Instruction::IsNeExact(IsNeExact::decode_operands(r)?)),
        45u8 => Ok(Instruction::IsInteger(IsInteger::decode_operands(r)?)),
        46u8 => Ok(Instruction::IsFloat(IsFloat::decode_operands(r)?)),
        47u8 => Ok(Instruction::IsNumber(IsNumber::decode_operands(r)?)),
        48u8 => Ok(Instruction::IsAtom(IsAtom::decode_operands(r)?)),
        49u8 => Ok(Instruction::IsPid(IsPid::decode_operands(r)?)),
        50u8 => Ok(Instruction::IsReference(IsReference::decode_operands(r)?)),
        51u8 => Ok(Instruction::IsPort(IsPort::decode_operands(r)?)),
        52u8 => Ok(Instruction::IsNil(IsNil::decode_operands(r)?)),
        53u8 => Ok(Instruction::IsBinary(IsBinary::decode_operands(r)?)),
        54u8 => Ok(Instruction::IsConstant(IsConstant::decode_operands(r)?)),
        55u8 => Ok(Instruction::IsList(IsList::decode_operands(r)?)),
        56u8 => Ok(Instruction::IsNonemptyList(IsNonemptyList::decode_operands(r)?)),
        57u8 => Ok(Instruction::IsTuple(IsTuple::decode_operands(r)?)),
        58u8 => Ok(Instruction::TestArity(TestArity::decode_operands(r)?)),
        59u8 => Ok(Instruction::SelectVal(SelectVal::decode_operands(r)?)),
        60u8 => Ok(Instruction::SelectTupleArity(SelectTupleArity::decode_operands(r)?)),
        _ => {
            proof {
                assert(false);
            }
            Err(DecodeError::UnknownOpcode { opcode: op })
        },
    }
}

#[verifier::rlimit(100)]
fn decode_op_range_3(op: u8, r: &mut Reader<'_>) -> (res: Result<Instruction, DecodeError>)
    requires
        61 <= op <= 90,
    ensures
        match res {
            Ok(v) => {
                &&& opcode_of(v) == op
                &&& dec_ops(op, old(r).remaining()) matches Ok((args, n)) && args == args_of(v)
                    && n <= old(r).remaining().len()
                    && final(r).remaining() == old(r).remaining().skip(n as int)
            },
            Err(e) => dec_ops(op, old(r).remaining()) matches Err(se) && se == e@,
        },
{
    match op {
        61u8 => Ok(Instruction::Jump(Jump::decode_operands(r)?)),
        62u8 => Ok(Instruction::Catch(Catch::decode_operands(r)?)),
        63u8 => Ok(Instruction::CatchEnd(CatchEnd::decode_operands(r)?)),
        64u8 => Ok(Instruction::Move(Move::decode_operands(r)?)),
        65u8 => Ok(Instruction::GetList(GetList::decode_operands(r)?)),
        66u8 => Ok(Instruction::GetTupleElement(GetTupleElement::decode_operands(r)?)),
        67u8 => Ok(Instruction::SetTupleElement(SetTupleElement::decode_operands(r)?)),
        68u8 => Ok(Instruction::PutString(PutString::decode_operands(r)?)),
        69u8 => Ok(Instruction::PutList(PutList::decode_operands(r)?)),
        70u8 => Ok(Instruction::PutTuple(PutTuple::decode_operands(r)?)),
        71u8 => Ok(Instruction::Put(Put::decode_operands(r)?)),
        72u8 => Ok(Instruction::Badmatch(Badmatch::decode_operands(r)?)),
        73u8 => Ok(Instruction::IfEnd(IfEnd::decode_operands(r)?)),
        74u8 => Ok(Instruction::CaseEnd(CaseEnd::decode_operands(r)?)),
        75u8 => Ok(Instruction::CallFun(CallFun::decode_operands(r)?)),
        76u8 => Ok(Instruction::MakeFun(MakeFun::decode_operands(r)?)),
        77u8 => Ok(Instruction::IsFunction(IsFunction::decode_operands(r)?)),
        78u8 => Ok(Instruction::CallExtOnly(CallExtOnly::decode_operands(r)?)),
        79u8 => Ok(Instruction::BsStartMatch(BsStartMatch::decode_operands(r)?)),
        80u8 => Ok(Instruction::BsGetInteger(BsGetInteger::decode_operands(r)?)),
        81u8 => Ok(Instruction::BsGetFloat(BsGetFloat::decode_operands(r)?)),
        82u8 => Ok(Instruction::BsGetBinary(BsGetBinary::decode_operands(r)?)),
        83u8 => Ok(Instruction::BsSkipBits(BsSkipBits::decode_operands(r)?)),
        84u8 => Ok(Instruction::BsTestTail(BsTestTail::decode_operands(r)?)),
        85u8 => Ok(Instruction::BsSave(BsSave::decode_operands(r)?)),
        86u8 => Ok(Instruction::BsRestore(BsRestore::decode_operands(r)?)),
        87u8 => Ok(Instruction::BsInit(BsInit::decode_operands(r)?)),
        88u8 => Ok(Instruction::BsFinal(BsFinal::decode_operands(r)?)),
        89u8 => Ok(Instruction::BsPutInteger(BsPutInteger::decode_operands(r)?)),
        90u8 => Ok(Instruction::BsPutBinary(BsPutBinary::decode_operands(r)?)),
        _ => {
            proof {
                assert(false);
            }
            Err(DecodeError::UnknownOpcode { opcode: op })
        },
    }
}

#[verifier::rlimit(100)]
fn decode_op_range_4(op: u8, r: &mut Reader<'_>) -> (res: Result<Instruction, DecodeError>)
    requires
        91 <= op <= 120,
    ensures
        match res {
            Ok(v) => {
                &&& opcode_of(v) == op
                &&& dec_ops(op, old(r).remaining()) matches Ok((args, n)) && args == args_of(v)
                    && n <= old(r).remaining().len()
                    && final(r).remaining() == old(r).remaining().skip(n as int)
            },
            Err(e) => dec_ops(op, old(r).remaining()) matches Err(se) && se == e@,
        },
{
    match op {
        91u8 => Ok(Instruction::BsPutFloat(BsPutFloat::decode_operands(r)?)),
        92u8 => Ok(Instruction::BsPutString(BsPutString::decode_operands(r)?)),
        93u8 => Ok(Instruction::BsNeedBuf(BsNeedBuf::decode_operands(r)?)),
        94u8 => Ok(Instruction::Fclearerror(Fclearerror::decode_operands(r)?)),
        95u8 => Ok(Instruction::Fcheckerror(Fcheckerror::decode_operands(r)?)),
        96u8 => Ok(Instruction::Fmove(Fmove::decode_operands(r)?)),
        97u8 => Ok(Instruction::Fconv(Fconv::decode_operands(r)?)),
        98u8 => Ok(Instruction::Fadd(Fadd::decode_operands(r)?)),
        99u8 => Ok(Instruction::Fsub(Fsub::decode_operands(r)?)),
        100u8 => Ok(Instruction::Fmul(Fmul::decode_operands(r)?)),
        101u8 => Ok(Instruction::Fdiv(Fdiv::decode_operands(r)?)),
        102u8 => Ok(Instruction::Fnegate(Fnegate::decode_operands(r)?)),
        103u8 => Ok(Instruction::MakeFun2(MakeFun2::decode_operands(r)?)),
        104u8 => Ok(Instruction::Try(Try::decode_operands(r)?)),
        105u8 => Ok(Instruction::TryEnd(TryEnd::decode_operands(r)?)),
        106u8 => Ok(Instruction::TryCase(TryCase::decode_operands(r)?)),
        107u8 => Ok(Instruction::TryCaseEnd(TryCaseEnd::decode_operands(r)?)),
        108u8 => Ok(Instruction::Raise(Raise::decode_operands(r)?)),
        109u8 => Ok(Instruction::BsInit2(BsInit2::decode_operands(r)?)),
        110u8 => Ok(Instruction::BsBitsToBytes(BsBitsToBytes::decode_operands(r)?)),
        111u8 => Ok(Instruction::BsAdd(BsAdd::decode_operands(r)?)),
        112u8 => Ok(Instruction::Apply(Apply::decode_operands(r)?)),
        113u8 => Ok(Instruction::ApplyLast(ApplyLast::decode_operands(r)?)),
        114u8 => Ok(Instruction::IsBoolean(IsBoolean::decode_operands(r)?)),
        115u8 => Ok(Instruction::IsFunction2(IsFunction2::decode_operands(r)?)),
        116u8 => Ok(Instruction::BsStartMatch2(BsStartMatch2::decode_operands(r)?)),
        117u8 => Ok(Instruction::BsGetInteger2(BsGetInteger2::decode_operands(r)?)),
        118u8 => Ok(Instruction::BsGetFloat2(BsGetFloat2::decode_operands(r)?)),
        119u8 => Ok(Instruction::BsGetBinary2(BsGetBinary2::decode_operands(r)?)),
        120u8 => Ok(Instruction::BsSkipBits2(BsSkipBits2::decode_operands(r)?)),
        _ => {
            proof {
                assert(false);
            }
            Err(DecodeError::UnknownOpcode { opcode: op })
        },
    }
}

#[verifier::rlimit(100)]
fn decode_op_range_5(op: u8, r: &mut Reader<'_>) -> (res: Result<Instruction, DecodeError>)
    requires
        121 <= op <= 150,
    ensures
        match res {
            Ok(v) => {
                &&& opcode_of(v) == op
                &&& dec_ops(op, old(r).remaining()) matches Ok((args, n)) && args == args_of(v)
                    && n <= old(r).remaining().len()
                    && final(r).remaining() == old(r).remaining().skip(n as int)
            },
            Err(e) => dec_ops(op, old(r).remaining()) matches Err(se) && se == e@,
        },
{
    match op {
        121u8 => Ok(Instruction::BsTestTail2(BsTestTail2::decode_operands(r)?)),
        122u8 => Ok(Instruction::BsSave2(BsSave2::decode_operands(r)?)),
        123u8 => Ok(Instruction::BsRestore2(BsRestore2::decode_operands(r)?)),
        124u8 => Ok(Instruction::GcBif1(GcBif1::decode_operands(r)?)),
        125u8 => Ok(Instruction::GcBif2(GcBif2::decode_operands(r)?)),
        126u8 => Ok(Instruction::BsFinal2(BsFinal2::decode_operands(r)?)),
        127u8 => Ok(Instruction::BsBitsToBytes2(BsBitsToBytes2::decode_operands(r)?)),
        128u8 => Ok(Instruction::PutLiteral(PutLiteral::decode_operands(r)?)),
        129u8 => Ok(Instruction::IsBitstr(IsBitstr::decode_operands(r)?)),
        130u8 => Ok(Instruction::BsContextToBinary(BsContextToBinary::decode_operands(r)?)),
        131u8 => Ok(Instruction::BsTestUnit(BsTestUnit::decode_operands(r)?)),
        132u8 => Ok(Instruction::BsMatchString(BsMatchString::decode_operands(r)?)),
        133u8 => Ok(Instruction::BsInitWritable(BsInitWritable::decode_operands(r)?)),
        134u8 => Ok(Instruction::BsAppend(BsAppend::decode_operands(r)?)),
        135u8 => Ok(Instruction::BsPrivateAppend(BsPrivateAppend::decode_operands(r)?)),
        136u8 => Ok(Instruction::Trim(Trim::decode_operands(r)?)),
        137u8 => Ok(Instruction::BsInitBits(BsInitBits::decode_operands(r)?)),
        138u8 => Ok(Instruction::BsGetUtf8(BsGetUtf8::decode_operands(r)?)),
        139u8 => Ok(Instruction::BsSkipUtf8(BsSkipUtf8::decode_operands(r)?)),
        140u8 => Ok(Instruction::BsGetUtf16(BsGetUtf16::decode_operands(r)?)),
        141u8 => Ok(Instruction::BsSkipUtf16(BsSkipUtf16::decode_operands(r)?)),
        142u8 => Ok(Instruction::BsGetUtf32(BsGetUtf32::decode_operands(r)?)),
        143u8 => Ok(Instruction::BsSkipUtf32(BsSkipUtf32::decode_operands(r)?)),
        144u8 => Ok(Instruction::BsUtf8Size(BsUtf8Size::decode_operands(r)?)),
        145u8 => Ok(Instruction::BsPutUtf8(BsPutUtf8::decode_operands(r)?)),
        146u8 => Ok(Instruction::BsUtf16Size(BsUtf16Size::decode_operands(r)?)),
        147u8 => Ok(Instruction::BsPutUtf16(BsPutUtf16::decode_operands(r)?)),
        148u8 => Ok(Instruction::BsPutUtf32(BsPutUtf32::decode_operands(r)?)),
        149u8 => Ok(Instruction::OnLoad(OnLoad::decode_operands(r)?)),
        150u8 => Ok(Instruction::RecvMark(RecvMark::decode_operands(r)?)),
        _ => {
            proof {
                assert(false);
            }
            Err(DecodeError::UnknownOpcode { opcode: op })
        },
    }
}

#[verifier::rlimit(100)]
fn decode_op_range_6(op: u8, r: &mut Reader<'_>) -> (res: Result<Instruction, DecodeError>)
    requires
        151 <= op <= 180,
    ensures
        match res {
            Ok(v) => {
                &&& opcode_of(v) == op
                &&& dec_ops(op, old(r).remaining()) matches Ok((args, n)) && args == args_of(v)
                    && n <= old(r).remaining().len()
                    && final(r).remaining() == old(r).remaining().skip(n as int)
            },
            Err(e) => dec_ops(op, old(r).remaining()) matches Err(se) && se == e@,
        },
{
    match op {
        151u8 => Ok(Instruction::RecvSet(RecvSet::decode_operands(r)?)),
        152u8 => Ok(Instruction::GcBif3(GcBif3::decode_operands(r)?)),
        153u8 => Ok(Instruction::Line(Line::decode_operands(r)?)),
        154u8 => Ok(Instruction::PutMapAssoc(PutMapAssoc::decode_operands(r)?)),
        155u8 => Ok(Instruction::PutMapExact(PutMapExact::decode_operands(r)?)),
        156u8 => Ok(Instruction::IsMap(IsMap::decode_operands(r)?)),
        157u8 => Ok(Instruction::HasMapFields(HasMapFields::decode_operands(r)?)),
        158u8 => Ok(Instruction::GetMapElement(GetMapElement::decode_operands(r)?)),
        159u8 => Ok(Instruction::IsTaggedTuple(IsTaggedTuple::decode_operands(r)?)),
        160u8 => Ok(Instruction::BuildStacktrace(BuildStacktrace::decode_operands(r)?)),
        161u8 => Ok(Instruction::RawRaise(RawRaise::decode_operands(r)?)),
        162u8 => Ok(Instruction::GetHd(GetHd::decode_operands(r)?)),
        163u8 => Ok(Instruction::GetTl(GetTl::decode_operands(r)?)),
        164u8 => Ok(Instruction::PutTuple2(PutTuple2::decode_operands(r)?)),
        165u8 => Ok(Instruction::BsGetTail(BsGetTail::decode_operands(r)?)),
        166u8 => Ok(Instruction::BsStartMatch3(BsStartMatch3::decode_operands(r)?)),
        167u8 => Ok(Instruction::BsGetPosition(BsGetPosition::decode_operands(r)?)),
        168u8 => Ok(Instruction::BsSetPosition(BsSetPosition::decode_operands(r)?)),
        169u8 => Ok(Instruction::Swap(Swap::decode_operands(r)?)),
        170u8 => Ok(Instruction::BsStartMatch4(BsStartMatch4::decode_operands(r)?)),
        171u8 => Ok(Instruction::MakeFun3(MakeFun3::decode_operands(r)?)),
        172u8 => Ok(Instruction::InitYregs(InitYregs::decode_operands(r)?)),
        173u8 => Ok(Instruction::RecvMarkerBind(RecvMarkerBind::decode_operands(r)?)),
        174u8 => Ok(Instruction::RecvMarkerClear(RecvMarkerClear::decode_operands(r)?)),
        175u8 => Ok(Instruction::RecvMarkerReserve(RecvMarkerReserve::decode_operands(r)?)),
        176u8 => Ok(Instruction::RecvMarkerUse(RecvMarkerUse::decode_operands(r)?)),
        177u8 => Ok(Instruction::BsCreateBin(BsCreateBin::decode_operands(r)?)),
        178u8 => Ok(Instruction::CallFun2(CallFun2::decode_operands(r)?)),
        179u8 => Ok(Instruction::NifStart(NifStart::decode_operands(r)?)),
        180u8 => Ok(Instruction::Badrecord(Badrecord::decode_operands(r)?)),
        _ => {
            proof {
                assert(false);
            }
            Err(DecodeError::UnknownOpcode { opcode: op })
        },
    }
}

impl Instruction {
    /// Decode one instruction.
    pub fn decode(r: &mut Reader<'_>) -> (res: Result<Instruction, DecodeError>)
        ensures
            match res {
                Ok(v) => dec_instr(old(r).remaining()) matches Ok((op, args, n)) && op
                    == opcode_of(v) && args == args_of(v) && 1 <= n && n <= old(r).remaining().len()
                    && final(r).remaining() == old(r).remaining().skip(n as int),
                Err(e) => dec_instr(old(r).remaining()) matches Err(se) && se == e@,
            },
    {
        let op = r.read_u8()?;
        if 1 <= op && op <= 30 {
            decode_op_range_1(op, r)
        } else if 31 <= op && op <= 60 {
            decode_op_range_2(op, r)
        } else if 61 <= op && op <= 90 {
            decode_op_range_3(op, r)
        } else if 91 <= op && op <= 120 {
            decode_op_range_4(op, r)
        } else if 121 <= op && op <= 150 {
            decode_op_range_5(op, r)
        } else if 151 <= op && op <= 180 {
            decode_op_range_6(op, r)
        } else {
            Err(DecodeError::UnknownOpcode { opcode: op })
        }
    }

    /// Encode this instruction: its opcode byte, then its operands.
    pub fn encode(&self, out: &mut Vec<u8>) -> (res: Result<(), EncodeError>)
        ensures
            res is Ok,
            final(out)@ == old(out)@ + enc_instr(*self),
    {
        match self {
            Instruction::Allocate(x) => x.encode_operands(out),
            Instruction::AllocateHeap(x) => x.encode_operands(out),
            Instruction::AllocateHeapZero(x) => x.encode_operands(out),
            Instruction::AllocateZero(x) => x.encode_operands(out),
            Instruction::Apply(x) => x.encode_operands(out),
            Instruction::ApplyLast(x) => x.encode_operands(out),
            Instruction::Badmatch(x) => x.encode_operands(out),
            Instruction::Badrecord(x) => x.encode_operands(out),
            Instruction::Bif0(x) => x.encode_operands(out),
            Instruction::Bif1(x) => x.encode_operands(out),
            Instruction::Bif2(x) => x.encode_operands(out),
            Instruction::BsAdd(x) => x.encode_operands(out),
            Instruction::BsAppend(x) => x.encode_operands(out),
            Instruction::BsBitsToBytes(x) => x.encode_operands(out),
            Instruction::BsBitsToBytes2(x) => x.encode_operands(out),
            Instruction::BsContextToBinary(x) => x.encode_operands(out),
            Instruction::BsCreateBin(x) => x.encode_operands(out),
            Instruction::BsFinal(x) => x.encode_operands(out),
            Instruction::BsFinal2(x) => x.encode_operands(out),
            Instruction::BsGetBinary(x) => x.encode_operands(out),
            Instruction::BsGetBinary2(x) => x.encode_operands(out),
            Instruction::BsGetFloat(x) => x.encode_operands(out),
            Instruction::BsGetFloat2(x) => x.encode_operands(out),
            Instruction::BsGetInteger(x) => x.encode_operands(out),
            Instruction::BsGetInteger2(x) => x.encode_operands(out),
            Instruction::BsGetPosition(x) => x.encode_operands(out),
            Instruction::BsGetTail(x) => x.encode_operands(out),
            Instruction::BsGetUtf16(x) => x.encode_operands(out),
            Instruction::BsGetUtf32(x) => x.encode_operands(out),
            Instruction::BsGetUtf8(x) => x.encode_operands(out),
            Instruction::BsInit(x) => x.encode_operands(out),
            Instruction::BsInit2(x) => x.encode_operands(out),
            Instruction::BsInitBits(x) => x.encode_operands(out),
            Instruction::BsInitWritable(x) => x.encode_operands(out),
            Instruction::BsMatchString(x) => x.encode_operands(out),
            Instruction::BsNeedBuf(x) => x.encode_operands(out),
            Instruction::BsPrivateAppend(x) => x.encode_operands(out),
            Instruction::BsPutBinary(x) => x.encode_operands(out),
            Instruction::BsPutFloat(x) => x.encode_operands(out),
            Instruction::BsPutInteger(x) => x.encode_operands(out),
            Instruction::BsPutString(x) => x.encode_operands(out),
            Instruction::BsPutUtf16(x) => x.encode_operands(out),
            Instruction::BsPutUtf32(x) => x.encode_operands(out),
            Instruction::BsPutUtf8(x) => x.encode_operands(out),
            Instruction::BsRestore(x) => x.encode_operands(out),
            Instruction::BsRestore2(x) => x.encode_operands(out),
            Instruction::BsSave(x) => x.encode_operands(out),
            Instruction::BsSave2(x) => x.encode_operands(out),
            Instruction::BsSetPosition(x) => x.encode_operands(out),
            Instruction::BsSkipBits(x) => x.encode_operands(out),
            Instruction::BsSkipBits2(x) => x.encode_operands(out),
            Instruction::BsSkipUtf16(x) => x.encode_operands(out),
            Instruction::BsSkipUtf32(x) => x.encode_operands(out),
            Instruction::BsSkipUtf8(x) => x.encode_operands(out),
            Instruction::BsStartMatch(x) => x.encode_operands(out),
            Instruction::BsStartMatch2(x) => x.encode_operands(out),
            Instruction::BsStartMatch3(x) => x.encode_operands(out),
            Instruction::BsStartMatch4(x) => x.encode_operands(out),
            Instruction::BsTestTail(x) => x.encode_operands(out),
            Instruction::BsTestTail2(x) => x.encode_operands(out),
            Instruction::BsTestUnit(x) => x.encode_operands(out),
            Instruction::BsUtf16Size(x) => x.encode_operands(out),
            Instruction::BsUtf8Size(x) => x.encode_operands(out),
            Instruction::BuildStacktrace(x) => x.encode_operands(out),
            Instruction::Call(x) => x.encode_operands(out),
            Instruction::CallExt(x) => x.encode_operands(out),
            Instruction::CallExtLast(x) => x.encode_operands(out),
            Instruction::CallExtOnly(x) => x.encode_operands(out),
            Instruction::CallFun(x) => x.encode_operands(out),
            Instruction::CallFun2(x) => x.encode_operands(out),
            Instruction::CallLast(x) => x.encode_operands(out),
            Instruction::CallOnly(x) => x.encode_operands(out),
            Instruction::CaseEnd(x) => x.encode_operands(out),
            Instruction::Catch(x) => x.encode_operands(out),
            Instruction::CatchEnd(x) => x.encode_operands(out),
            Instruction::Deallocate(x) => x.encode_operands(out),
            Instruction::Fadd(x) => x.encode_operands(out),
            Instruction::Fcheckerror(x) => x.encode_operands(out),
            Instruction::Fclearerror(x) => x.encode_operands(out),
            Instruction::Fconv(x) => x.encode_operands(out),
            Instruction::Fdiv(x) => x.encode_operands(out),
            Instruction::Fmove(x) => x.encode_operands(out),
            Instruction::Fmul(x) => x.encode_operands(out),
            Instruction::Fnegate(x) => x.encode_operands(out),
            Instruction::Fsub(x) => x.encode_operands(out),
            Instruction::FuncInfo(x) => x.encode_operands(out),
            Instruction::GcBif1(x) => x.encode_operands(out),
            Instruction::GcBif2(x) => x.encode_operands(out),
            Instruction::GcBif3(x) => x.encode_operands(out),
            Instruction::GetHd(x) => x.encode_operands(out),
            Instruction::GetList(x) => x.encode_operands(out),
            Instruction::GetMapElement(x) => x.encode_operands(out),
            Instruction::GetTl(x) => x.encode_operands(out),
            Instruction::GetTupleElement(x) => x.encode_operands(out),
            Instruction::HasMapFields(x) => x.encode_operands(out),
            Instruction::IfEnd(x) => x.encode_operands(out),
            Instruction::Init(x) => x.encode_operands(out),
            Instruction::InitYregs(x) => x.encode_operands(out),
            Instruction::IntBand(x) => x.encode_operands(out),
            Instruction::IntBnot(x) => x.encode_operands(out),
            Instruction::IntBor(x) => x.encode_operands(out),
            Instruction::IntBsl(x) => x.encode_operands(out),
            Instruction::IntBsr(x) => x.encode_operands(out),
            Instruction::IntBxor(x) => x.encode_operands(out),
            Instruction::IntCodeEnd(x) => x.encode_operands(out),
            Instruction::IntDiv(x) => x.encode_operands(out),
            Instruction::IntRem(x) => x.encode_operands(out),
            Instruction::IsAtom(x) => x.encode_operands(out),
            Instruction::IsBinary(x) => x.encode_operands(out),
            Instruction::IsBitstr(x) => x.encode_operands(out),
            Instruction::IsBoolean(x) => x.encode_operands(out),
            Instruction::IsConstant(x) => x.encode_operands(out),
            Instruction::IsEq(x) => x.encode_operands(out),
            Instruction::IsEqExact(x) => x.encode_operands(out),
            Instruction::IsFloat(x) => x.encode_operands(out),
            Instruction::IsFunction(x) => x.encode_operands(out),
            Instruction::IsFunction2(x) => x.encode_operands(out),
            Instruction::IsGe(x) => x.encode_operands(out),
            Instruction::IsInteger(x) => x.encode_operands(out),
            Instruction::IsList(x) => x.encode_operands(out),
            Instruction::IsLt(x) => x.encode_operands(out),
            Instruction::IsMap(x) => x.encode_operands(out),
            Instruction::IsNe(x) => x.encode_operands(out),
            Instruction::IsNeExact(x) => x.encode_operands(out),
            Instruction::IsNil(x) => x.encode_operands(out),
            Instruction::IsNonemptyList(x) => x.encode_operands(out),
            Instruction::IsNumber(x) => x.encode_operands(out),
            Instruction::IsPid(x) => x.encode_operands(out),
            Instruction::IsPort(x) => x.encode_operands(out),
            Instruction::IsReference(x) => x.encode_operands(out),
            Instruction::IsTaggedTuple(x) => x.encode_operands(out),
            Instruction::IsTuple(x) => x.encode_operands(out),
            Instruction::Jump(x) => x.encode_operands(out),
            Instruction::Label(x) => x.encode_operands(out),
            Instruction::Line(x) => x.encode_operands(out),
            Instruction::LoopRec(x) => x.encode_operands(out),
            Instruction::LoopRecEnd(x) => x.encode_operands(out),
            Instruction::MDiv(x) => x.encode_operands(out),
            Instruction::MMinus(x) => x.encode_operands(out),
            Instruction::MPlus(x) => x.encode_operands(out),
            Instruction::MTimes(x) => x.encode_operands(out),
            Instruction::MakeFun(x) => x.encode_operands(out),
            Instruction::MakeFun2(x) => x.encode_operands(out),
            Instruction::MakeFun3(x) => x.encode_operands(out),
            Instruction::Move(x) => x.encode_operands(out),
            Instruction::NifStart(x) => x.encode_operands(out),
            Instruction::OnLoad(x) => x.encode_operands(out),
            Instruction::Put(x) => x.encode_operands(out),
            Instruction::PutList(x) => x.encode_operands(out),
            Instruction::PutLiteral(x) => x.encode_operands(out),
            Instruction::PutMapAssoc(x) => x.encode_operands(out),
            Instruction::PutMapExact(x) => x.encode_operands(out),
            Instruction::PutString(x) => x.encode_operands(out),
            Instruction::PutTuple(x) => x.encode_operands(out),
            Instruction::PutTuple2(x) => x.encode_operands(out),
            Instruction::Raise(x) => x.encode_operands(out),
            Instruction::RawRaise(x) => x.encode_operands(out),
            Instruction::RecvMark(x) => x.encode_operands(out),
            Instruction::RecvMarkerBind(x) => x.encode_operands(out),
            Instruction::RecvMarkerClear(x) => x.encode_operands(out),
            Instruction::RecvMarkerReserve(x) => x.encode_operands(out),
            Instruction::RecvMarkerUse(x) => x.encode_operands(out),
            Instruction::RecvSet(x) => x.encode_operands(out),
            Instruction::RemoveMessage(x) => x.encode_operands(out),
            Instruction::Return(x) => x.encode_operands(out),
            Instruction::SelectTupleArity(x) => x.encode_operands(out),
            Instruction::SelectVal(x) => x.encode_operands(out),
            Instruction::Send(x) => x.encode_operands(out),
            Instruction::SetTupleElement(x) => x.encode_operands(out),
            Instruction::Swap(x) => x.encode_operands(out),
            Instruction::TestArity(x) => x.encode_operands(out),
            Instruction::TestHeap(x) => x.encode_operands(out),
            Instruction::Timeout(x) => x.encode_operands(out),
            Instruction::Trim(x) => x.encode_operands(out),
            Instruction::Try(x) => x.encode_operands(out),
            Instruction::TryCase(x) => x.encode_operands(out),
            Instruction::TryCaseEnd(x) => x.encode_operands(out),
            Instruction::TryEnd(x) => x.encode_operands(out),
            Instruction::Wait(x) => x.encode_operands(out),
            Instruction::WaitTimeout(x) => x.encode_operands(out),
        }
    }
}

} // verus!
