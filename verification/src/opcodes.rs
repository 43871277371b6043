use vstd::prelude::*;

verus! {

/// An opcode of a script, by its byte.
#[derive(Debug, Clone, Copy, PartialEq, Eq, Structural)]
pub struct Opcode(pub u8);

impl Opcode {
    pub fn to_u8(self) -> (r: u8)
        ensures
            r == self.0,
    {
        self.0
    }
}

pub const OP_PUSHNUM_NEG1: u8 = 0x4f;

pub const OP_RESERVED: u8 = 0x50;

pub const OP_PUSHNUM_1: u8 = 0x51;

pub const OP_PUSHNUM_2: u8 = 0x52;

pub const OP_PUSHNUM_3: u8 = 0x53;

pub const OP_PUSHNUM_4: u8 = 0x54;

pub const OP_PUSHNUM_5: u8 = 0x55;

pub const OP_PUSHNUM_6: u8 = 0x56;

pub const OP_PUSHNUM_7: u8 = 0x57;

pub const OP_PUSHNUM_8: u8 = 0x58;

pub const OP_PUSHNUM_9: u8 = 0x59;

pub const OP_PUSHNUM_10: u8 = 0x5a;

pub const OP_PUSHNUM_11: u8 = 0x5b;

pub const OP_PUSHNUM_12: u8 = 0x5c;

pub const OP_PUSHNUM_13: u8 = 0x5d;

pub const OP_PUSHNUM_14: u8 = 0x5e;

pub const OP_PUSHNUM_15: u8 = 0x5f;

pub const OP_PUSHNUM_16: u8 = 0x60;

pub const OP_NOP: u8 = 0x61;

pub const OP_VER: u8 = 0x62;

pub const OP_IF: u8 = 0x63;

pub const OP_NOTIF: u8 = 0x64;

pub const OP_VERIF: u8 = 0x65;

pub const OP_VERNOTIF: u8 = 0x66;

pub const OP_ELSE: u8 = 0x67;

pub const OP_ENDIF: u8 = 0x68;

pub const OP_VERIFY: u8 = 0x69;

pub const OP_RETURN: u8 = 0x6a;

pub const OP_TOALTSTACK: u8 = 0x6b;

pub const OP_FROMALTSTACK: u8 = 0x6c;

pub const OP_2DROP: u8 = 0x6d;

pub const OP_2DUP: u8 = 0x6e;

pub const OP_3DUP: u8 = 0x6f;

pub const OP_2OVER: u8 = 0x70;

pub const OP_2ROT: u8 = 0x71;

pub const OP_2SWAP: u8 = 0x72;

pub const OP_IFDUP: u8 = 0x73;

pub const OP_DEPTH: u8 = 0x74;

pub const OP_DROP: u8 = 0x75;

pub const OP_DUP: u8 = 0x76;

pub const OP_NIP: u8 = 0x77;

pub const OP_OVER: u8 = 0x78;

pub const OP_PICK: u8 = 0x79;

pub const OP_ROLL: u8 = 0x7a;

pub const OP_ROT: u8 = 0x7b;

pub const OP_SWAP: u8 = 0x7c;

pub const OP_TUCK: u8 = 0x7d;

pub const OP_CAT: u8 = 0x7e;

pub const OP_SUBSTR: u8 = 0x7f;

pub const OP_LEFT: u8 = 0x80;

pub const OP_RIGHT: u8 = 0x81;

pub const OP_SIZE: u8 = 0x82;

pub const OP_INVERT: u8 = 0x83;

pub const OP_AND: u8 = 0x84;

pub const OP_OR: u8 = 0x85;

pub const OP_XOR: u8 = 0x86;

pub const OP_EQUAL: u8 = 0x87;

pub const OP_EQUALVERIFY: u8 = 0x88;

pub const OP_RESERVED1: u8 = 0x89;

pub const OP_RESERVED2: u8 = 0x8a;

pub const OP_1ADD: u8 = 0x8b;

pub const OP_1SUB: u8 = 0x8c;

pub const OP_2MUL: u8 = 0x8d;

pub const OP_2DIV: u8 = 0x8e;

pub const OP_NEGATE: u8 = 0x8f;

pub const OP_ABS: u8 = 0x90;

pub const OP_NOT: u8 = 0x91;

pub const OP_0NOTEQUAL: u8 = 0x92;

pub const OP_ADD: u8 = 0x93;

pub const OP_SUB: u8 = 0x94;

pub const OP_MUL: u8 = 0x95;

pub const OP_DIV: u8 = 0x96;

pub const OP_MOD: u8 = 0x97;

pub const OP_LSHIFT: u8 = 0x98;

pub const OP_RSHIFT: u8 = 0x99;

pub const OP_BOOLAND: u8 = 0x9a;

pub const OP_BOOLOR: u8 = 0x9b;

pub const OP_NUMEQUAL: u8 = 0x9c;

pub const OP_NUMEQUALVERIFY: u8 = 0x9d;

pub const OP_NUMNOTEQUAL: u8 = 0x9e;

pub const OP_LESSTHAN: u8 = 0x9f;

pub const OP_GREATERTHAN: u8 = 0xa0;

pub const OP_LESSTHANOREQUAL: u8 = 0xa1;

pub const OP_GREATERTHANOREQUAL: u8 = 0xa2;

pub const OP_MIN: u8 = 0xa3;

pub const OP_MAX: u8 = 0xa4;

pub const OP_WITHIN: u8 = 0xa5;

pub const OP_RIPEMD160: u8 = 0xa6;

pub const OP_SHA1: u8 = 0xa7;

pub const OP_SHA256: u8 = 0xa8;

pub const OP_HASH160: u8 = 0xa9;

pub const OP_HASH256: u8 = 0xaa;

pub const OP_CODESEPARATOR: u8 = 0xab;

pub const OP_CHECKSIG: u8 = 0xac;

pub const OP_CHECKSIGVERIFY: u8 = 0xad;

pub const OP_CHECKMULTISIG: u8 = 0xae;

pub const OP_CHECKMULTISIGVERIFY: u8 = 0xaf;

pub const OP_NOP1: u8 = 0xb0;

pub const OP_CLTV: u8 = 0xb1;

pub const OP_CSV: u8 = 0xb2;

pub const OP_NOP4: u8 = 0xb3;

pub const OP_NOP5: u8 = 0xb4;

pub const OP_NOP6: u8 = 0xb5;

pub const OP_NOP7: u8 = 0xb6;

pub const OP_NOP8: u8 = 0xb7;

pub const OP_NOP9: u8 = 0xb8;

pub const OP_NOP10: u8 = 0xb9;

pub const OP_CHECKSIGADD: u8 = 0xba;

} // verus!
