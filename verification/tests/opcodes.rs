use bitcoin::opcodes::all;
use bitcoin_scriptexec::opcodes;

#[test]
fn opcodes_have_their_bytes() {
    assert_eq!(opcodes::OP_PUSHNUM_NEG1, all::OP_PUSHNUM_NEG1.to_u8());
    assert_eq!(opcodes::OP_RESERVED, all::OP_RESERVED.to_u8());
    assert_eq!(opcodes::OP_PUSHNUM_1, all::OP_PUSHNUM_1.to_u8());
    assert_eq!(opcodes::OP_PUSHNUM_2, all::OP_PUSHNUM_2.to_u8());
    assert_eq!(opcodes::OP_PUSHNUM_3, all::OP_PUSHNUM_3.to_u8());
    assert_eq!(opcodes::OP_PUSHNUM_4, all::OP_PUSHNUM_4.to_u8());
    assert_eq!(opcodes::OP_PUSHNUM_5, all::OP_PUSHNUM_5.to_u8());
    assert_eq!(opcodes::OP_PUSHNUM_6, all::OP_PUSHNUM_6.to_u8());
    assert_eq!(opcodes::OP_PUSHNUM_7, all::OP_PUSHNUM_7.to_u8());
    assert_eq!(opcodes::OP_PUSHNUM_8, all::OP_PUSHNUM_8.to_u8());
    assert_eq!(opcodes::OP_PUSHNUM_9, all::OP_PUSHNUM_9.to_u8());
    assert_eq!(opcodes::OP_PUSHNUM_10, all::OP_PUSHNUM_10.to_u8());
    assert_eq!(opcodes::OP_PUSHNUM_11, all::OP_PUSHNUM_11.to_u8());
    assert_eq!(opcodes::OP_PUSHNUM_12, all::OP_PUSHNUM_12.to_u8());
    assert_eq!(opcodes::OP_PUSHNUM_13, all::OP_PUSHNUM_13.to_u8());
    assert_eq!(opcodes::OP_PUSHNUM_14, all::OP_PUSHNUM_14.to_u8());
    assert_eq!(opcodes::OP_PUSHNUM_15, all::OP_PUSHNUM_15.to_u8());
    assert_eq!(opcodes::OP_PUSHNUM_16, all::OP_PUSHNUM_16.to_u8());
    assert_eq!(opcodes::OP_NOP, all::OP_NOP.to_u8());
    assert_eq!(opcodes::OP_VER, all::OP_VER.to_u8());
    assert_eq!(opcodes::OP_IF, all::OP_IF.to_u8());
    assert_eq!(opcodes::OP_NOTIF, all::OP_NOTIF.to_u8());
    assert_eq!(opcodes::OP_VERIF, all::OP_VERIF.to_u8());
    assert_eq!(opcodes::OP_VERNOTIF, all::OP_VERNOTIF.to_u8());
    assert_eq!(opcodes::OP_ELSE, all::OP_ELSE.to_u8());
    assert_eq!(opcodes::OP_ENDIF, all::OP_ENDIF.to_u8());
    assert_eq!(opcodes::OP_VERIFY, all::OP_VERIFY.to_u8());
    assert_eq!(opcodes::OP_RETURN, all::OP_RETURN.to_u8());
    assert_eq!(opcodes::OP_TOALTSTACK, all::OP_TOALTSTACK.to_u8());
    assert_eq!(opcodes::OP_FROMALTSTACK, all::OP_FROMALTSTACK.to_u8());
    assert_eq!(opcodes::OP_2DROP, all::OP_2DROP.to_u8());
    assert_eq!(opcodes::OP_2DUP, all::OP_2DUP.to_u8());
    assert_eq!(opcodes::OP_3DUP, all::OP_3DUP.to_u8());
    assert_eq!(opcodes::OP_2OVER, all::OP_2OVER.to_u8());
    assert_eq!(opcodes::OP_2ROT, all::OP_2ROT.to_u8());
    assert_eq!(opcodes::OP_2SWAP, all::OP_2SWAP.to_u8());
    assert_eq!(opcodes::OP_IFDUP, all::OP_IFDUP.to_u8());
    assert_eq!(opcodes::OP_DEPTH, all::OP_DEPTH.to_u8());
    assert_eq!(opcodes::OP_DROP, all::OP_DROP.to_u8());
    assert_eq!(opcodes::OP_DUP, all::OP_DUP.to_u8());
    assert_eq!(opcodes::OP_NIP, all::OP_NIP.to_u8());
    assert_eq!(opcodes::OP_OVER, all::OP_OVER.to_u8());
    assert_eq!(opcodes::OP_PICK, all::OP_PICK.to_u8());
    assert_eq!(opcodes::OP_ROLL, all::OP_ROLL.to_u8());
    assert_eq!(opcodes::OP_ROT, all::OP_ROT.to_u8());
    assert_eq!(opcodes::OP_SWAP, all::OP_SWAP.to_u8());
    assert_eq!(opcodes::OP_TUCK, all::OP_TUCK.to_u8());
    assert_eq!(opcodes::OP_CAT, all::OP_CAT.to_u8());
    assert_eq!(opcodes::OP_SUBSTR, all::OP_SUBSTR.to_u8());
    assert_eq!(opcodes::OP_LEFT, all::OP_LEFT.to_u8());
    assert_eq!(opcodes::OP_RIGHT, all::OP_RIGHT.to_u8());
    assert_eq!(opcodes::OP_SIZE, all::OP_SIZE.to_u8());
    assert_eq!(opcodes::OP_INVERT, all::OP_INVERT.to_u8());
    assert_eq!(opcodes::OP_AND, all::OP_AND.to_u8());
    assert_eq!(opcodes::OP_OR, all::OP_OR.to_u8());
    assert_eq!(opcodes::OP_XOR, all::OP_XOR.to_u8());
    assert_eq!(opcodes::OP_EQUAL, all::OP_EQUAL.to_u8());
    assert_eq!(opcodes::OP_EQUALVERIFY, all::OP_EQUALVERIFY.to_u8());
    assert_eq!(opcodes::OP_RESERVED1, all::OP_RESERVED1.to_u8());
    assert_eq!(opcodes::OP_RESERVED2, all::OP_RESERVED2.to_u8());
    assert_eq!(opcodes::OP_1ADD, all::OP_1ADD.to_u8());
    assert_eq!(opcodes::OP_1SUB, all::OP_1SUB.to_u8());
    assert_eq!(opcodes::OP_2MUL, all::OP_2MUL.to_u8());
    assert_eq!(opcodes::OP_2DIV, all::OP_2DIV.to_u8());
    assert_eq!(opcodes::OP_NEGATE, all::OP_NEGATE.to_u8());
    assert_eq!(opcodes::OP_ABS, all::OP_ABS.to_u8());
    assert_eq!(opcodes::OP_NOT, all::OP_NOT.to_u8());
    assert_eq!(opcodes::OP_0NOTEQUAL, all::OP_0NOTEQUAL.to_u8());
    assert_eq!(opcodes::OP_ADD, all::OP_ADD.to_u8());
    assert_eq!(opcodes::OP_SUB, all::OP_SUB.to_u8());
    assert_eq!(opcodes::OP_MUL, all::OP_MUL.to_u8());
    assert_eq!(opcodes::OP_DIV, all::OP_DIV.to_u8());
    assert_eq!(opcodes::OP_MOD, all::OP_MOD.to_u8());
    assert_eq!(opcodes::OP_LSHIFT, all::OP_LSHIFT.to_u8());
    assert_eq!(opcodes::OP_RSHIFT, all::OP_RSHIFT.to_u8());
    assert_eq!(opcodes::OP_BOOLAND, all::OP_BOOLAND.to_u8());
    assert_eq!(opcodes::OP_BOOLOR, all::OP_BOOLOR.to_u8());
    assert_eq!(opcodes::OP_NUMEQUAL, all::OP_NUMEQUAL.to_u8());
    assert_eq!(opcodes::OP_NUMEQUALVERIFY, all::OP_NUMEQUALVERIFY.to_u8());
    assert_eq!(opcodes::OP_NUMNOTEQUAL, all::OP_NUMNOTEQUAL.to_u8());
    assert_eq!(opcodes::OP_LESSTHAN, all::OP_LESSTHAN.to_u8());
    assert_eq!(opcodes::OP_GREATERTHAN, all::OP_GREATERTHAN.to_u8());
    assert_eq!(opcodes::OP_LESSTHANOREQUAL, all::OP_LESSTHANOREQUAL.to_u8());
    assert_eq!(opcodes::OP_GREATERTHANOREQUAL, all::OP_GREATERTHANOREQUAL.to_u8());
    assert_eq!(opcodes::OP_MIN, all::OP_MIN.to_u8());
    assert_eq!(opcodes::OP_MAX, all::OP_MAX.to_u8());
    assert_eq!(opcodes::OP_WITHIN, all::OP_WITHIN.to_u8());
    assert_eq!(opcodes::OP_RIPEMD160, all::OP_RIPEMD160.to_u8());
    assert_eq!(opcodes::OP_SHA1, all::OP_SHA1.to_u8());
    assert_eq!(opcodes::OP_SHA256, all::OP_SHA256.to_u8());
    assert_eq!(opcodes::OP_HASH160, all::OP_HASH160.to_u8());
    assert_eq!(opcodes::OP_HASH256, all::OP_HASH256.to_u8());
    assert_eq!(opcodes::OP_CODESEPARATOR, all::OP_CODESEPARATOR.to_u8());
    assert_eq!(opcodes::OP_CHECKSIG, all::OP_CHECKSIG.to_u8());
    assert_eq!(opcodes::OP_CHECKSIGVERIFY, all::OP_CHECKSIGVERIFY.to_u8());
    assert_eq!(opcodes::OP_CHECKMULTISIG, all::OP_CHECKMULTISIG.to_u8());
    assert_eq!(opcodes::OP_CHECKMULTISIGVERIFY, all::OP_CHECKMULTISIGVERIFY.to_u8());
    assert_eq!(opcodes::OP_NOP1, all::OP_NOP1.to_u8());
    assert_eq!(opcodes::OP_CLTV, all::OP_CLTV.to_u8());
    assert_eq!(opcodes::OP_CSV, all::OP_CSV.to_u8());
    assert_eq!(opcodes::OP_NOP4, all::OP_NOP4.to_u8());
    assert_eq!(opcodes::OP_NOP5, all::OP_NOP5.to_u8());
    assert_eq!(opcodes::OP_NOP6, all::OP_NOP6.to_u8());
    assert_eq!(opcodes::OP_NOP7, all::OP_NOP7.to_u8());
    assert_eq!(opcodes::OP_NOP8, all::OP_NOP8.to_u8());
    assert_eq!(opcodes::OP_NOP9, all::OP_NOP9.to_u8());
    assert_eq!(opcodes::OP_NOP10, all::OP_NOP10.to_u8());
    assert_eq!(opcodes::OP_CHECKSIGADD, all::OP_CHECKSIGADD.to_u8());
}

#[test]
fn opcode_to_byte() {
    assert_eq!(opcodes::Opcode(0x93).to_u8(), 0x93);
}
