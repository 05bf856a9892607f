//! The names of the instructions.

use vstd::prelude::*;

verus! {

/// The mnemonic of the instruction with the opcode `op`. The opcodes from
/// `0xcb` to `0xfd` have none.
pub open spec fn mnemonic_text(op: u8) -> Option<Seq<char>> {
    match op {
        0x00 => Some("nop"@),
        0x01 => Some("aconst_null"@),
        0x02 => Some("iconst_m1"@),
        0x03 => Some("iconst_0"@),
        0x04 => Some("iconst_1"@),
        0x05 => Some("iconst_2"@),
        0x06 => Some("iconst_3"@),
        0x07 => Some("iconst_4"@),
        0x08 => Some("iconst_5"@),
        0x09 => Some("lconst_0"@),
        0x0a => Some("lconst_1"@),
        0x0b => Some("fconst_0"@),
        0x0c => Some("fconst_1"@),
        0x0d => Some("fconst_2"@),
        0x0e => Some("dconst_0"@),
        0x0f => Some("dconst_1"@),
        0x10 => Some("bipush"@),
        0x11 => Some("sipush"@),
        0x12 => Some("ldc"@),
        0x13 => Some("ldc_w"@),
        0x14 => Some("ldc2_w"@),
        0x15 => Some("iload"@),
        0x16 => Some("lload"@),
        0x17 => Some("fload"@),
        0x18 => Some("dload"@),
        0x19 => Some("aload"@),
        0x1a => Some("iload_0"@),
        0x1b => Some("iload_1"@),
        0x1c => Some("iload_2"@),
        0x1d => Some("iload_3"@),
        0x1e => Some("lload_0"@),
        0x1f => Some("lload_1"@),
        0x20 => Some("lload_2"@),
        0x21 => Some("lload_3"@),
        0x22 => Some("fload_0"@),
        0x23 => Some("fload_1"@),
        0x24 => Some("fload_2"@),
        0x25 => Some("fload_3"@),
        0x26 => Some("dload_0"@),
        0x27 => Some("dload_1"@),
        0x28 => Some("dload_2"@),
        0x29 => Some("dload_3"@),
        0x2a => Some("aload_0"@),
        0x2b => Some("aload_1"@),
        0x2c => Some("aload_2"@),
        0x2d => Some("aload_3"@),
        0x2e => Some("iaload"@),
        0x2f => Some("laload"@),
        0x30 => Some("faload"@),
        0x31 => Some("daload"@),
        0x32 => Some("aaload"@),
        0x33 => Some("baload"@),
        0x34 => Some("caload"@),
        0x35 => Some("saload"@),
        0x36 => Some("istore"@),
        0x37 => Some("lstore"@),
        0x38 => Some("fstore"@),
        0x39 => Some("dstore"@),
        0x3a => Some("astore"@),
        0x3b => Some("istore_0"@),
        0x3c => Some("istore_1"@),
        0x3d => Some("istore_2"@),
        0x3e => Some("istore_3"@),
        0x3f => Some("lstore_0"@),
        0x40 => Some("lstore_1"@),
        0x41 => Some("lstore_2"@),
        0x42 => Some("lstore_3"@),
        0x43 => Some("fstore_0"@),
        0x44 => Some("fstore_1"@),
        0x45 => Some("fstore_2"@),
        0x46 => Some("fstore_3"@),
        0x47 => Some("dstore_0"@),
        0x48 => Some("dstore_1"@),
        0x49 => Some("dstore_2"@),
        0x4a => Some("dstore_3"@),
        0x4b => Some("astore_0"@),
        0x4c => Some("astore_1"@),
        0x4d => Some("astore_2"@),
        0x4e => Some("astore_3"@),
        0x4f => Some("iastore"@),
        0x50 => Some("lastore"@),
        0x51 => Some("fastore"@),
        0x52 => Some("dastore"@),
        0x53 => Some("aastore"@),
        0x54 => Some("bastore"@),
        0x55 => Some("castore"@),
        0x56 => Some("sastore"@),
        0x57 => Some("pop"@),
        0x58 => Some("pop2"@),
        0x59 => Some("dup"@),
        0x5a => Some("dup_x1"@),
        0x5b => Some("dup_x2"@),
        0x5c => Some("dup2"@),
        0x5d => Some("dup2_x1"@),
        0x5e => Some("dup2_x2"@),
        0x5f => Some("swap"@),
        0x60 => Some("iadd"@),
        0x61 => Some("ladd"@),
        0x62 => Some("fadd"@),
        0x63 => Some("dadd"@),
        0x64 => Some("isub"@),
        0x65 => Some("lsub"@),
        0x66 => Some("fsub"@),
        0x67 => Some("dsub"@),
        0x68 => Some("imul"@),
        0x69 => Some("lmul"@),
        0x6a => Some("fmul"@),
        0x6b => Some("dmul"@),
        0x6c => Some("idiv"@),
        0x6d => Some("ldiv"@),
        0x6e => Some("fdiv"@),
        0x6f => Some("ddiv"@),
        0x70 => Some("irem"@),
        0x71 => Some("lrem"@),
        0x72 => Some("frem"@),
        0x73 => Some("drem"@),
        0x74 => Some("ineg"@),
        0x75 => Some("lneg"@),
        0x76 => Some("fneg"@),
        0x77 => Some("dneg"@),
        0x78 => Some("ishl"@),
        0x79 => Some("lshl"@),
        0x7a => Some("ishr"@),
        0x7b => Some("lshr"@),
        0x7c => Some("iushr"@),
        0x7d => Some("lushr"@),
        0x7e => Some("iand"@),
        0x7f => Some("land"@),
        0x80 => Some("ior"@),
        0x81 => Some("lor"@),
        0x82 => Some("ixor"@),
        0x83 => Some("lxor"@),
        0x84 => Some("iinc"@),
        0x85 => Some("i2l"@),
        0x86 => Some("i2f"@),
        0x87 => Some("i2d"@),
        0x88 => Some("l2i"@),
        0x89 => Some("l2f"@),
        0x8a => Some("l2d"@),
        0x8b => Some("f2i"@),
        0x8c => Some("f2l"@),
        0x8d => Some("f2d"@),
        0x8e => Some("d2i"@),
        0x8f => Some("d2l"@),
        0x90 => Some("d2f"@),
        0x91 => Some("i2b"@),
        0x92 => Some("i2c"@),
        0x93 => Some("i2s"@),
        0x94 => Some("lcmp"@),
        0x95 => Some("fcmpl"@),
        0x96 => Some("fcmpg"@),
        0x97 => Some("dcmpl"@),
        0x98 => Some("dcmpg"@),
        0x99 => Some("ifeq"@),
        0x9a => Some("ifne"@),
        0x9b => Some("iflt"@),
        0x9c => Some("ifge"@),
        0x9d => Some("ifgt"@),
        0x9e => Some("ifle"@),
        0x9f => Some("if_icmpeq"@),
        0xa0 => Some("if_icmpne"@),
        0xa1 => Some("if_icmplt"@),
        0xa2 => Some("if_icmpge"@),
        0xa3 => Some("if_icmpgt"@),
        0xa4 => Some("if_icmple"@),
        0xa5 => Some("if_acmpeq"@),
        0xa6 => Some("if_acmpne"@),
        0xa7 => Some("goto"@),
        0xa8 => Some("jsr"@),
        0xa9 => Some("ret"@),
        0xaa => Some("tableswitch"@),
        0xab => Some("lookupswitch"@),
        0xac => Some("ireturn"@),
        0xad => Some("lreturn"@),
        0xae => Some("freturn"@),
        0xaf => Some("dreturn"@),
        0xb0 => Some("areturn"@),
        0xb1 => Some("return"@),
        0xb2 => Some("getstatic"@),
        0xb3 => Some("putstatic"@),
        0xb4 => Some("getfield"@),
        0xb5 => Some("putfield"@),
        0xb6 => Some("invokevirtual"@),
        0xb7 => Some("invokespecial"@),
        0xb8 => Some("invokestatic"@),
        0xb9 => Some("invokeinterface"@),
        0xba => Some("invokedynamic"@),
        0xbb => Some("new"@),
        0xbc => Some("newarray"@),
        0xbd => Some("anewarray"@),
        0xbe => Some("arraylength"@),
        0xbf => Some("athrow"@),
        0xc0 => Some("checkcast"@),
        0xc1 => Some("instanceof"@),
        0xc2 => Some("monitorenter"@),
        0xc3 => Some("monitorexit"@),
        0xc4 => Some("wide"@),
        0xc5 => Some("multianewarray"@),
        0xc6 => Some("ifnull"@),
        0xc7 => Some("ifnonnull"@),
        0xc8 => Some("goto_w"@),
        0xc9 => Some("jsr_w"@),
        0xca => Some("breakpoint"@),
        0xfe => Some("impdep1"@),
        0xff => Some("impdep2"@),
        _ => None,
    }
}

/// The mnemonic of the instruction with the opcode `op`. The opcodes from
/// `0xcb` to `0xfd` have none.
pub fn mnemonic(op: u8) -> (res: Option<&'static str>)
    ensures
        match mnemonic_text(op) {
            Some(text) => res matches Some(name) && name@ == text,
            None => res is None,
        },
{
    match op {
        0x00 => Some("nop"),
        0x01 => Some("aconst_null"),
        0x02 => Some("iconst_m1"),
        0x03 => Some("iconst_0"),
        0x04 => Some("iconst_1"),
        0x05 => Some("iconst_2"),
        0x06 => Some("iconst_3"),
        0x07 => Some("iconst_4"),
        0x08 => Some("iconst_5"),
        0x09 => Some("lconst_0"),
        0x0a => Some("lconst_1"),
        0x0b => Some("fconst_0"),
        0x0c => Some("fconst_1"),
        0x0d => Some("fconst_2"),
        0x0e => Some("dconst_0"),
        0x0f => Some("dconst_1"),
        0x10 => Some("bipush"),
        0x11 => Some("sipush"),
        0x12 => Some("ldc"),
        0x13 => Some("ldc_w"),
        0x14 => Some("ldc2_w"),
        0x15 => Some("iload"),
        0x16 => Some("lload"),
        0x17 => Some("fload"),
        0x18 => Some("dload"),
        0x19 => Some("aload"),
        0x1a => Some("iload_0"),
        0x1b => Some("iload_1"),
        0x1c => Some("iload_2"),
        0x1d => Some("iload_3"),
        0x1e => Some("lload_0"),
        0x1f => Some("lload_1"),
        0x20 => Some("lload_2"),
        0x21 => Some("lload_3"),
        0x22 => Some("fload_0"),
        0x23 => Some("fload_1"),
        0x24 => Some("fload_2"),
        0x25 => Some("fload_3"),
        0x26 => Some("dload_0"),
        0x27 => Some("dload_1"),
        0x28 => Some("dload_2"),
        0x29 => Some("dload_3"),
        0x2a => Some("aload_0"),
        0x2b => Some("aload_1"),
        0x2c => Some("aload_2"),
        0x2d => Some("aload_3"),
        0x2e => Some("iaload"),
        0x2f => Some("laload"),
        0x30 => Some("faload"),
        0x31 => Some("daload"),
        0x32 => Some("aaload"),
        0x33 => Some("baload"),
        0x34 => Some("caload"),
        0x35 => Some("saload"),
        0x36 => Some("istore"),
        0x37 => Some("lstore"),
        0x38 => Some("fstore"),
        0x39 => Some("dstore"),
        0x3a => Some("astore"),
        0x3b => Some("istore_0"),
        0x3c => Some("istore_1"),
        0x3d => Some("istore_2"),
        0x3e => Some("istore_3"),
        0x3f => Some("lstore_0"),
        0x40 => Some("lstore_1"),
        0x41 => Some("lstore_2"),
        0x42 => Some("lstore_3"),
        0x43 => Some("fstore_0"),
        0x44 => Some("fstore_1"),
        0x45 => Some("fstore_2"),
        0x46 => Some("fstore_3"),
        0x47 => Some("dstore_0"),
        0x48 => Some("dstore_1"),
        0x49 => Some("dstore_2"),
        0x4a => Some("dstore_3"),
        0x4b => Some("astore_0"),
        0x4c => Some("astore_1"),
        0x4d => Some("astore_2"),
        0x4e => Some("astore_3"),
        0x4f => Some("iastore"),
        0x50 => Some("lastore"),
        0x51 => Some("fastore"),
        0x52 => Some("dastore"),
        0x53 => Some("aastore"),
        0x54 => Some("bastore"),
        0x55 => Some("castore"),
        0x56 => Some("sastore"),
        0x57 => Some("pop"),
        0x58 => Some("pop2"),
        0x59 => Some("dup"),
        0x5a => Some("dup_x1"),
        0x5b => Some("dup_x2"),
        0x5c => Some("dup2"),
        0x5d => Some("dup2_x1"),
        0x5e => Some("dup2_x2"),
        0x5f => Some("swap"),
        0x60 => Some("iadd"),
        0x61 => Some("ladd"),
        0x62 => Some("fadd"),
        0x63 => Some("dadd"),
        0x64 => Some("isub"),
        0x65 => Some("lsub"),
        0x66 => Some("fsub"),
        0x67 => Some("dsub"),
        0x68 => Some("imul"),
        0x69 => Some("lmul"),
        0x6a => Some("fmul"),
        0x6b => Some("dmul"),
        0x6c => Some("idiv"),
        0x6d => Some("ldiv"),
        0x6e => Some("fdiv"),
        0x6f => Some("ddiv"),
        0x70 => Some("irem"),
        0x71 => Some("lrem"),
        0x72 => Some("frem"),
        0x73 => Some("drem"),
        0x74 => Some("ineg"),
        0x75 => Some("lneg"),
        0x76 => Some("fneg"),
        0x77 => Some("dneg"),
        0x78 => Some("ishl"),
        0x79 => Some("lshl"),
        0x7a => Some("ishr"),
        0x7b => Some("lshr"),
        0x7c => Some("iushr"),
        0x7d => Some("lushr"),
        0x7e => Some("iand"),
        0x7f => Some("land"),
        0x80 => Some("ior"),
        0x81 => Some("lor"),
        0x82 => Some("ixor"),
        0x83 => Some("lxor"),
        0x84 => Some("iinc"),
        0x85 => Some("i2l"),
        0x86 => Some("i2f"),
        0x87 => Some("i2d"),
        0x88 => Some("l2i"),
        0x89 => Some("l2f"),
        0x8a => Some("l2d"),
        0x8b => Some("f2i"),
        0x8c => Some("f2l"),
        0x8d => Some("f2d"),
        0x8e => Some("d2i"),
        0x8f => Some("d2l"),
        0x90 => Some("d2f"),
        0x91 => Some("i2b"),
        0x92 => Some("i2c"),
        0x93 => Some("i2s"),
        0x94 => Some("lcmp"),
        0x95 => Some("fcmpl"),
        0x96 => Some("fcmpg"),
        0x97 => Some("dcmpl"),
        0x98 => Some("dcmpg"),
        0x99 => Some("ifeq"),
        0x9a => Some("ifne"),
        0x9b => Some("iflt"),
        0x9c => Some("ifge"),
        0x9d => Some("ifgt"),
        0x9e => Some("ifle"),
        0x9f => Some("if_icmpeq"),
        0xa0 => Some("if_icmpne"),
        0xa1 => Some("if_icmplt"),
        0xa2 => Some("if_icmpge"),
        0xa3 => Some("if_icmpgt"),
        0xa4 => Some("if_icmple"),
        0xa5 => Some("if_acmpeq"),
        0xa6 => Some("if_acmpne"),
        0xa7 => Some("goto"),
        0xa8 => Some("jsr"),
        0xa9 => Some("ret"),
        0xaa => Some("tableswitch"),
        0xab => Some("lookupswitch"),
        0xac => Some("ireturn"),
        0xad => Some("lreturn"),
        0xae => Some("freturn"),
        0xaf => Some("dreturn"),
        0xb0 => Some("areturn"),
        0xb1 => Some("return"),
        0xb2 => Some("getstatic"),
        0xb3 => Some("putstatic"),
        0xb4 => Some("getfield"),
        0xb5 => Some("putfield"),
        0xb6 => Some("invokevirtual"),
        0xb7 => Some("invokespecial"),
        0xb8 => Some("invokestatic"),
        0xb9 => Some("invokeinterface"),
        0xba => Some("invokedynamic"),
        0xbb => Some("new"),
        0xbc => Some("newarray"),
        0xbd => Some("anewarray"),
        0xbe => Some("arraylength"),
        0xbf => Some("athrow"),
        0xc0 => Some("checkcast"),
        0xc1 => Some("instanceof"),
        0xc2 => Some("monitorenter"),
        0xc3 => Some("monitorexit"),
        0xc4 => Some("wide"),
        0xc5 => Some("multianewarray"),
        0xc6 => Some("ifnull"),
        0xc7 => Some("ifnonnull"),
        0xc8 => Some("goto_w"),
        0xc9 => Some("jsr_w"),
        0xca => Some("breakpoint"),
        0xfe => Some("impdep1"),
        0xff => Some("impdep2"),
        _ => None,
    }
}

} // verus!
