//! The opcode bytes of the instruction set, by group.

use vstd::prelude::*;

verus! {

// Constants
pub const NOP: u8 = 0x00;

pub const ACONST_NULL: u8 = 0x01;

pub const ICONST_M1: u8 = 0x02;

pub const ICONST_0: u8 = 0x03;

pub const ICONST_1: u8 = 0x04;

pub const ICONST_2: u8 = 0x05;

pub const ICONST_3: u8 = 0x06;

pub const ICONST_4: u8 = 0x07;

pub const ICONST_5: u8 = 0x08;

pub const LCONST_0: u8 = 0x09;

pub const LCONST_1: u8 = 0x0a;

pub const FCONST_0: u8 = 0x0b;

pub const FCONST_1: u8 = 0x0c;

pub const FCONST_2: u8 = 0x0d;

pub const DCONST_0: u8 = 0x0e;

pub const DCONST_1: u8 = 0x0f;

pub const BIPUSH: u8 = 0x10;

pub const SIPUSH: u8 = 0x11;

pub const LDC: u8 = 0x12;

pub const LDC_W: u8 = 0x13;

pub const LDC2_W: u8 = 0x14;

// Stack
pub const POP: u8 = 0x57;

pub const POP2: u8 = 0x58;

pub const DUP: u8 = 0x59;

pub const DUP_X1: u8 = 0x5a;

pub const DUP_X2: u8 = 0x5b;

pub const DUP2: u8 = 0x5c;

pub const DUP2_X1: u8 = 0x5d;

pub const DUP2_X2: u8 = 0x5e;

pub const SWAP: u8 = 0x5f;

// Math
pub const IADD: u8 = 0x60;

pub const LADD: u8 = 0x61;

pub const ISUB: u8 = 0x64;

pub const LSUB: u8 = 0x65;

pub const IMUL: u8 = 0x68;

pub const LMUL: u8 = 0x69;

pub const INEG: u8 = 0x74;

pub const LNEG: u8 = 0x75;

// Comparison
pub const LCMP: u8 = 0x94;

// References
pub const GETSTATIC: u8 = 0xb2;

pub const PUTSTATIC: u8 = 0xb3;

pub const GETFIELD: u8 = 0xb4;

pub const PUTFIELD: u8 = 0xb5;

pub const INVOKEVIRTUAL: u8 = 0xb6;

pub const INVOLESPECIAL: u8 = 0xb7;

pub const INVOKESTATIC: u8 = 0xb8;

pub const INVOKEINTERFACE: u8 = 0xb9;

pub const INVOKEDDYNAMIC: u8 = 0xba;

pub const NEW: u8 = 0xbb;

pub const NEWARRAY: u8 = 0xbc;

pub const ANEWARRAY: u8 = 0xbd;

pub const ARRAYLENGTH: u8 = 0xbe;

pub const ATHROW: u8 = 0xbf;

pub const CHECKCAST: u8 = 0xc0;

pub const INSTANCEOF: u8 = 0xc1;

pub const MONITORENTER: u8 = 0xc2;

pub const MONITOREXIT: u8 = 0xc3;

// Control
pub const GOTO: u8 = 0xa7;

pub const JSR: u8 = 0xa8;

pub const RET: u8 = 0xa9;

pub const TABLESWITCH: u8 = 0xaa;

pub const LOOKUPSWITCH: u8 = 0xab;

pub const IRETURN: u8 = 0xac;

pub const LRETURN: u8 = 0xad;

pub const FRETURN: u8 = 0xae;

pub const DRETURN: u8 = 0xaf;

pub const ARETURN: u8 = 0xb0;

pub const RETURN: u8 = 0xb1;

// Extended
pub const WIDE: u8 = 0xc4;

pub const MULTIANEWARRAY: u8 = 0xc5;

pub const IFNULL: u8 = 0xc6;

pub const IFNONNULL: u8 = 0xc7;

pub const GOTO_W: u8 = 0xc8;

pub const JSR_W: u8 = 0xc9;

// Reserved
pub const BREAKPOINT: u8 = 0xca;

pub const IMPDEP1: u8 = 0xfe;

pub const IMPDEP2: u8 = 0xff;

} // verus!
