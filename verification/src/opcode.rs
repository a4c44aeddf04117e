use vstd::prelude::*;

verus! {

/// The Move bytecode instructions, numbered as in the Move binary format.
#[derive(Clone, Copy, PartialEq, Eq, Debug)]
pub enum Opcode {
    Pop,
    Ret,
    BrTrue,
    BrFalse,
    Branch,
    LdU64,
    LdConst,
    LdTrue,
    LdFalse,
    CopyLoc,
    MoveLoc,
    StLoc,
    MutBorrowLoc,
    ImmBorrowLoc,
    MutBorrowField,
    ImmBorrowField,
    Call,
    Pack,
    Unpack,
    ReadRef,
    WriteRef,
    Add,
    Sub,
    Mul,
    Mod,
    Div,
    BitOr,
    BitAnd,
    Xor,
    Or,
    And,
    Not,
    Eq,
    Neq,
    Lt,
    Gt,
    Le,
    Ge,
    Abort,
    Nop,
    Exists,
    MutBorrowGlobal,
    ImmBorrowGlobal,
    MoveFrom,
    MoveTo,
    FreezeRef,
    Shl,
    Shr,
    LdU8,
    LdU128,
    CastU8,
    CastU64,
    CastU128,
    MutBorrowFieldGeneric,
    ImmBorrowFieldGeneric,
    CallGeneric,
    PackGeneric,
    UnpackGeneric,
    ExistsGeneric,
    MutBorrowGlobalGeneric,
    ImmBorrowGlobalGeneric,
    MoveFromGeneric,
    MoveToGeneric,
    VecPack,
    VecLen,
    VecImmBorrow,
    VecMutBorrow,
    VecPushBack,
    VecPopBack,
    VecUnpack,
    VecSwap,
    LdU16,
    LdU32,
    LdU256,
    CastU16,
    CastU32,
    CastU256,
}

impl Opcode {
    /// The number of the instruction in the Move binary format.
    pub open spec fn spec_index(self) -> u64 {
        match self {
            Opcode::Pop => 0x01,
            Opcode::Ret => 0x02,
            Opcode::BrTrue => 0x03,
            Opcode::BrFalse => 0x04,
            Opcode::Branch => 0x05,
            Opcode::LdU64 => 0x06,
            Opcode::LdConst => 0x07,
            Opcode::LdTrue => 0x08,
            Opcode::LdFalse => 0x09,
            Opcode::CopyLoc => 0x0A,
            Opcode::MoveLoc => 0x0B,
            Opcode::StLoc => 0x0C,
            Opcode::MutBorrowLoc => 0x0D,
            Opcode::ImmBorrowLoc => 0x0E,
            Opcode::MutBorrowField => 0x0F,
            Opcode::ImmBorrowField => 0x10,
            Opcode::Call => 0x11,
            Opcode::Pack => 0x12,
            Opcode::Unpack => 0x13,
            Opcode::ReadRef => 0x14,
            Opcode::WriteRef => 0x15,
            Opcode::Add => 0x16,
            Opcode::Sub => 0x17,
            Opcode::Mul => 0x18,
            Opcode::Mod => 0x19,
            Opcode::Div => 0x1A,
            Opcode::BitOr => 0x1B,
            Opcode::BitAnd => 0x1C,
            Opcode::Xor => 0x1D,
            Opcode::Or => 0x1E,
            Opcode::And => 0x1F,
            Opcode::Not => 0x20,
            Opcode::Eq => 0x21,
            Opcode::Neq => 0x22,
            Opcode::Lt => 0x23,
            Opcode::Gt => 0x24,
            Opcode::Le => 0x25,
            Opcode::Ge => 0x26,
            Opcode::Abort => 0x27,
            Opcode::Nop => 0x28,
            Opcode::Exists => 0x29,
            Opcode::MutBorrowGlobal => 0x2A,
            Opcode::ImmBorrowGlobal => 0x2B,
            Opcode::MoveFrom => 0x2C,
            Opcode::MoveTo => 0x2D,
            Opcode::FreezeRef => 0x2E,
            Opcode::Shl => 0x2F,
            Opcode::Shr => 0x30,
            Opcode::LdU8 => 0x31,
            Opcode::LdU128 => 0x32,
            Opcode::CastU8 => 0x33,
            Opcode::CastU64 => 0x34,
            Opcode::CastU128 => 0x35,
            Opcode::MutBorrowFieldGeneric => 0x36,
            Opcode::ImmBorrowFieldGeneric => 0x37,
            Opcode::CallGeneric => 0x38,
            Opcode::PackGeneric => 0x39,
            Opcode::UnpackGeneric => 0x3A,
            Opcode::ExistsGeneric => 0x3B,
            Opcode::MutBorrowGlobalGeneric => 0x3C,
            Opcode::ImmBorrowGlobalGeneric => 0x3D,
            Opcode::MoveFromGeneric => 0x3E,
            Opcode::MoveToGeneric => 0x3F,
            Opcode::VecPack => 0x40,
            Opcode::VecLen => 0x41,
            Opcode::VecImmBorrow => 0x42,
            Opcode::VecMutBorrow => 0x43,
            Opcode::VecPushBack => 0x44,
            Opcode::VecPopBack => 0x45,
            Opcode::VecUnpack => 0x46,
            Opcode::VecSwap => 0x47,
            Opcode::LdU16 => 0x48,
            Opcode::LdU32 => 0x49,
            Opcode::LdU256 => 0x4A,
            Opcode::CastU16 => 0x4B,
            Opcode::CastU32 => 0x4C,
            Opcode::CastU256 => 0x4D,
        }
    }

    pub fn index(&self) -> (r: u64)
        ensures
            r == self.spec_index(),
    {
        match self {
            Opcode::Pop => 0x01,
            Opcode::Ret => 0x02,
            Opcode::BrTrue => 0x03,
            Opcode::BrFalse => 0x04,
            Opcode::Branch => 0x05,
            Opcode::LdU64 => 0x06,
            Opcode::LdConst => 0x07,
            Opcode::LdTrue => 0x08,
            Opcode::LdFalse => 0x09,
            Opcode::CopyLoc => 0x0A,
            Opcode::MoveLoc => 0x0B,
            Opcode::StLoc => 0x0C,
            Opcode::MutBorrowLoc => 0x0D,
            Opcode::ImmBorrowLoc => 0x0E,
            Opcode::MutBorrowField => 0x0F,
            Opcode::ImmBorrowField => 0x10,
            Opcode::Call => 0x11,
            Opcode::Pack => 0x12,
            Opcode::Unpack => 0x13,
            Opcode::ReadRef => 0x14,
            Opcode::WriteRef => 0x15,
            Opcode::Add => 0x16,
            Opcode::Sub => 0x17,
            Opcode::Mul => 0x18,
            Opcode::Mod => 0x19,
            Opcode::Div => 0x1A,
            Opcode::BitOr => 0x1B,
            Opcode::BitAnd => 0x1C,
            Opcode::Xor => 0x1D,
            Opcode::Or => 0x1E,
            Opcode::And => 0x1F,
            Opcode::Not => 0x20,
            Opcode::Eq => 0x21,
            Opcode::Neq => 0x22,
            Opcode::Lt => 0x23,
            Opcode::Gt => 0x24,
            Opcode::Le => 0x25,
            Opcode::Ge => 0x26,
            Opcode::Abort => 0x27,
            Opcode::Nop => 0x28,
            Opcode::Exists => 0x29,
            Opcode::MutBorrowGlobal => 0x2A,
            Opcode::ImmBorrowGlobal => 0x2B,
            Opcode::MoveFrom => 0x2C,
            Opcode::MoveTo => 0x2D,
            Opcode::FreezeRef => 0x2E,
            Opcode::Shl => 0x2F,
            Opcode::Shr => 0x30,
            Opcode::LdU8 => 0x31,
            Opcode::LdU128 => 0x32,
            Opcode::CastU8 => 0x33,
            Opcode::CastU64 => 0x34,
            Opcode::CastU128 => 0x35,
            Opcode::MutBorrowFieldGeneric => 0x36,
            Opcode::ImmBorrowFieldGeneric => 0x37,
            Opcode::CallGeneric => 0x38,
            Opcode::PackGeneric => 0x39,
            Opcode::UnpackGeneric => 0x3A,
            Opcode::ExistsGeneric => 0x3B,
            Opcode::MutBorrowGlobalGeneric => 0x3C,
            Opcode::ImmBorrowGlobalGeneric => 0x3D,
            Opcode::MoveFromGeneric => 0x3E,
            Opcode::MoveToGeneric => 0x3F,
            Opcode::VecPack => 0x40,
            Opcode::VecLen => 0x41,
            Opcode::VecImmBorrow => 0x42,
            Opcode::VecMutBorrow => 0x43,
            Opcode::VecPushBack => 0x44,
            Opcode::VecPopBack => 0x45,
            Opcode::VecUnpack => 0x46,
            Opcode::VecSwap => 0x47,
            Opcode::LdU16 => 0x48,
            Opcode::LdU32 => 0x49,
            Opcode::LdU256 => 0x4A,
            Opcode::CastU16 => 0x4B,
            Opcode::CastU32 => 0x4C,
            Opcode::CastU256 => 0x4D,
        }
    }
}

} // verus!
