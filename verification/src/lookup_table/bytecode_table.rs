use vstd::prelude::*;
use crate::field::Fe;
use crate::lookup_table::utils::{SignatureToken, convert_u256_to_fe_pair, get_num_bytes, num_bytes_of};
use crate::opcode::Opcode;
use crate::u256::U256;

verus! {

/// A Move instruction with its operands: locals are `u8`, code offsets and
/// pool or table indexes `u16`.
#[derive(Clone, Copy, Debug)]
pub enum Bytecode {
    CastU8,
    CastU16,
    CastU32,
    CastU64,
    CastU128,
    CastU256,
    Pop,
    Ret,
    LdTrue,
    LdFalse,
    Eq,
    Neq,
    Le,
    Lt,
    Ge,
    Gt,
    BitAnd,
    BitOr,
    Xor,
    And,
    Or,
    Not,
    ReadRef,
    WriteRef,
    FreezeRef,
    Abort,
    Nop,
    Add,
    Mul,
    Sub,
    Div,
    Mod,
    Shl,
    Shr,
    LdU8(u8),
    LdU16(u16),
    LdU32(u32),
    LdU64(u64),
    LdU128(u128),
    LdU256(U256),
    CopyLoc(u8),
    MoveLoc(u8),
    StLoc(u8),
    MutBorrowLoc(u8),
    ImmBorrowLoc(u8),
    LdConst(u16),
    Branch(u16),
    BrTrue(u16),
    BrFalse(u16),
    Call(u16),
    CallGeneric(u16),
    Pack(u16),
    Unpack(u16),
    MoveTo(u16),
    MoveFrom(u16),
    Exists(u16),
    ImmBorrowGlobal(u16),
    MutBorrowGlobal(u16),
    PackGeneric(u16),
    UnpackGeneric(u16),
    MoveToGeneric(u16),
    MoveFromGeneric(u16),
    ExistsGeneric(u16),
    ImmBorrowGlobalGeneric(u16),
    MutBorrowGlobalGeneric(u16),
    ImmBorrowField(u16),
    MutBorrowField(u16),
    ImmBorrowFieldGeneric(u16),
    MutBorrowFieldGeneric(u16),
    VecImmBorrow(u16),
    VecMutBorrow(u16),
    VecLen(u16),
    VecPopBack(u16),
    VecPushBack(u16),
    VecSwap(u16),
    VecPack(u16, u64),
    VecUnpack(u16, u64),
}

/// The opcode of an instruction (`Opcode::from`).
pub open spec fn spec_bytecode_opcode(b: Bytecode) -> Opcode {
    match b {
        Bytecode::CastU8 => Opcode::CastU8,
        Bytecode::CastU16 => Opcode::CastU16,
        Bytecode::CastU32 => Opcode::CastU32,
        Bytecode::CastU64 => Opcode::CastU64,
        Bytecode::CastU128 => Opcode::CastU128,
        Bytecode::CastU256 => Opcode::CastU256,
        Bytecode::Pop => Opcode::Pop,
        Bytecode::Ret => Opcode::Ret,
        Bytecode::LdTrue => Opcode::LdTrue,
        Bytecode::LdFalse => Opcode::LdFalse,
        Bytecode::Eq => Opcode::Eq,
        Bytecode::Neq => Opcode::Neq,
        Bytecode::Le => Opcode::Le,
        Bytecode::Lt => Opcode::Lt,
        Bytecode::Ge => Opcode::Ge,
        Bytecode::Gt => Opcode::Gt,
        Bytecode::BitAnd => Opcode::BitAnd,
        Bytecode::BitOr => Opcode::BitOr,
        Bytecode::Xor => Opcode::Xor,
        Bytecode::And => Opcode::And,
        Bytecode::Or => Opcode::Or,
        Bytecode::Not => Opcode::Not,
        Bytecode::ReadRef => Opcode::ReadRef,
        Bytecode::WriteRef => Opcode::WriteRef,
        Bytecode::FreezeRef => Opcode::FreezeRef,
        Bytecode::Abort => Opcode::Abort,
        Bytecode::Nop => Opcode::Nop,
        Bytecode::Add => Opcode::Add,
        Bytecode::Mul => Opcode::Mul,
        Bytecode::Sub => Opcode::Sub,
        Bytecode::Div => Opcode::Div,
        Bytecode::Mod => Opcode::Mod,
        Bytecode::Shl => Opcode::Shl,
        Bytecode::Shr => Opcode::Shr,
        Bytecode::LdU8(_) => Opcode::LdU8,
        Bytecode::LdU16(_) => Opcode::LdU16,
        Bytecode::LdU32(_) => Opcode::LdU32,
        Bytecode::LdU64(_) => Opcode::LdU64,
        Bytecode::LdU128(_) => Opcode::LdU128,
        Bytecode::LdU256(_) => Opcode::LdU256,
        Bytecode::CopyLoc(_) => Opcode::CopyLoc,
        Bytecode::MoveLoc(_) => Opcode::MoveLoc,
        Bytecode::StLoc(_) => Opcode::StLoc,
        Bytecode::MutBorrowLoc(_) => Opcode::MutBorrowLoc,
        Bytecode::ImmBorrowLoc(_) => Opcode::ImmBorrowLoc,
        Bytecode::LdConst(_) => Opcode::LdConst,
        Bytecode::Branch(_) => Opcode::Branch,
        Bytecode::BrTrue(_) => Opcode::BrTrue,
        Bytecode::BrFalse(_) => Opcode::BrFalse,
        Bytecode::Call(_) => Opcode::Call,
        Bytecode::CallGeneric(_) => Opcode::CallGeneric,
        Bytecode::Pack(_) => Opcode::Pack,
        Bytecode::Unpack(_) => Opcode::Unpack,
        Bytecode::MoveTo(_) => Opcode::MoveTo,
        Bytecode::MoveFrom(_) => Opcode::MoveFrom,
        Bytecode::Exists(_) => Opcode::Exists,
        Bytecode::ImmBorrowGlobal(_) => Opcode::ImmBorrowGlobal,
        Bytecode::MutBorrowGlobal(_) => Opcode::MutBorrowGlobal,
        Bytecode::PackGeneric(_) => Opcode::PackGeneric,
        Bytecode::UnpackGeneric(_) => Opcode::UnpackGeneric,
        Bytecode::MoveToGeneric(_) => Opcode::MoveToGeneric,
        Bytecode::MoveFromGeneric(_) => Opcode::MoveFromGeneric,
        Bytecode::ExistsGeneric(_) => Opcode::ExistsGeneric,
        Bytecode::ImmBorrowGlobalGeneric(_) => Opcode::ImmBorrowGlobalGeneric,
        Bytecode::MutBorrowGlobalGeneric(_) => Opcode::MutBorrowGlobalGeneric,
        Bytecode::ImmBorrowField(_) => Opcode::ImmBorrowField,
        Bytecode::MutBorrowField(_) => Opcode::MutBorrowField,
        Bytecode::ImmBorrowFieldGeneric(_) => Opcode::ImmBorrowFieldGeneric,
        Bytecode::MutBorrowFieldGeneric(_) => Opcode::MutBorrowFieldGeneric,
        Bytecode::VecImmBorrow(_) => Opcode::VecImmBorrow,
        Bytecode::VecMutBorrow(_) => Opcode::VecMutBorrow,
        Bytecode::VecLen(_) => Opcode::VecLen,
        Bytecode::VecPopBack(_) => Opcode::VecPopBack,
        Bytecode::VecPushBack(_) => Opcode::VecPushBack,
        Bytecode::VecSwap(_) => Opcode::VecSwap,
        Bytecode::VecPack(_, _) => Opcode::VecPack,
        Bytecode::VecUnpack(_, _) => Opcode::VecUnpack,
    }
}

/// Whether the instruction is an arithmetic one, whose first operand in the
/// table is the width of its result type.
pub open spec fn is_arith(b: Bytecode) -> bool {
    match b {
        Bytecode::Add | Bytecode::Mul | Bytecode::Sub | Bytecode::Div | Bytecode::Mod | Bytecode::Shl | Bytecode::Shr => true,
        _ => false,
    }
}

/// The two operands of an instruction in the bytecode table.
pub open spec fn bytecode_operands(b: Bytecode, ty_out: Seq<SignatureToken>) -> (nat, nat) {
    match b {
        Bytecode::Add | Bytecode::Mul | Bytecode::Sub | Bytecode::Div | Bytecode::Mod | Bytecode::Shl | Bytecode::Shr => (num_bytes_of(ty_out[0])->Some_0, 0),
        Bytecode::LdU8(x) => (x as nat, 0),
        Bytecode::LdU16(x) => (x as nat, 0),
        Bytecode::LdU32(x) => (x as nat, 0),
        Bytecode::LdU64(x) => (x as nat, 0),
        Bytecode::LdU128(x) => (x as nat, 0),
        Bytecode::LdU256(x) => (x.lo as nat, x.hi as nat),
        Bytecode::CopyLoc(i) | Bytecode::MoveLoc(i) | Bytecode::StLoc(i) | Bytecode::MutBorrowLoc(i) | Bytecode::ImmBorrowLoc(i) => (i as nat, 0),
        Bytecode::LdConst(i) | Bytecode::Branch(i) | Bytecode::BrTrue(i) | Bytecode::BrFalse(i) | Bytecode::Call(i) | Bytecode::CallGeneric(i) | Bytecode::Pack(i) | Bytecode::Unpack(i) | Bytecode::MoveTo(i) | Bytecode::MoveFrom(i) | Bytecode::Exists(i) | Bytecode::ImmBorrowGlobal(i) | Bytecode::MutBorrowGlobal(i) | Bytecode::PackGeneric(i) | Bytecode::UnpackGeneric(i) | Bytecode::MoveToGeneric(i) | Bytecode::MoveFromGeneric(i) | Bytecode::ExistsGeneric(i) | Bytecode::ImmBorrowGlobalGeneric(i) | Bytecode::MutBorrowGlobalGeneric(i) | Bytecode::ImmBorrowField(i) | Bytecode::MutBorrowField(i) | Bytecode::ImmBorrowFieldGeneric(i) | Bytecode::MutBorrowFieldGeneric(i) | Bytecode::VecImmBorrow(i) | Bytecode::VecMutBorrow(i) | Bytecode::VecLen(i) | Bytecode::VecPopBack(i) | Bytecode::VecPushBack(i) | Bytecode::VecSwap(i) => (i as nat, 0),
        Bytecode::VecPack(i, n) | Bytecode::VecUnpack(i, n) => (i as nat, n as nat),
        _ => (0, 0),
    }
}

impl Bytecode {
    pub fn opcode(&self) -> (r: Opcode)
        ensures
            r == spec_bytecode_opcode(*self),
    {
        match self {
            Bytecode::CastU8 => Opcode::CastU8,
            Bytecode::CastU16 => Opcode::CastU16,
            Bytecode::CastU32 => Opcode::CastU32,
            Bytecode::CastU64 => Opcode::CastU64,
            Bytecode::CastU128 => Opcode::CastU128,
            Bytecode::CastU256 => Opcode::CastU256,
            Bytecode::Pop => Opcode::Pop,
            Bytecode::Ret => Opcode::Ret,
            Bytecode::LdTrue => Opcode::LdTrue,
            Bytecode::LdFalse => Opcode::LdFalse,
            Bytecode::Eq => Opcode::Eq,
            Bytecode::Neq => Opcode::Neq,
            Bytecode::Le => Opcode::Le,
            Bytecode::Lt => Opcode::Lt,
            Bytecode::Ge => Opcode::Ge,
            Bytecode::Gt => Opcode::Gt,
            Bytecode::BitAnd => Opcode::BitAnd,
            Bytecode::BitOr => Opcode::BitOr,
            Bytecode::Xor => Opcode::Xor,
            Bytecode::And => Opcode::And,
            Bytecode::Or => Opcode::Or,
            Bytecode::Not => Opcode::Not,
            Bytecode::ReadRef => Opcode::ReadRef,
            Bytecode::WriteRef => Opcode::WriteRef,
            Bytecode::FreezeRef => Opcode::FreezeRef,
            Bytecode::Abort => Opcode::Abort,
            Bytecode::Nop => Opcode::Nop,
            Bytecode::Add => Opcode::Add,
            Bytecode::Mul => Opcode::Mul,
            Bytecode::Sub => Opcode::Sub,
            Bytecode::Div => Opcode::Div,
            Bytecode::Mod => Opcode::Mod,
            Bytecode::Shl => Opcode::Shl,
            Bytecode::Shr => Opcode::Shr,
            Bytecode::LdU8(_) => Opcode::LdU8,
            Bytecode::LdU16(_) => Opcode::LdU16,
            Bytecode::LdU32(_) => Opcode::LdU32,
            Bytecode::LdU64(_) => Opcode::LdU64,
            Bytecode::LdU128(_) => Opcode::LdU128,
            Bytecode::LdU256(_) => Opcode::LdU256,
            Bytecode::CopyLoc(_) => Opcode::CopyLoc,
            Bytecode::MoveLoc(_) => Opcode::MoveLoc,
            Bytecode::StLoc(_) => Opcode::StLoc,
            Bytecode::MutBorrowLoc(_) => Opcode::MutBorrowLoc,
            Bytecode::ImmBorrowLoc(_) => Opcode::ImmBorrowLoc,
            Bytecode::LdConst(_) => Opcode::LdConst,
            Bytecode::Branch(_) => Opcode::Branch,
            Bytecode::BrTrue(_) => Opcode::BrTrue,
            Bytecode::BrFalse(_) => Opcode::BrFalse,
            Bytecode::Call(_) => Opcode::Call,
            Bytecode::CallGeneric(_) => Opcode::CallGeneric,
            Bytecode::Pack(_) => Opcode::Pack,
            Bytecode::Unpack(_) => Opcode::Unpack,
            Bytecode::MoveTo(_) => Opcode::MoveTo,
            Bytecode::MoveFrom(_) => Opcode::MoveFrom,
            Bytecode::Exists(_) => Opcode::Exists,
            Bytecode::ImmBorrowGlobal(_) => Opcode::ImmBorrowGlobal,
            Bytecode::MutBorrowGlobal(_) => Opcode::MutBorrowGlobal,
            Bytecode::PackGeneric(_) => Opcode::PackGeneric,
            Bytecode::UnpackGeneric(_) => Opcode::UnpackGeneric,
            Bytecode::MoveToGeneric(_) => Opcode::MoveToGeneric,
            Bytecode::MoveFromGeneric(_) => Opcode::MoveFromGeneric,
            Bytecode::ExistsGeneric(_) => Opcode::ExistsGeneric,
            Bytecode::ImmBorrowGlobalGeneric(_) => Opcode::ImmBorrowGlobalGeneric,
            Bytecode::MutBorrowGlobalGeneric(_) => Opcode::MutBorrowGlobalGeneric,
            Bytecode::ImmBorrowField(_) => Opcode::ImmBorrowField,
            Bytecode::MutBorrowField(_) => Opcode::MutBorrowField,
            Bytecode::ImmBorrowFieldGeneric(_) => Opcode::ImmBorrowFieldGeneric,
            Bytecode::MutBorrowFieldGeneric(_) => Opcode::MutBorrowFieldGeneric,
            Bytecode::VecImmBorrow(_) => Opcode::VecImmBorrow,
            Bytecode::VecMutBorrow(_) => Opcode::VecMutBorrow,
            Bytecode::VecLen(_) => Opcode::VecLen,
            Bytecode::VecPopBack(_) => Opcode::VecPopBack,
            Bytecode::VecPushBack(_) => Opcode::VecPushBack,
            Bytecode::VecSwap(_) => Opcode::VecSwap,
            Bytecode::VecPack(_, _) => Opcode::VecPack,
            Bytecode::VecUnpack(_, _) => Opcode::VecUnpack,
        }
    }
}

/// The opcode and the two operands of an instruction as field elements
/// (`bytecode_to_fe`); for an arithmetic instruction the first operand is the
/// width in bytes of its result type `ty_out[0]`.
pub fn bytecode_to_fe(bytecode: &Bytecode, ty_out: &Vec<SignatureToken>) -> (r: [Fe; 3])
    requires
        !(*bytecode is Nop),
        is_arith(*bytecode) ==> ty_out@.len() >= 1 && num_bytes_of(ty_out@[0]) is Some,
    ensures
        r[0].val() == spec_bytecode_opcode(*bytecode).spec_index(),
        r[1].val() == bytecode_operands(*bytecode, ty_out@).0,
        r[2].val() == bytecode_operands(*bytecode, ty_out@).1,
{
    let fe_opcode = Fe::from_u64(bytecode.opcode().index());
    match bytecode {
        Bytecode::CastU8 | Bytecode::CastU16 | Bytecode::CastU32 | Bytecode::CastU64 | Bytecode::CastU128 | Bytecode::CastU256 | Bytecode::Pop | Bytecode::Ret | Bytecode::LdTrue | Bytecode::LdFalse | Bytecode::Eq | Bytecode::Neq | Bytecode::Le | Bytecode::Lt | Bytecode::Ge | Bytecode::Gt | Bytecode::BitAnd | Bytecode::BitOr | Bytecode::Xor | Bytecode::And | Bytecode::Or | Bytecode::Not | Bytecode::ReadRef | Bytecode::WriteRef | Bytecode::FreezeRef | Bytecode::Abort => [fe_opcode, Fe::zero(), Fe::zero()],
        Bytecode::Add | Bytecode::Mul | Bytecode::Sub | Bytecode::Div | Bytecode::Mod | Bytecode::Shl | Bytecode::Shr => [fe_opcode, Fe::from_u128(get_num_bytes(&ty_out[0]) as u128), Fe::zero()],
        Bytecode::LdU8(x) => [fe_opcode, Fe::from_u128(*x as u128), Fe::zero()],
        Bytecode::LdU16(x) => [fe_opcode, Fe::from_u128(*x as u128), Fe::zero()],
        Bytecode::LdU32(x) => [fe_opcode, Fe::from_u128(*x as u128), Fe::zero()],
        Bytecode::LdU64(x) => [fe_opcode, Fe::from_u128(*x as u128), Fe::zero()],
        Bytecode::LdU128(x) => [fe_opcode, Fe::from_u128(*x as u128), Fe::zero()],
        Bytecode::LdU256(x) => {
            let (lo, hi) = convert_u256_to_fe_pair(*x);
            [fe_opcode, lo, hi]
        },
        Bytecode::CopyLoc(i) | Bytecode::MoveLoc(i) | Bytecode::StLoc(i) | Bytecode::MutBorrowLoc(i) | Bytecode::ImmBorrowLoc(i) => [fe_opcode, Fe::from_u64(*i as u64), Fe::zero()],
        Bytecode::LdConst(i) | Bytecode::Branch(i) | Bytecode::BrTrue(i) | Bytecode::BrFalse(i) | Bytecode::Call(i) | Bytecode::CallGeneric(i) | Bytecode::Pack(i) | Bytecode::Unpack(i) | Bytecode::MoveTo(i) | Bytecode::MoveFrom(i) | Bytecode::Exists(i) | Bytecode::ImmBorrowGlobal(i) | Bytecode::MutBorrowGlobal(i) | Bytecode::PackGeneric(i) | Bytecode::UnpackGeneric(i) | Bytecode::MoveToGeneric(i) | Bytecode::MoveFromGeneric(i) | Bytecode::ExistsGeneric(i) | Bytecode::ImmBorrowGlobalGeneric(i) | Bytecode::MutBorrowGlobalGeneric(i) | Bytecode::ImmBorrowField(i) | Bytecode::MutBorrowField(i) | Bytecode::ImmBorrowFieldGeneric(i) | Bytecode::MutBorrowFieldGeneric(i) | Bytecode::VecImmBorrow(i) | Bytecode::VecMutBorrow(i) | Bytecode::VecLen(i) | Bytecode::VecPopBack(i) | Bytecode::VecPushBack(i) | Bytecode::VecSwap(i) => [fe_opcode, Fe::from_u64(*i as u64), Fe::zero()],
        Bytecode::VecPack(i, n) | Bytecode::VecUnpack(i, n) => [fe_opcode, Fe::from_u64(*i as u64), Fe::from_u64(*n)],
        Bytecode::Nop => [fe_opcode, Fe::zero(), Fe::zero()],
    }
}

/// An instruction of a function, where the bytecode table holds it.
#[derive(Clone, Debug)]
pub struct BytecodeInfo {
    pub module_index: usize,
    pub function_index: usize,
    pub pc: usize,
    pub bytecode: Bytecode,
    /// The types of the results of the instruction.
    pub ty_out: Vec<SignatureToken>,
}

impl BytecodeInfo {
    /// `[module_index, function_index, pc, opcode, operand 1, operand 2]`.
    pub fn to_fields(&self) -> (r: Vec<Fe>)
        requires
            !(self.bytecode is Nop),
            is_arith(self.bytecode) ==> self.ty_out@.len() >= 1 && num_bytes_of(self.ty_out@[0]) is Some,
        ensures
            r@.len() == 6,
            r@[0].val() == self.module_index,
            r@[1].val() == self.function_index,
            r@[2].val() == self.pc,
            r@[3].val() == spec_bytecode_opcode(self.bytecode).spec_index(),
            r@[4].val() == bytecode_operands(self.bytecode, self.ty_out@).0,
            r@[5].val() == bytecode_operands(self.bytecode, self.ty_out@).1,
    {
        let fes = bytecode_to_fe(&self.bytecode, &self.ty_out);
        vec![
            Fe::from_u128(self.module_index as u128),
            Fe::from_u128(self.function_index as u128),
            Fe::from_u128(self.pc as u128),
            fes[0],
            fes[1],
            fes[2],
        ]
    }
}


/// The table of the instructions of every function.
#[derive(Clone, Copy, Debug)]
pub struct BytecodeLookupTable;

/// An instruction that the bytecode table can hold.
pub open spec fn supported(info: BytecodeInfo) -> bool {
    &&& !(info.bytecode is Nop)
    &&& is_arith(info.bytecode) ==> info.ty_out@.len() >= 1 && num_bytes_of(info.ty_out@[0]) is Some
}

/// Whether the bytecode table can hold the instruction (`supported`): it has
/// a number, and an arithmetic instruction has an integer result type.
pub fn is_supported(info: &BytecodeInfo) -> (r: bool)
    ensures
        r == supported(*info),
{
    let arith = match info.bytecode {
        Bytecode::Add | Bytecode::Mul | Bytecode::Sub | Bytecode::Div | Bytecode::Mod | Bytecode::Shl | Bytecode::Shr => true,
        _ => false,
    };
    let nop = match info.bytecode {
        Bytecode::Nop => true,
        _ => false,
    };
    let int_result = if info.ty_out.len() >= 1 {
        match info.ty_out[0] {
            SignatureToken::U8 | SignatureToken::U16 | SignatureToken::U32 | SignatureToken::U64
            | SignatureToken::U128 | SignatureToken::U256 => true,
            _ => false,
        }
    } else {
        false
    };
    !nop && (!arith || int_result)
}

impl BytecodeLookupTable {
    /// The rows of the instructions `infos`, in the order given (the order in
    /// which the instructions of the program are walked).
    pub fn build(&self, infos: &Vec<BytecodeInfo>) -> (r: Vec<Vec<Fe>>)
        requires
            forall|i: int| 0 <= i < infos@.len() ==> supported(#[trigger] infos@[i]),
        ensures
            r@.len() == infos@.len(),
            forall|i: int| 0 <= i < infos@.len() ==> {
                let row = #[trigger] r@[i]@;
                let info = infos@[i];
                &&& row.len() == 6
                &&& row[0].val() == info.module_index
                &&& row[1].val() == info.function_index
                &&& row[2].val() == info.pc
                &&& row[3].val() == spec_bytecode_opcode(info.bytecode).spec_index()
                &&& row[4].val() == bytecode_operands(info.bytecode, info.ty_out@).0
                &&& row[5].val() == bytecode_operands(info.bytecode, info.ty_out@).1
            },
    {
        let mut r: Vec<Vec<Fe>> = Vec::new();
        let mut i: usize = 0;
        while i < infos.len()
            invariant
                i <= infos@.len(),
                forall|k: int| 0 <= k < infos@.len() ==> supported(#[trigger] infos@[k]),
                r@.len() == i,
                forall|k: int| 0 <= k < i ==> {
                    let row = #[trigger] r@[k]@;
                    let info = infos@[k];
                    &&& row.len() == 6
                    &&& row[0].val() == info.module_index
                    &&& row[1].val() == info.function_index
                    &&& row[2].val() == info.pc
                    &&& row[3].val() == spec_bytecode_opcode(info.bytecode).spec_index()
                    &&& row[4].val() == bytecode_operands(info.bytecode, info.ty_out@).0
                    &&& row[5].val() == bytecode_operands(info.bytecode, info.ty_out@).1
                },
            decreases infos.len() - i,
        {
            proof {
                assert(supported(infos@[i as int]));
            }
            r.push(infos[i].to_fields());
            i = i + 1;
        }
        r
    }
}

} // verus!
