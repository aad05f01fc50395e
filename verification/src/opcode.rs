//! Opcodes as the engine reports them, and syscall codes.
use vstd::prelude::*;

verus! {

/// An opcode. The trace tells the arithmetic opcodes and the two table opcodes apart; any other
/// opcode is known by its numeric code.
#[derive(Clone, Copy, Debug, PartialEq, Eq, Structural)]
pub enum Opcode {
    /// Addition.
    I32Add,
    /// Subtraction.
    I32Sub,
    /// Exclusive or.
    I32Xor,
    /// Or.
    I32Or,
    /// And.
    I32And,
    /// Left shift.
    I32Shl,
    /// Signed right shift.
    I32ShrS,
    /// Unsigned right shift.
    I32ShrU,
    /// Signed at least.
    I32GeS,
    /// Signed greater.
    I32GtS,
    /// Unsigned at least.
    I32GeU,
    /// Unsigned greater.
    I32GtU,
    /// Signed at most.
    I32LeS,
    /// Unsigned at most.
    I32LeU,
    /// Signed less.
    I32LtS,
    /// Unsigned less.
    I32LtU,
    /// Equal.
    I32Eq,
    /// Equal to zero.
    I32Eqz,
    /// Not equal.
    I32Ne,
    /// Trailing zeros.
    I32Ctz,
    /// Leading zeros.
    I32Clz,
    /// Ones.
    I32Popcnt,
    /// Multiplication.
    I32Mul,
    /// Signed division.
    I32DivS,
    /// Unsigned division.
    I32DivU,
    /// Signed remainder.
    I32RemS,
    /// Unsigned remainder.
    I32RemU,
    /// Left rotation.
    I32Rotl,
    /// Right rotation.
    I32Rotr,
    /// Initialisation of a table.
    TableInit(u32),
    /// Growth of a table.
    TableGrow(u32),
    /// Any other opcode, by its numeric code.
    Other(u32),
}

/// What kind of opcode the engine says an opcode is. The kinds may overlap.
#[derive(Clone, Copy, Debug, PartialEq, Eq, Structural)]
pub struct OpcodeClass {
    /// Loads, stores and the other opcodes that access linear memory.
    pub is_memory: bool,
    /// Arithmetic, logic and comparisons on 32-bit values.
    pub is_alu: bool,
    /// Loads.
    pub is_memory_load: bool,
    /// Stores.
    pub is_memory_store: bool,
    /// Branches.
    pub is_branch: bool,
    /// Opcodes that are carried out as a syscall.
    pub is_ecall: bool,
    /// Constants.
    pub is_const: bool,
    /// Opcodes that change the state of the engine only.
    pub is_state: bool,
    /// Calls and returns.
    pub is_call: bool,
    /// Operations on 64-bit values.
    pub is_64b: bool,
}

/// An executed opcode with what the engine knows of it.
#[derive(Clone, Copy, Debug, PartialEq, Eq, Structural)]
pub struct Instruction {
    /// The opcode.
    pub opcode: Opcode,
    /// The numeric code of the opcode.
    pub code: u32,
    /// The immediate value of the opcode.
    pub aux_value: u32,
    /// The kind of the opcode.
    pub class: OpcodeClass,
}

/// The numeric codes of the two comparisons that every comparison is reduced to.
#[derive(Clone, Copy, Debug, PartialEq, Eq, Structural)]
pub struct ComparisonCodes {
    /// The numeric code of the signed comparison.
    pub lt_s: u32,
    /// The numeric code of the unsigned comparison.
    pub lt_u: u32,
}

impl Opcode {
    /// Whether the opcode is a comparison.
    pub open spec fn is_comparison(self) -> bool {
        match self {
            Opcode::I32GeS | Opcode::I32GtS | Opcode::I32GeU | Opcode::I32GtU | Opcode::I32LeS
            | Opcode::I32LeU | Opcode::I32LtS | Opcode::I32LtU | Opcode::I32Eq | Opcode::I32Eqz
            | Opcode::I32Ne => true,
            _ => false,
        }
    }

    /// Whether the opcode compares its arguments as signed numbers.
    pub open spec fn is_signed_comparison(self) -> bool {
        match self {
            Opcode::I32GeS | Opcode::I32GtS | Opcode::I32LeS | Opcode::I32LtS => true,
            _ => false,
        }
    }

    /// Whether the opcode has an event of its own in one of the arithmetic tables.
    pub open spec fn is_arithmetic(self) -> bool {
        match self {
            Opcode::TableInit(_) | Opcode::TableGrow(_) | Opcode::Other(_) => false,
            _ => true,
        }
    }
}

/// A syscall.
#[allow(non_camel_case_types)]
#[derive(Clone, Copy, Debug, PartialEq, Eq, Structural)]
pub enum SyscallCode {
    /// `HALT`.
    HALT,
    /// `WRITE`.
    WRITE,
    /// `ENTER_UNCONSTRAINED`.
    ENTER_UNCONSTRAINED,
    /// `EXIT_UNCONSTRAINED`.
    EXIT_UNCONSTRAINED,
    /// `SHA_EXTEND`.
    SHA_EXTEND,
    /// `SHA_COMPRESS`.
    SHA_COMPRESS,
    /// `ED_ADD`.
    ED_ADD,
    /// `ED_DECOMPRESS`.
    ED_DECOMPRESS,
    /// `KECCAK_PERMUTE`.
    KECCAK_PERMUTE,
    /// `SECP256K1_ADD`.
    SECP256K1_ADD,
    /// `SECP256K1_DOUBLE`.
    SECP256K1_DOUBLE,
    /// `SECP256K1_DECOMPRESS`.
    SECP256K1_DECOMPRESS,
    /// `BN254_ADD`.
    BN254_ADD,
    /// `BN254_DOUBLE`.
    BN254_DOUBLE,
    /// `COMMIT`.
    COMMIT,
    /// `COMMIT_DEFERRED_PROOFS`.
    COMMIT_DEFERRED_PROOFS,
    /// `VERIFY_SP1_PROOF`.
    VERIFY_SP1_PROOF,
    /// `BLS12381_DECOMPRESS`.
    BLS12381_DECOMPRESS,
    /// `HINT_LEN`.
    HINT_LEN,
    /// `HINT_READ`.
    HINT_READ,
    /// `UINT256_MUL`.
    UINT256_MUL,
    /// `U256XU2048_MUL`.
    U256XU2048_MUL,
    /// `BLS12381_ADD`.
    BLS12381_ADD,
    /// `BLS12381_DOUBLE`.
    BLS12381_DOUBLE,
    /// `BLS12381_FP_ADD`.
    BLS12381_FP_ADD,
    /// `BLS12381_FP_SUB`.
    BLS12381_FP_SUB,
    /// `BLS12381_FP_MUL`.
    BLS12381_FP_MUL,
    /// `BLS12381_FP2_ADD`.
    BLS12381_FP2_ADD,
    /// `BLS12381_FP2_SUB`.
    BLS12381_FP2_SUB,
    /// `BLS12381_FP2_MUL`.
    BLS12381_FP2_MUL,
    /// `BN254_FP_ADD`.
    BN254_FP_ADD,
    /// `BN254_FP_SUB`.
    BN254_FP_SUB,
    /// `BN254_FP_MUL`.
    BN254_FP_MUL,
    /// `BN254_FP2_ADD`.
    BN254_FP2_ADD,
    /// `BN254_FP2_SUB`.
    BN254_FP2_SUB,
    /// `BN254_FP2_MUL`.
    BN254_FP2_MUL,
    /// `SECP256R1_ADD`.
    SECP256R1_ADD,
    /// `SECP256R1_DOUBLE`.
    SECP256R1_DOUBLE,
    /// `SECP256R1_DECOMPRESS`.
    SECP256R1_DECOMPRESS,
    /// `TABLE_INIT`.
    TABLE_INIT,
    /// `TABLE_GROW`.
    TABLE_GROW,
}

} // verus!
