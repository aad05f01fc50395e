//! Identifiers of the tables ("airs") that a trace is split into.
use vstd::prelude::*;

verus! {

/// The number of tables.
pub const NUM_AIRS: u8 = 50;

/// The number of tables that a core shard fills.
pub const NUM_CORE_AIRS: usize = 19;

/// A table of the machine.
#[derive(Clone, Copy, Debug, PartialEq, Eq, Structural)]
pub enum RwasmAirId {
    /// The cpu table.
    Cpu,
    /// The program table.
    Program,
    /// The SHA-256 extend precompile.
    ShaExtend,
    /// The SHA-256 compress precompile.
    ShaCompress,
    /// The ed25519 addition precompile.
    EdAddAssign,
    /// The ed25519 decompression precompile.
    EdDecompress,
    /// The secp256k1 decompression precompile.
    Secp256k1Decompress,
    /// The secp256k1 addition precompile.
    Secp256k1AddAssign,
    /// The secp256k1 doubling precompile.
    Secp256k1DoubleAssign,
    /// The secp256r1 decompression precompile.
    Secp256r1Decompress,
    /// The secp256r1 addition precompile.
    Secp256r1AddAssign,
    /// The secp256r1 doubling precompile.
    Secp256r1DoubleAssign,
    /// The keccak permutation precompile.
    KeccakPermute,
    /// The bn254 addition precompile.
    Bn254AddAssign,
    /// The bn254 doubling precompile.
    Bn254DoubleAssign,
    /// The bls12-381 addition precompile.
    Bls12381AddAssign,
    /// The bls12-381 doubling precompile.
    Bls12381DoubleAssign,
    /// The 256-bit modular multiplication precompile.
    Uint256MulMod,
    /// The 256-bit by 2048-bit multiplication precompile.
    U256XU2048Mul,
    /// The bls12-381 base field precompile.
    Bls12381FpOpAssign,
    /// The bls12-381 quadratic extension multiplication precompile.
    Bls12381Fp2MulAssign,
    /// The bls12-381 quadratic extension addition precompile.
    Bls12381Fp2AddSubAssign,
    /// The bn254 base field precompile.
    Bn254FpOpAssign,
    /// The bn254 quadratic extension multiplication precompile.
    Bn254Fp2MulAssign,
    /// The bn254 quadratic extension addition precompile.
    Bn254Fp2AddSubAssign,
    /// The bls12-381 decompression precompile.
    Bls12381Decompress,
    /// The table initialisation precompile.
    TableInit,
    /// The table growth precompile.
    TableGrow,
    /// The core side of the syscall lookup.
    SyscallCore,
    /// The precompile side of the syscall lookup.
    SyscallPrecompile,
    /// Division and remainder.
    DivRem,
    /// Addition and subtraction.
    AddSub,
    /// Bitwise operations.
    Bitwise,
    /// Multiplication.
    Mul,
    /// Right shifts.
    ShiftRight,
    /// Left shifts.
    ShiftLeft,
    /// Comparisons.
    Lt,
    /// Rotations.
    Rotate,
    /// Bit counting.
    Trailing,
    /// Memory instructions.
    MemoryInstrs,
    /// Program counter arithmetic.
    Auipc,
    /// Branches.
    Branch,
    /// Calls and returns.
    Call,
    /// Jumps.
    Jump,
    /// Syscall instructions.
    SyscallInstrs,
    /// The byte lookup table.
    Byte,
    /// Global memory initialisation.
    MemoryGlobalInit,
    /// Global memory finalisation.
    MemoryGlobalFinalize,
    /// Memory touched within one shard.
    MemoryLocal,
    /// Interactions between shards.
    Global,
}

/// A table that a core shard fills.
#[derive(Clone, Copy, Debug, PartialEq, Eq, Structural)]
pub enum CoreAirId {
    /// The cpu table.
    Cpu,
    /// Addition and subtraction.
    AddSub,
    /// Comparisons.
    Lt,
    /// Memory touched within one shard.
    MemoryLocal,
    /// Division and remainder.
    DivRem,
    /// Bitwise operations.
    Bitwise,
    /// Rotations.
    Rotate,
    /// Bit counting.
    Trailing,
    /// Multiplication.
    Mul,
    /// Right shifts.
    ShiftRight,
    /// Left shifts.
    ShiftLeft,
    /// Memory instructions.
    MemoryInstrs,
    /// Program counter arithmetic.
    Auipc,
    /// Branches.
    Branch,
    /// Calls and returns.
    Call,
    /// Jumps.
    Jump,
    /// The core side of the syscall lookup.
    SyscallCore,
    /// Syscall instructions.
    SyscallInstrs,
    /// Interactions between shards.
    Global,
}

impl RwasmAirId {
    /// The position of the table in the list of all tables.
    pub open spec fn code(self) -> u8 {
        match self {
            RwasmAirId::Cpu => 0,
            RwasmAirId::Program => 1,
            RwasmAirId::ShaExtend => 2,
            RwasmAirId::ShaCompress => 3,
            RwasmAirId::EdAddAssign => 4,
            RwasmAirId::EdDecompress => 5,
            RwasmAirId::Secp256k1Decompress => 6,
            RwasmAirId::Secp256k1AddAssign => 7,
            RwasmAirId::Secp256k1DoubleAssign => 8,
            RwasmAirId::Secp256r1Decompress => 9,
            RwasmAirId::Secp256r1AddAssign => 10,
            RwasmAirId::Secp256r1DoubleAssign => 11,
            RwasmAirId::KeccakPermute => 12,
            RwasmAirId::Bn254AddAssign => 13,
            RwasmAirId::Bn254DoubleAssign => 14,
            RwasmAirId::Bls12381AddAssign => 15,
            RwasmAirId::Bls12381DoubleAssign => 16,
            RwasmAirId::Uint256MulMod => 17,
            RwasmAirId::U256XU2048Mul => 18,
            RwasmAirId::Bls12381FpOpAssign => 19,
            RwasmAirId::Bls12381Fp2MulAssign => 20,
            RwasmAirId::Bls12381Fp2AddSubAssign => 21,
            RwasmAirId::Bn254FpOpAssign => 22,
            RwasmAirId::Bn254Fp2MulAssign => 23,
            RwasmAirId::Bn254Fp2AddSubAssign => 24,
            RwasmAirId::Bls12381Decompress => 25,
            RwasmAirId::TableInit => 26,
            RwasmAirId::TableGrow => 27,
            RwasmAirId::SyscallCore => 28,
            RwasmAirId::SyscallPrecompile => 29,
            RwasmAirId::DivRem => 30,
            RwasmAirId::AddSub => 31,
            RwasmAirId::Bitwise => 32,
            RwasmAirId::Mul => 33,
            RwasmAirId::ShiftRight => 34,
            RwasmAirId::ShiftLeft => 35,
            RwasmAirId::Lt => 36,
            RwasmAirId::Rotate => 37,
            RwasmAirId::Trailing => 38,
            RwasmAirId::MemoryInstrs => 39,
            RwasmAirId::Auipc => 40,
            RwasmAirId::Branch => 41,
            RwasmAirId::Call => 42,
            RwasmAirId::Jump => 43,
            RwasmAirId::SyscallInstrs => 44,
            RwasmAirId::Byte => 45,
            RwasmAirId::MemoryGlobalInit => 46,
            RwasmAirId::MemoryGlobalFinalize => 47,
            RwasmAirId::MemoryLocal => 48,
            RwasmAirId::Global => 49,
        }
    }

    /// The name of the table.
    #[verifier::opaque]
    pub open spec fn name_chars(self) -> Seq<char> {
        match self {
            RwasmAirId::Cpu => "Cpu"@,
            RwasmAirId::Program => "Program"@,
            RwasmAirId::ShaExtend => "ShaExtend"@,
            RwasmAirId::ShaCompress => "ShaCompress"@,
            RwasmAirId::EdAddAssign => "EdAddAssign"@,
            RwasmAirId::EdDecompress => "EdDecompress"@,
            RwasmAirId::Secp256k1Decompress => "Secp256k1Decompress"@,
            RwasmAirId::Secp256k1AddAssign => "Secp256k1AddAssign"@,
            RwasmAirId::Secp256k1DoubleAssign => "Secp256k1DoubleAssign"@,
            RwasmAirId::Secp256r1Decompress => "Secp256r1Decompress"@,
            RwasmAirId::Secp256r1AddAssign => "Secp256r1AddAssign"@,
            RwasmAirId::Secp256r1DoubleAssign => "Secp256r1DoubleAssign"@,
            RwasmAirId::KeccakPermute => "KeccakPermute"@,
            RwasmAirId::Bn254AddAssign => "Bn254AddAssign"@,
            RwasmAirId::Bn254DoubleAssign => "Bn254DoubleAssign"@,
            RwasmAirId::Bls12381AddAssign => "Bls12381AddAssign"@,
            RwasmAirId::Bls12381DoubleAssign => "Bls12381DoubleAssign"@,
            RwasmAirId::Uint256MulMod => "Uint256MulMod"@,
            RwasmAirId::U256XU2048Mul => "U256XU2048Mul"@,
            RwasmAirId::Bls12381FpOpAssign => "Bls12381FpOpAssign"@,
            RwasmAirId::Bls12381Fp2MulAssign => "Bls12381Fp2MulAssign"@,
            RwasmAirId::Bls12381Fp2AddSubAssign => "Bls12381Fp2AddSubAssign"@,
            RwasmAirId::Bn254FpOpAssign => "Bn254FpOpAssign"@,
            RwasmAirId::Bn254Fp2MulAssign => "Bn254Fp2MulAssign"@,
            RwasmAirId::Bn254Fp2AddSubAssign => "Bn254Fp2AddSubAssign"@,
            RwasmAirId::Bls12381Decompress => "Bls12381Decompress"@,
            RwasmAirId::TableInit => "TableInit"@,
            RwasmAirId::TableGrow => "TableGrow"@,
            RwasmAirId::SyscallCore => "SyscallCore"@,
            RwasmAirId::SyscallPrecompile => "SyscallPrecompile"@,
            RwasmAirId::DivRem => "DivRem"@,
            RwasmAirId::AddSub => "AddSub"@,
            RwasmAirId::Bitwise => "Bitwise"@,
            RwasmAirId::Mul => "Mul"@,
            RwasmAirId::ShiftRight => "ShiftRight"@,
            RwasmAirId::ShiftLeft => "ShiftLeft"@,
            RwasmAirId::Lt => "Lt"@,
            RwasmAirId::Rotate => "Rotate"@,
            RwasmAirId::Trailing => "Trailing"@,
            RwasmAirId::MemoryInstrs => "MemoryInstrs"@,
            RwasmAirId::Auipc => "Auipc"@,
            RwasmAirId::Branch => "Branch"@,
            RwasmAirId::Call => "Call"@,
            RwasmAirId::Jump => "Jump"@,
            RwasmAirId::SyscallInstrs => "SyscallInstrs"@,
            RwasmAirId::Byte => "Byte"@,
            RwasmAirId::MemoryGlobalInit => "MemoryGlobalInit"@,
            RwasmAirId::MemoryGlobalFinalize => "MemoryGlobalFinalize"@,
            RwasmAirId::MemoryLocal => "MemoryLocal"@,
            RwasmAirId::Global => "Global"@,
        }
    }

    /// Returns the position of the table in the list of all tables.
    pub fn index(self) -> (index: u8)
        ensures
            index == self.code(),
            index < NUM_AIRS,
    {
        match self {
            RwasmAirId::Cpu => 0,
            RwasmAirId::Program => 1,
            RwasmAirId::ShaExtend => 2,
            RwasmAirId::ShaCompress => 3,
            RwasmAirId::EdAddAssign => 4,
            RwasmAirId::EdDecompress => 5,
            RwasmAirId::Secp256k1Decompress => 6,
            RwasmAirId::Secp256k1AddAssign => 7,
            RwasmAirId::Secp256k1DoubleAssign => 8,
            RwasmAirId::Secp256r1Decompress => 9,
            RwasmAirId::Secp256r1AddAssign => 10,
            RwasmAirId::Secp256r1DoubleAssign => 11,
            RwasmAirId::KeccakPermute => 12,
            RwasmAirId::Bn254AddAssign => 13,
            RwasmAirId::Bn254DoubleAssign => 14,
            RwasmAirId::Bls12381AddAssign => 15,
            RwasmAirId::Bls12381DoubleAssign => 16,
            RwasmAirId::Uint256MulMod => 17,
            RwasmAirId::U256XU2048Mul => 18,
            RwasmAirId::Bls12381FpOpAssign => 19,
            RwasmAirId::Bls12381Fp2MulAssign => 20,
            RwasmAirId::Bls12381Fp2AddSubAssign => 21,
            RwasmAirId::Bn254FpOpAssign => 22,
            RwasmAirId::Bn254Fp2MulAssign => 23,
            RwasmAirId::Bn254Fp2AddSubAssign => 24,
            RwasmAirId::Bls12381Decompress => 25,
            RwasmAirId::TableInit => 26,
            RwasmAirId::TableGrow => 27,
            RwasmAirId::SyscallCore => 28,
            RwasmAirId::SyscallPrecompile => 29,
            RwasmAirId::DivRem => 30,
            RwasmAirId::AddSub => 31,
            RwasmAirId::Bitwise => 32,
            RwasmAirId::Mul => 33,
            RwasmAirId::ShiftRight => 34,
            RwasmAirId::ShiftLeft => 35,
            RwasmAirId::Lt => 36,
            RwasmAirId::Rotate => 37,
            RwasmAirId::Trailing => 38,
            RwasmAirId::MemoryInstrs => 39,
            RwasmAirId::Auipc => 40,
            RwasmAirId::Branch => 41,
            RwasmAirId::Call => 42,
            RwasmAirId::Jump => 43,
            RwasmAirId::SyscallInstrs => 44,
            RwasmAirId::Byte => 45,
            RwasmAirId::MemoryGlobalInit => 46,
            RwasmAirId::MemoryGlobalFinalize => 47,
            RwasmAirId::MemoryLocal => 48,
            RwasmAirId::Global => 49,
        }
    }

    /// Returns the table at a position, if there is one.
    pub fn from_index(index: u8) -> (air: Option<RwasmAirId>)
        ensures
            air is Some <==> index < NUM_AIRS,
            air matches Some(a) ==> a.code() == index,
    {
        match index {
            0 => Some(RwasmAirId::Cpu),
            1 => Some(RwasmAirId::Program),
            2 => Some(RwasmAirId::ShaExtend),
            3 => Some(RwasmAirId::ShaCompress),
            4 => Some(RwasmAirId::EdAddAssign),
            5 => Some(RwasmAirId::EdDecompress),
            6 => Some(RwasmAirId::Secp256k1Decompress),
            7 => Some(RwasmAirId::Secp256k1AddAssign),
            8 => Some(RwasmAirId::Secp256k1DoubleAssign),
            9 => Some(RwasmAirId::Secp256r1Decompress),
            10 => Some(RwasmAirId::Secp256r1AddAssign),
            11 => Some(RwasmAirId::Secp256r1DoubleAssign),
            12 => Some(RwasmAirId::KeccakPermute),
            13 => Some(RwasmAirId::Bn254AddAssign),
            14 => Some(RwasmAirId::Bn254DoubleAssign),
            15 => Some(RwasmAirId::Bls12381AddAssign),
            16 => Some(RwasmAirId::Bls12381DoubleAssign),
            17 => Some(RwasmAirId::Uint256MulMod),
            18 => Some(RwasmAirId::U256XU2048Mul),
            19 => Some(RwasmAirId::Bls12381FpOpAssign),
            20 => Some(RwasmAirId::Bls12381Fp2MulAssign),
            21 => Some(RwasmAirId::Bls12381Fp2AddSubAssign),
            22 => Some(RwasmAirId::Bn254FpOpAssign),
            23 => Some(RwasmAirId::Bn254Fp2MulAssign),
            24 => Some(RwasmAirId::Bn254Fp2AddSubAssign),
            25 => Some(RwasmAirId::Bls12381Decompress),
            26 => Some(RwasmAirId::TableInit),
            27 => Some(RwasmAirId::TableGrow),
            28 => Some(RwasmAirId::SyscallCore),
            29 => Some(RwasmAirId::SyscallPrecompile),
            30 => Some(RwasmAirId::DivRem),
            31 => Some(RwasmAirId::AddSub),
            32 => Some(RwasmAirId::Bitwise),
            33 => Some(RwasmAirId::Mul),
            34 => Some(RwasmAirId::ShiftRight),
            35 => Some(RwasmAirId::ShiftLeft),
            36 => Some(RwasmAirId::Lt),
            37 => Some(RwasmAirId::Rotate),
            38 => Some(RwasmAirId::Trailing),
            39 => Some(RwasmAirId::MemoryInstrs),
            40 => Some(RwasmAirId::Auipc),
            41 => Some(RwasmAirId::Branch),
            42 => Some(RwasmAirId::Call),
            43 => Some(RwasmAirId::Jump),
            44 => Some(RwasmAirId::SyscallInstrs),
            45 => Some(RwasmAirId::Byte),
            46 => Some(RwasmAirId::MemoryGlobalInit),
            47 => Some(RwasmAirId::MemoryGlobalFinalize),
            48 => Some(RwasmAirId::MemoryLocal),
            49 => Some(RwasmAirId::Global),
            _ => None,
        }
    }

    /// Returns the name of the table.
    pub fn name(self) -> (name: String)
        ensures
            name@ == self.name_chars(),
    {
        proof {
            reveal(RwasmAirId::name_chars);
        }
        match self {
            RwasmAirId::Cpu => "Cpu".to_string(),
            RwasmAirId::Program => "Program".to_string(),
            RwasmAirId::ShaExtend => "ShaExtend".to_string(),
            RwasmAirId::ShaCompress => "ShaCompress".to_string(),
            RwasmAirId::EdAddAssign => "EdAddAssign".to_string(),
            RwasmAirId::EdDecompress => "EdDecompress".to_string(),
            RwasmAirId::Secp256k1Decompress => "Secp256k1Decompress".to_string(),
            RwasmAirId::Secp256k1AddAssign => "Secp256k1AddAssign".to_string(),
            RwasmAirId::Secp256k1DoubleAssign => "Secp256k1DoubleAssign".to_string(),
            RwasmAirId::Secp256r1Decompress => "Secp256r1Decompress".to_string(),
            RwasmAirId::Secp256r1AddAssign => "Secp256r1AddAssign".to_string(),
            RwasmAirId::Secp256r1DoubleAssign => "Secp256r1DoubleAssign".to_string(),
            RwasmAirId::KeccakPermute => "KeccakPermute".to_string(),
            RwasmAirId::Bn254AddAssign => "Bn254AddAssign".to_string(),
            RwasmAirId::Bn254DoubleAssign => "Bn254DoubleAssign".to_string(),
            RwasmAirId::Bls12381AddAssign => "Bls12381AddAssign".to_string(),
            RwasmAirId::Bls12381DoubleAssign => "Bls12381DoubleAssign".to_string(),
            RwasmAirId::Uint256MulMod => "Uint256MulMod".to_string(),
            RwasmAirId::U256XU2048Mul => "U256XU2048Mul".to_string(),
            RwasmAirId::Bls12381FpOpAssign => "Bls12381FpOpAssign".to_string(),
            RwasmAirId::Bls12381Fp2MulAssign => "Bls12381Fp2MulAssign".to_string(),
            RwasmAirId::Bls12381Fp2AddSubAssign => "Bls12381Fp2AddSubAssign".to_string(),
            RwasmAirId::Bn254FpOpAssign => "Bn254FpOpAssign".to_string(),
            RwasmAirId::Bn254Fp2MulAssign => "Bn254Fp2MulAssign".to_string(),
            RwasmAirId::Bn254Fp2AddSubAssign => "Bn254Fp2AddSubAssign".to_string(),
            RwasmAirId::Bls12381Decompress => "Bls12381Decompress".to_string(),
            RwasmAirId::TableInit => "TableInit".to_string(),
            RwasmAirId::TableGrow => "TableGrow".to_string(),
            RwasmAirId::SyscallCore => "SyscallCore".to_string(),
            RwasmAirId::SyscallPrecompile => "SyscallPrecompile".to_string(),
            RwasmAirId::DivRem => "DivRem".to_string(),
            RwasmAirId::AddSub => "AddSub".to_string(),
            RwasmAirId::Bitwise => "Bitwise".to_string(),
            RwasmAirId::Mul => "Mul".to_string(),
            RwasmAirId::ShiftRight => "ShiftRight".to_string(),
            RwasmAirId::ShiftLeft => "ShiftLeft".to_string(),
            RwasmAirId::Lt => "Lt".to_string(),
            RwasmAirId::Rotate => "Rotate".to_string(),
            RwasmAirId::Trailing => "Trailing".to_string(),
            RwasmAirId::MemoryInstrs => "MemoryInstrs".to_string(),
            RwasmAirId::Auipc => "Auipc".to_string(),
            RwasmAirId::Branch => "Branch".to_string(),
            RwasmAirId::Call => "Call".to_string(),
            RwasmAirId::Jump => "Jump".to_string(),
            RwasmAirId::SyscallInstrs => "SyscallInstrs".to_string(),
            RwasmAirId::Byte => "Byte".to_string(),
            RwasmAirId::MemoryGlobalInit => "MemoryGlobalInit".to_string(),
            RwasmAirId::MemoryGlobalFinalize => "MemoryGlobalFinalize".to_string(),
            RwasmAirId::MemoryLocal => "MemoryLocal".to_string(),
            RwasmAirId::Global => "Global".to_string(),
        }
    }
}

/// The first table among those from a position on that has a name, if there is one.
pub open spec fn air_named(name: Seq<char>, from: int) -> Option<RwasmAirId>
    decreases NUM_AIRS - from,
{
    if from < 0 || from >= NUM_AIRS {
        None
    } else if air_at(from).name_chars() == name {
        Some(air_at(from))
    } else {
        air_named(name, from + 1)
    }
}

impl RwasmAirId {
    /// Finds the table with a name, if there is one.
    pub fn from_name(name: &String) -> (air: Option<RwasmAirId>)
        ensures
            air == air_named(name@, 0),
            air matches Some(a) ==> a.name_chars() == name@,
    {
        let mut i: u8 = 0;
        while i < NUM_AIRS
            invariant
                i <= NUM_AIRS,
                air_named(name@, 0) == air_named(name@, i as int),
            decreases NUM_AIRS - i,
        {
            if let Some(air) = RwasmAirId::from_index(i) {
                proof {
                    air_codes_distinct(air, air);
                }
                if air.name() == *name {
                    return Some(air);
                }
            }
            i = i + 1;
        }
        None
    }
}

/// The table at a position.
pub open spec fn air_at(position: int) -> RwasmAirId {
    choose|air: RwasmAirId| air.code() == position
}

/// No two tables share a name.
#[verifier::spinoff_prover]
#[verifier::rlimit(100)]
pub proof fn air_names_distinct(a: RwasmAirId, b: RwasmAirId)
    ensures
        a.name_chars() == b.name_chars() <==> a == b,
{
    reveal(RwasmAirId::name_chars);
    reveal_strlit("Cpu");
    reveal_strlit("Program");
    reveal_strlit("ShaExtend");
    reveal_strlit("ShaCompress");
    reveal_strlit("EdAddAssign");
    reveal_strlit("EdDecompress");
    reveal_strlit("Secp256k1Decompress");
    reveal_strlit("Secp256k1AddAssign");
    reveal_strlit("Secp256k1DoubleAssign");
    reveal_strlit("Secp256r1Decompress");
    reveal_strlit("Secp256r1AddAssign");
    reveal_strlit("Secp256r1DoubleAssign");
    reveal_strlit("KeccakPermute");
    reveal_strlit("Bn254AddAssign");
    reveal_strlit("Bn254DoubleAssign");
    reveal_strlit("Bls12381AddAssign");
    reveal_strlit("Bls12381DoubleAssign");
    reveal_strlit("Uint256MulMod");
    reveal_strlit("U256XU2048Mul");
    reveal_strlit("Bls12381FpOpAssign");
    reveal_strlit("Bls12381Fp2MulAssign");
    reveal_strlit("Bls12381Fp2AddSubAssign");
    reveal_strlit("Bn254FpOpAssign");
    reveal_strlit("Bn254Fp2MulAssign");
    reveal_strlit("Bn254Fp2AddSubAssign");
    reveal_strlit("Bls12381Decompress");
    reveal_strlit("TableInit");
    reveal_strlit("TableGrow");
    reveal_strlit("SyscallCore");
    reveal_strlit("SyscallPrecompile");
    reveal_strlit("DivRem");
    reveal_strlit("AddSub");
    reveal_strlit("Bitwise");
    reveal_strlit("Mul");
    reveal_strlit("ShiftRight");
    reveal_strlit("ShiftLeft");
    reveal_strlit("Lt");
    reveal_strlit("Rotate");
    reveal_strlit("Trailing");
    reveal_strlit("MemoryInstrs");
    reveal_strlit("Auipc");
    reveal_strlit("Branch");
    reveal_strlit("Call");
    reveal_strlit("Jump");
    reveal_strlit("SyscallInstrs");
    reveal_strlit("Byte");
    reveal_strlit("MemoryGlobalInit");
    reveal_strlit("MemoryGlobalFinalize");
    reveal_strlit("MemoryLocal");
    reveal_strlit("Global");
    let x = a.name_chars();
    let y = b.name_chars();
    assert(x == y ==> x.len() == y.len());
    assert(x == y ==> x[0] == y[0]);
    assert(x == y ==> x[7] == y[7]);
    assert(x == y ==> x[8] == y[8]);
}

/// Every table is found by its name.
pub proof fn air_is_found_by_name(air: RwasmAirId)
    ensures
        air_named(air.name_chars(), 0) == Some(air),
{
    found_from(air, 0);
}

proof fn found_from(air: RwasmAirId, from: int)
    requires
        0 <= from <= air.code(),
    ensures
        air_named(air.name_chars(), from) == Some(air),
    decreases air.code() - from,
{
    air_codes_distinct(air, air);
    air_names_distinct(air, air_at(from));
    if from < air.code() {
        air_at_position(from as u8);
        found_from(air, from + 1);
    }
}

/// Every position below the number of tables is that of a table.
pub proof fn air_at_position(position: u8)
    requires
        position < NUM_AIRS,
    ensures
        air_at(position as int).code() == position,
{
    let air = match position {
        0 => RwasmAirId::Cpu,
        1 => RwasmAirId::Program,
        2 => RwasmAirId::ShaExtend,
        3 => RwasmAirId::ShaCompress,
        4 => RwasmAirId::EdAddAssign,
        5 => RwasmAirId::EdDecompress,
        6 => RwasmAirId::Secp256k1Decompress,
        7 => RwasmAirId::Secp256k1AddAssign,
        8 => RwasmAirId::Secp256k1DoubleAssign,
        9 => RwasmAirId::Secp256r1Decompress,
        10 => RwasmAirId::Secp256r1AddAssign,
        11 => RwasmAirId::Secp256r1DoubleAssign,
        12 => RwasmAirId::KeccakPermute,
        13 => RwasmAirId::Bn254AddAssign,
        14 => RwasmAirId::Bn254DoubleAssign,
        15 => RwasmAirId::Bls12381AddAssign,
        16 => RwasmAirId::Bls12381DoubleAssign,
        17 => RwasmAirId::Uint256MulMod,
        18 => RwasmAirId::U256XU2048Mul,
        19 => RwasmAirId::Bls12381FpOpAssign,
        20 => RwasmAirId::Bls12381Fp2MulAssign,
        21 => RwasmAirId::Bls12381Fp2AddSubAssign,
        22 => RwasmAirId::Bn254FpOpAssign,
        23 => RwasmAirId::Bn254Fp2MulAssign,
        24 => RwasmAirId::Bn254Fp2AddSubAssign,
        25 => RwasmAirId::Bls12381Decompress,
        26 => RwasmAirId::TableInit,
        27 => RwasmAirId::TableGrow,
        28 => RwasmAirId::SyscallCore,
        29 => RwasmAirId::SyscallPrecompile,
        30 => RwasmAirId::DivRem,
        31 => RwasmAirId::AddSub,
        32 => RwasmAirId::Bitwise,
        33 => RwasmAirId::Mul,
        34 => RwasmAirId::ShiftRight,
        35 => RwasmAirId::ShiftLeft,
        36 => RwasmAirId::Lt,
        37 => RwasmAirId::Rotate,
        38 => RwasmAirId::Trailing,
        39 => RwasmAirId::MemoryInstrs,
        40 => RwasmAirId::Auipc,
        41 => RwasmAirId::Branch,
        42 => RwasmAirId::Call,
        43 => RwasmAirId::Jump,
        44 => RwasmAirId::SyscallInstrs,
        45 => RwasmAirId::Byte,
        46 => RwasmAirId::MemoryGlobalInit,
        47 => RwasmAirId::MemoryGlobalFinalize,
        48 => RwasmAirId::MemoryLocal,
        _ => RwasmAirId::Global,
    };
    assert(air.code() == position);
}

/// No two tables share a position.
pub proof fn air_codes_distinct(a: RwasmAirId, b: RwasmAirId)
    ensures
        a.code() == b.code() <==> a == b,
        a.code() < NUM_AIRS,
        air_at(a.code() as int) == a,
{
}

impl CoreAirId {
    /// The table of the whole machine that this core table is.
    pub open spec fn air(self) -> RwasmAirId {
        match self {
            CoreAirId::Cpu => RwasmAirId::Cpu,
            CoreAirId::AddSub => RwasmAirId::AddSub,
            CoreAirId::Lt => RwasmAirId::Lt,
            CoreAirId::MemoryLocal => RwasmAirId::MemoryLocal,
            CoreAirId::DivRem => RwasmAirId::DivRem,
            CoreAirId::Bitwise => RwasmAirId::Bitwise,
            CoreAirId::Rotate => RwasmAirId::Rotate,
            CoreAirId::Trailing => RwasmAirId::Trailing,
            CoreAirId::Mul => RwasmAirId::Mul,
            CoreAirId::ShiftRight => RwasmAirId::ShiftRight,
            CoreAirId::ShiftLeft => RwasmAirId::ShiftLeft,
            CoreAirId::MemoryInstrs => RwasmAirId::MemoryInstrs,
            CoreAirId::Auipc => RwasmAirId::Auipc,
            CoreAirId::Branch => RwasmAirId::Branch,
            CoreAirId::Call => RwasmAirId::Call,
            CoreAirId::Jump => RwasmAirId::Jump,
            CoreAirId::SyscallCore => RwasmAirId::SyscallCore,
            CoreAirId::SyscallInstrs => RwasmAirId::SyscallInstrs,
            CoreAirId::Global => RwasmAirId::Global,
        }
    }

    /// The position of the table in the list of core tables.
    pub open spec fn position(self) -> nat {
        match self {
            CoreAirId::Cpu => 0,
            CoreAirId::AddSub => 1,
            CoreAirId::Lt => 2,
            CoreAirId::MemoryLocal => 3,
            CoreAirId::DivRem => 4,
            CoreAirId::Bitwise => 5,
            CoreAirId::Rotate => 6,
            CoreAirId::Trailing => 7,
            CoreAirId::Mul => 8,
            CoreAirId::ShiftRight => 9,
            CoreAirId::ShiftLeft => 10,
            CoreAirId::MemoryInstrs => 11,
            CoreAirId::Auipc => 12,
            CoreAirId::Branch => 13,
            CoreAirId::Call => 14,
            CoreAirId::Jump => 15,
            CoreAirId::SyscallCore => 16,
            CoreAirId::SyscallInstrs => 17,
            CoreAirId::Global => 18,
        }
    }

    /// Returns the table of the whole machine that this core table is.
    pub fn to_air(self) -> (air: RwasmAirId)
        ensures
            air == self.air(),
    {
        match self {
            CoreAirId::Cpu => RwasmAirId::Cpu,
            CoreAirId::AddSub => RwasmAirId::AddSub,
            CoreAirId::Lt => RwasmAirId::Lt,
            CoreAirId::MemoryLocal => RwasmAirId::MemoryLocal,
            CoreAirId::DivRem => RwasmAirId::DivRem,
            CoreAirId::Bitwise => RwasmAirId::Bitwise,
            CoreAirId::Rotate => RwasmAirId::Rotate,
            CoreAirId::Trailing => RwasmAirId::Trailing,
            CoreAirId::Mul => RwasmAirId::Mul,
            CoreAirId::ShiftRight => RwasmAirId::ShiftRight,
            CoreAirId::ShiftLeft => RwasmAirId::ShiftLeft,
            CoreAirId::MemoryInstrs => RwasmAirId::MemoryInstrs,
            CoreAirId::Auipc => RwasmAirId::Auipc,
            CoreAirId::Branch => RwasmAirId::Branch,
            CoreAirId::Call => RwasmAirId::Call,
            CoreAirId::Jump => RwasmAirId::Jump,
            CoreAirId::SyscallCore => RwasmAirId::SyscallCore,
            CoreAirId::SyscallInstrs => RwasmAirId::SyscallInstrs,
            CoreAirId::Global => RwasmAirId::Global,
        }
    }

    /// Returns the core table at a position, if there is one.
    pub fn at(position: usize) -> (air: Option<CoreAirId>)
        ensures
            air is Some <==> position < NUM_CORE_AIRS,
            air matches Some(a) ==> a.position() == position,
    {
        match position {
            0 => Some(CoreAirId::Cpu),
            1 => Some(CoreAirId::AddSub),
            2 => Some(CoreAirId::Lt),
            3 => Some(CoreAirId::MemoryLocal),
            4 => Some(CoreAirId::DivRem),
            5 => Some(CoreAirId::Bitwise),
            6 => Some(CoreAirId::Rotate),
            7 => Some(CoreAirId::Trailing),
            8 => Some(CoreAirId::Mul),
            9 => Some(CoreAirId::ShiftRight),
            10 => Some(CoreAirId::ShiftLeft),
            11 => Some(CoreAirId::MemoryInstrs),
            12 => Some(CoreAirId::Auipc),
            13 => Some(CoreAirId::Branch),
            14 => Some(CoreAirId::Call),
            15 => Some(CoreAirId::Jump),
            16 => Some(CoreAirId::SyscallCore),
            17 => Some(CoreAirId::SyscallInstrs),
            18 => Some(CoreAirId::Global),
            _ => None,
        }
    }
}

} // verus!
