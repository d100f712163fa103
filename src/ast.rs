//! Values shared by the tree stages of a program representation, the
//! package manifest, and the representation itself.
use vstd::prelude::*;
use crate::file::{FileId, FileSources};
use crate::named;
use crate::typed;

verus! {

/// A source range: file identity and byte offsets `[start, end)`.
#[derive(Clone, Copy, Debug, PartialEq, Eq, Structural)]
pub struct Loc {
    pub file: FileId,
    pub start: u32,
    pub end: u32,
}

/// A 256-bit unsigned number as its high and low halves.
#[derive(Clone, Copy, Debug, PartialEq, Eq, Structural)]
pub struct U256 {
    pub hi: u128,
    pub lo: u128,
}

impl U256 {
    pub open spec fn value(&self) -> int {
        self.hi * 0x1_0000_0000_0000_0000_0000_0000_0000_0000int + self.lo
    }

    pub fn from_u128(lo: u128) -> (r: Self)
        ensures
            r.value() == lo,
    {
        U256 { hi: 0, lo }
    }

    pub fn is_zero(&self) -> (r: bool)
        ensures
            r == (self.value() == 0),
    {
        self.hi == 0 && self.lo == 0
    }

    /// Whether the number is at least `n`.
    pub fn at_least(&self, n: u128) -> (r: bool)
        ensures
            r == (self.value() >= n),
    {
        self.hi > 0 || self.lo >= n
    }
}

/// An account address, as its bytes in big-endian order.
#[derive(Clone, Debug)]
pub struct Address {
    pub bytes: Vec<u8>,
}

/// The types that the rules tell apart.
#[derive(Clone, Copy, Debug, PartialEq, Eq, Structural)]
pub enum BuiltinType {
    Address,
    Signer,
    Bool,
    U8,
    U16,
    U32,
    U64,
    U128,
    U256,
}

/// A type: a builtin one, or any other, named by an identity that the
/// front end gives each distinct type.
#[derive(Clone, Copy, Debug, PartialEq, Eq, Structural)]
pub enum Type {
    Builtin(BuiltinType),
    Other(u64),
}

/// The width in bits of an unsigned integer type.
pub open spec fn bit_width(t: Type) -> Option<u128> {
    match t {
        Type::Builtin(BuiltinType::U8) => Some(8),
        Type::Builtin(BuiltinType::U16) => Some(16),
        Type::Builtin(BuiltinType::U32) => Some(32),
        Type::Builtin(BuiltinType::U64) => Some(64),
        Type::Builtin(BuiltinType::U128) => Some(128),
        Type::Builtin(BuiltinType::U256) => Some(256),
        _ => None,
    }
}

impl Type {
    pub fn bit_width(&self) -> (r: Option<u128>)
        ensures
            r == bit_width(*self),
    {
        match self {
            Type::Builtin(BuiltinType::U8) => Some(8),
            Type::Builtin(BuiltinType::U16) => Some(16),
            Type::Builtin(BuiltinType::U32) => Some(32),
            Type::Builtin(BuiltinType::U64) => Some(64),
            Type::Builtin(BuiltinType::U128) => Some(128),
            Type::Builtin(BuiltinType::U256) => Some(256),
            _ => None,
        }
    }
}

/// A constant value. A number written without a suffix is `InferredNum`.
#[derive(Clone, Copy, Debug, PartialEq, Eq, Structural)]
pub enum Value {
    Address,
    InferredNum(U256),
    U8(u8),
    U16(u16),
    U32(u32),
    U64(u64),
    U128(u128),
    U256(U256),
    Bool(bool),
    Bytearray,
}

/// The number a numeric constant denotes.
pub open spec fn numeric_value(v: Value) -> Option<int> {
    match v {
        Value::InferredNum(n) => Some(n.value()),
        Value::U256(n) => Some(n.value()),
        Value::U8(n) => Some(n as int),
        Value::U16(n) => Some(n as int),
        Value::U32(n) => Some(n as int),
        Value::U64(n) => Some(n as int),
        Value::U128(n) => Some(n as int),
        _ => None,
    }
}

impl Value {
    /// Whether the value is a number equal to zero.
    pub fn is_zero(&self) -> (r: bool)
        ensures
            r == (numeric_value(*self) == Some(0int)),
    {
        match self {
            Value::InferredNum(n) => n.is_zero(),
            Value::U256(n) => n.is_zero(),
            Value::U8(n) => *n == 0,
            Value::U16(n) => *n == 0,
            Value::U32(n) => *n == 0,
            Value::U64(n) => *n == 0,
            Value::U128(n) => *n == 0,
            _ => false,
        }
    }

    /// Whether the value is a number at least `bound`.
    pub fn at_least(&self, bound: u128) -> (r: bool)
        ensures
            r == (numeric_value(*self) matches Some(n) && n >= bound),
    {
        match self {
            Value::InferredNum(n) => n.at_least(bound),
            Value::U256(n) => n.at_least(bound),
            Value::U8(n) => *n as u128 >= bound,
            Value::U16(n) => *n as u128 >= bound,
            Value::U32(n) => *n as u128 >= bound,
            Value::U64(n) => *n as u128 >= bound,
            Value::U128(n) => *n >= bound,
            _ => false,
        }
    }
}

/// Binary operators.
#[derive(Clone, Copy, Debug, PartialEq, Eq, Structural)]
pub enum BinOp {
    Add,
    Sub,
    Mul,
    Mod,
    Div,
    BitOr,
    BitAnd,
    Xor,
    Shl,
    Shr,
    Range,
    Implies,
    Iff,
    And,
    Or,
    Eq,
    Neq,
    Lt,
    Gt,
    Le,
    Ge,
}

/// Built-in functions of the language.
#[derive(Clone, Copy, Debug, PartialEq, Eq, Structural)]
pub enum BuiltinFunction {
    MoveTo,
    MoveFrom,
    BorrowGlobal,
    Exists,
    Freeze,
    Assert,
}

/// Who may call a function.
#[derive(Clone, Copy, Debug, PartialEq, Eq, Structural)]
pub enum Visibility {
    Public,
    Friend,
    Script,
    Internal,
}

/// A module's address and name.
#[derive(Clone, Debug)]
pub struct ModuleIdent {
    pub address: Address,
    /// The address as the front end prints it: its name where it has one,
    /// else its numeric literal.
    pub address_name: String,
    pub module: String,
}

/// Where a dependency comes from.
#[derive(Debug)]
pub enum DependencyKind {
    Local,
    Git { git_rev: String },
    Custom,
}

/// One declared dependency of a package.
#[derive(Debug)]
pub struct Dependency {
    pub name: String,
    pub kind: DependencyKind,
}

/// The package manifest's dependency declarations.
#[derive(Debug)]
pub struct SourceManifest {
    pub dependencies: Vec<Dependency>,
    pub dev_dependencies: Vec<Dependency>,
}

/// One compiled package, as the rules see it: its source files, its
/// manifest, its name-resolved and typed tree stages, and its build mode.
pub struct PackageAst {
    pub files: FileSources,
    pub manifest: SourceManifest,
    pub naming: Vec<named::Module>,
    pub typing: Vec<typed::Module>,
    pub dev_mode: bool,
}

} // verus!
