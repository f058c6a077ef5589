//! `bool`, which SQLite keeps as an integer.

use vstd::prelude::*;

verus! {

/// The types that SQLite tells apart.
#[derive(Debug, Clone, Copy, PartialEq, Eq)]
pub enum DataType {
    /// No value.
    Null,
    /// An integer.
    Int,
    /// A floating-point number.
    Float,
    /// A text.
    Text,
    /// A sequence of bytes.
    Blob,
    /// A truth value.
    Bool,
}

/// The type of a SQLite value.
#[derive(Debug, Clone, Copy, PartialEq, Eq)]
pub struct SqliteTypeInfo(pub DataType);

/// A value that is bound to a statement.
#[derive(Debug, PartialEq, Eq)]
pub enum SqliteArgumentValue {
    /// No value.
    Null,
    /// An integer.
    Int(i32),
}

/// Whether a value was bound as null.
#[derive(Debug, Clone, Copy, PartialEq, Eq)]
pub enum IsNull {
    /// It was.
    Yes,
    /// It was not.
    No,
}

/// A value that SQLite gave, read as an integer.
#[derive(Debug, Clone, Copy, PartialEq, Eq)]
pub struct SqliteValueRef {
    number: i32,
}

impl SqliteValueRef {
    /// The integer that SQLite reads the value as.
    pub closed spec fn number(&self) -> i32 {
        self.number
    }

    /// A value that SQLite reads as this integer.
    pub fn new(number: i32) -> (value: Self)
        ensures
            value.number() == number,
    {
        SqliteValueRef { number }
    }

    /// The integer that SQLite reads the value as.
    pub fn as_int(&self) -> (number: i32)
        ensures
            number == self.number(),
    {
        self.number
    }
}

/// Why a value could not be read.
#[derive(Debug, PartialEq, Eq)]
pub struct DecodeError {
    /// What went wrong.
    pub message: String,
}

/// A Rust type that stands for a SQLite type.
pub trait Type {
    /// The SQLite type.
    fn type_info() -> SqliteTypeInfo;
}

/// A Rust type whose values can be bound to a statement.
pub trait Encode {
    /// Binds the value behind the arguments that are there.
    fn encode_by_ref(&self, args: &mut Vec<SqliteArgumentValue>) -> IsNull;
}

/// A Rust type that values can be read into.
pub trait Decode: Sized {
    /// Whether values of this SQLite type can be read.
    fn accepts(ty: &SqliteTypeInfo) -> bool;

    /// Reads a value.
    fn decode(value: SqliteValueRef) -> Result<Self, DecodeError>;
}

/// The integer that a truth value is kept as.
pub open spec fn bool_to_int(value: bool) -> i32 {
    if value {
        1
    } else {
        0
    }
}

/// The truth value that an integer is read as.
pub open spec fn int_to_bool(number: i32) -> bool {
    number != 0
}

impl Type for bool {
    fn type_info() -> (info: SqliteTypeInfo)
        ensures
            info == SqliteTypeInfo(DataType::Bool),
    {
        SqliteTypeInfo(DataType::Bool)
    }
}

impl Encode for bool {
    fn encode_by_ref(&self, args: &mut Vec<SqliteArgumentValue>) -> (is_null: IsNull)
        ensures
            final(args)@ == old(args)@.push(SqliteArgumentValue::Int(bool_to_int(*self))),
            is_null is No,
    {
        args.push(
            SqliteArgumentValue::Int(
                if *self {
                    1
                } else {
                    0
                },
            ),
        );
        IsNull::No
    }
}

impl Decode for bool {
    fn accepts(_ty: &SqliteTypeInfo) -> (accepted: bool)
        ensures
            accepted,
    {
        true
    }

    fn decode(value: SqliteValueRef) -> (decoded: Result<Self, DecodeError>)
        ensures
            decoded == Ok::<bool, DecodeError>(int_to_bool(value.number())),
    {
        Ok(value.as_int() != 0)
    }
}

/// True is kept as 1 and false as 0, and of all integers 0 alone is read as false.
pub proof fn law_bool_and_int(number: i32)
    ensures
        bool_to_int(true) == 1,
        bool_to_int(false) == 0,
        int_to_bool(number) <==> number != 0,
{
}

/// A truth value that was bound is read back as it was.
pub proof fn law_bool_reads_back(value: bool)
    ensures
        int_to_bool(bool_to_int(value)) == value,
{
}

} // verus!
