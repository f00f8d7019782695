use vstd::prelude::*;

verus! {

/// Resolution of a duration, datetime or time column.
#[derive(Debug, Clone, Copy, PartialEq, Eq, Structural)]
pub enum TimeUnit {
    Nanoseconds,
    Microseconds,
    Milliseconds,
}

/// Logical type of a column, as reported by the table reader. A list
/// column is a list whatever its element type.
#[derive(Debug, Clone, Copy, PartialEq, Eq, Structural)]
pub enum LogicalType {
    UInt8,
    UInt16,
    UInt32,
    UInt64,
    Int8,
    Int16,
    Int32,
    Int64,
    Int128,
    Float32,
    Float64,
    Utf8,
    Null,
    Boolean,
    Date,
    Datetime(TimeUnit),
    Time,
    Duration(TimeUnit),
    Binary,
    BinaryOffset,
    Decimal,
    Categorical,
    Enum,
    Struct,
    List,
    Unknown,
}

/// The extended types that a build of the reader can hand over. A type
/// whose support is switched off is treated as unrecognised.
#[derive(Debug, Clone, Copy, PartialEq, Eq, Structural)]
pub struct TypeSupport {
    pub decimals: bool,
    pub categoricals: bool,
    /// Treat date, datetime and time columns as lossy: a spreadsheet date
    /// cell drops the time zone and sub-second precision.
    pub strict_temporal: bool,
}

impl TypeSupport {
    /// Every extended type enabled, temporal columns treated as lossy.
    pub fn full() -> (r: TypeSupport)
        ensures
            r.decimals && r.categoricals && r.strict_temporal,
    {
        TypeSupport { decimals: true, categoricals: true, strict_temporal: true }
    }
}

/// What a column needs before it can be written to a spreadsheet.
#[derive(Debug, Clone, Copy, PartialEq, Eq, Structural)]
pub enum Conversion {
    /// Written as it is.
    Pass,
    /// Written as it is, with loss of range or precision.
    Lossy,
    /// Re-typed to the given type before writing.
    Convert(LogicalType),
    /// Rewritten by a dedicated transformation (lists, durations).
    Process,
    /// Cannot be written at all.
    Error,
}

/// The classification rules.
pub open spec fn conversion_of(t: LogicalType, s: TypeSupport) -> Conversion {
    match t {
        LogicalType::UInt8 | LogicalType::UInt16 | LogicalType::UInt32 | LogicalType::Int8
        | LogicalType::Int16 | LogicalType::Int32 | LogicalType::Float32 | LogicalType::Float64
        | LogicalType::Utf8 | LogicalType::Null | LogicalType::Boolean => Conversion::Pass,
        LogicalType::Date | LogicalType::Datetime(_) | LogicalType::Time => if s.strict_temporal {
            Conversion::Lossy
        } else {
            Conversion::Pass
        },
        LogicalType::Int64 | LogicalType::Int128 | LogicalType::UInt64 => Conversion::Lossy,
        LogicalType::Binary => Conversion::Convert(LogicalType::Utf8),
        LogicalType::Categorical | LogicalType::Enum => if s.categoricals {
            Conversion::Convert(LogicalType::Utf8)
        } else {
            Conversion::Error
        },
        LogicalType::Decimal => if s.decimals {
            Conversion::Convert(LogicalType::Float64)
        } else {
            Conversion::Error
        },
        LogicalType::List | LogicalType::Duration(_) => Conversion::Process,
        LogicalType::Struct | LogicalType::Unknown | LogicalType::BinaryOffset => Conversion::Error,
    }
}

/// Classifies a column type. A type that support is switched off for, or
/// that is not recognised, is an error, never a pass.
pub fn map_supported(dtype: &LogicalType, support: TypeSupport) -> (r: Conversion)
    ensures
        r == conversion_of(*dtype, support),
{
    match dtype {
        LogicalType::UInt8 | LogicalType::UInt16 | LogicalType::UInt32 | LogicalType::Int8
        | LogicalType::Int16 | LogicalType::Int32 | LogicalType::Float32 | LogicalType::Float64
        | LogicalType::Utf8 | LogicalType::Null | LogicalType::Boolean => Conversion::Pass,
        LogicalType::Date | LogicalType::Datetime(_) | LogicalType::Time => {
            if support.strict_temporal {
                Conversion::Lossy
            } else {
                Conversion::Pass
            }
        },
        LogicalType::Int64 | LogicalType::Int128 | LogicalType::UInt64 => Conversion::Lossy,
        LogicalType::Binary => Conversion::Convert(LogicalType::Utf8),
        LogicalType::Categorical | LogicalType::Enum => {
            if support.categoricals {
                Conversion::Convert(LogicalType::Utf8)
            } else {
                Conversion::Error
            }
        },
        LogicalType::Decimal => {
            if support.decimals {
                Conversion::Convert(LogicalType::Float64)
            } else {
                Conversion::Error
            }
        },
        LogicalType::List | LogicalType::Duration(_) => Conversion::Process,
        LogicalType::Struct | LogicalType::Unknown | LogicalType::BinaryOffset => Conversion::Error,
    }
}

/// The target of every re-typing is itself written as it is.
pub proof fn lemma_convert_target_passes(t: LogicalType, s: TypeSupport)
    ensures
        conversion_of(t, s) is Convert ==> conversion_of(
            conversion_of(t, s)->Convert_0,
            s,
        ) == Conversion::Pass,
{
}

} // verus!
