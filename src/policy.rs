use vstd::prelude::*;
use crate::dtype::{LogicalType, TimeUnit};

verus! {

/// What to do when a column's conversion loses range or precision.
#[derive(Debug, Clone, Copy, PartialEq, Eq, Structural)]
pub enum LossyAction {
    /// Go on silently.
    Allow,
    /// Go on and report the type.
    Warn,
    /// Abort the whole conversion.
    Error,
}

/// How duration columns are written.
#[derive(Debug, Clone, Copy, PartialEq, Eq, Structural)]
pub enum DurationFormat {
    /// The integer count of the column's unit.
    Physical,
    /// The integer count followed by the unit's suffix, as text.
    Unit,
    /// A human-readable duration; not available.
    Human,
}

/// The configuration of one conversion run.
#[derive(Debug, Clone, Copy, PartialEq, Eq, Structural)]
pub struct ConvertOptions {
    pub lossy_action: LossyAction,
    pub duration_format: DurationFormat,
}

impl ConvertOptions {
    /// Lossy conversions allowed, durations written as plain counts.
    pub fn new() -> (r: ConvertOptions)
        ensures
            r.lossy_action == LossyAction::Allow,
            r.duration_format == DurationFormat::Physical,
    {
        ConvertOptions { lossy_action: LossyAction::Allow, duration_format: DurationFormat::Physical }
    }
}

/// A path that this library does not provide.
#[derive(Debug, Clone, Copy, PartialEq, Eq, Structural)]
pub enum Unavailable {
    /// The human-readable duration format.
    HumanDuration,
}

/// Why a conversion run stopped.
#[derive(Debug, Clone, Copy, PartialEq, Eq, Structural)]
pub enum ConvertError {
    /// The column type has no representation in a spreadsheet.
    Unsupported(LogicalType),
    /// The conversion of this type is lossy and the policy is to abort.
    LossyAborted(LogicalType),
    /// The type has no dedicated transformation.
    CannotProcess(LogicalType),
    /// The selected path is not available.
    NotImplemented(Unavailable),
}

/// A diagnostic that does not stop the run.
#[derive(Debug, Clone, Copy, PartialEq, Eq, Structural)]
pub enum Notice {
    /// A column of this type is converted with loss.
    Lossy(LogicalType),
    /// The duration column at this position is written as a count of this unit.
    DurationAsNumber { column: usize, unit: TimeUnit },
}

/// The lossy policy's verdict on a lossy type.
pub open spec fn lossy_verdict(t: LogicalType, o: ConvertOptions) -> Result<Option<Notice>, ConvertError> {
    match o.lossy_action {
        LossyAction::Allow => Ok(None),
        LossyAction::Warn => Ok(Some(Notice::Lossy(t))),
        LossyAction::Error => Err(ConvertError::LossyAborted(t)),
    }
}

/// The notices that an optional notice amounts to.
pub open spec fn notices_of(n: Option<Notice>) -> Seq<Notice> {
    match n {
        Some(x) => seq![x],
        None => seq![],
    }
}

/// Applies the lossy policy to a type whose conversion is lossy: allow it,
/// allow it with a notice, or abort with the type.
pub fn lossy_action(dtype: &LogicalType, options: &ConvertOptions) -> (r: Result<
    Option<Notice>,
    ConvertError,
>)
    ensures
        r == lossy_verdict(*dtype, *options),
{
    match options.lossy_action {
        LossyAction::Allow => Ok(None),
        LossyAction::Warn => Ok(Some(Notice::Lossy(*dtype))),
        LossyAction::Error => Err(ConvertError::LossyAborted(*dtype)),
    }
}

} // verus!
