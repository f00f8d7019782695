use vstd::prelude::*;
use crate::text::{
    decimal, list_view, process_duration_value, process_list, unit_suffix, DurationCell, Scalar,
};
use crate::dtype::{conversion_of, map_supported, Conversion, LogicalType, TimeUnit, TypeSupport};
use crate::policy::{
    lossy_verdict, lossy_action, notices_of, ConvertError, ConvertOptions, DurationFormat, LossyAction, Notice,
    Unavailable,
};

verus! {

/// The rewrite of one column; `action_on_cell` states what each one does to
/// a cell, but for a re-typing, which the table library carries out.
#[derive(Debug, Clone, Copy, PartialEq, Eq, Structural)]
pub enum ColumnAction {
    /// Re-type the column.
    Cast(LogicalType),
    /// Render each list as its elements' text, joined by commas, in brackets.
    ListToText,
    /// Replace each duration by its integer count of the unit.
    DurationMagnitude(TimeUnit),
    /// Replace each duration by its count followed by the unit's suffix.
    DurationText(TimeUnit),
}

/// A rewrite of the column at a position, which keeps the column's name.
#[derive(Debug, Clone, Copy, PartialEq, Eq, Structural)]
pub struct Replacement {
    pub column: usize,
    pub action: ColumnAction,
}

/// Every rewrite of a table, each computed against the original table, and
/// the diagnostics issued while deciding them.
#[derive(Debug, PartialEq, Eq)]
pub struct Plan {
    pub replacements: Vec<Replacement>,
    pub notices: Vec<Notice>,
}

/// A cell of a list or duration column, or of its rewrite.
#[derive(Debug, Clone, PartialEq, Eq)]
pub enum Cell {
    Null,
    List(Vec<Scalar>),
    Duration(i64),
    Count(i64),
    Text(String),
}

/// What a cell holds.
pub ghost enum CellView {
    Null,
    List(Seq<Scalar>),
    Duration(i64),
    Count(i64),
    Text(Seq<char>),
}

/// The view of a cell.
pub open spec fn cell_view(c: Cell) -> CellView {
    match c {
        Cell::Null => CellView::Null,
        Cell::List(items) => CellView::List(items@),
        Cell::Duration(v) => CellView::Duration(v),
        Cell::Count(v) => CellView::Count(v),
        Cell::Text(t) => CellView::Text(t@),
    }
}

/// What a rewrite makes of one cell: a null cell stays null, a list becomes
/// its text (`list_view`; null when it holds a null), a duration becomes its
/// count, or its count followed by the unit's suffix. None for a re-typing,
/// and for a cell that the rewrite does not apply to.
pub open spec fn action_on_cell(a: ColumnAction, c: CellView) -> Option<CellView> {
    match a {
        ColumnAction::Cast(_) => None,
        ColumnAction::ListToText => match c {
            CellView::Null => Some(CellView::Null),
            CellView::List(items) => Some(
                match list_view(items) {
                    Some(t) => CellView::Text(t),
                    None => CellView::Null,
                },
            ),
            _ => None,
        },
        ColumnAction::DurationMagnitude(_) => match c {
            CellView::Null => Some(CellView::Null),
            CellView::Duration(v) => Some(CellView::Count(v)),
            _ => None,
        },
        ColumnAction::DurationText(u) => match c {
            CellView::Null => Some(CellView::Null),
            CellView::Duration(v) => Some(CellView::Text(decimal(v as int) + unit_suffix(u))),
            _ => None,
        },
    }
}

/// Applies a list or duration rewrite to one cell (see `action_on_cell`).
pub fn process_cell(action: ColumnAction, cell: &Cell) -> (r: Option<Cell>)
    ensures
        match r {
            Some(x) => action_on_cell(action, cell_view(*cell)) == Some(cell_view(x)),
            None => action_on_cell(action, cell_view(*cell)) is None,
        },
{
    match action {
        ColumnAction::Cast(_) => None,
        ColumnAction::ListToText => match cell {
            Cell::Null => Some(Cell::Null),
            Cell::List(items) => match process_list(items) {
                Some(t) => Some(Cell::Text(t)),
                None => Some(Cell::Null),
            },
            _ => None,
        },
        ColumnAction::DurationMagnitude(u) => match cell {
            Cell::Null => Some(Cell::Null),
            Cell::Duration(v) => match process_duration_value(*v, u, DurationFormat::Physical) {
                Ok(DurationCell::Count(c)) => Some(Cell::Count(c)),
                _ => None,
            },
            _ => None,
        },
        ColumnAction::DurationText(u) => match cell {
            Cell::Null => Some(Cell::Null),
            Cell::Duration(v) => match process_duration_value(*v, u, DurationFormat::Unit) {
                Ok(DurationCell::Text(t)) => Some(Cell::Text(t)),
                _ => None,
            },
            _ => None,
        },
    }
}

/// The dedicated transformation of a list or duration column, with its notices.
pub open spec fn process_spec(col: usize, t: LogicalType, o: ConvertOptions) -> Result<
    (ColumnAction, Seq<Notice>),
    ConvertError,
> {
    match t {
        LogicalType::List => Ok((ColumnAction::ListToText, seq![])),
        LogicalType::Duration(u) => match o.duration_format {
            DurationFormat::Physical => Ok(
                (
                    ColumnAction::DurationMagnitude(u),
                    seq![Notice::DurationAsNumber { column: col, unit: u }],
                ),
            ),
            DurationFormat::Unit => Ok((ColumnAction::DurationText(u), seq![])),
            DurationFormat::Human => Err(ConvertError::NotImplemented(Unavailable::HumanDuration)),
        },
        _ => Err(ConvertError::CannotProcess(t)),
    }
}

/// The rewrites and notices of one column, or the error that stops the run there.
pub open spec fn column_step(col: usize, t: LogicalType, s: TypeSupport, o: ConvertOptions) -> Result<
    (Seq<Replacement>, Seq<Notice>),
    ConvertError,
> {
    match conversion_of(t, s) {
        Conversion::Pass => Ok((seq![], seq![])),
        Conversion::Lossy => match lossy_verdict(t, o) {
            Err(e) => Err(e),
            Ok(n) => Ok((seq![], notices_of(n))),
        },
        Conversion::Convert(target) => Ok(
            (seq![Replacement { column: col, action: ColumnAction::Cast(target) }], seq![]),
        ),
        Conversion::Process => match process_spec(col, t, o) {
            Err(e) => Err(e),
            Ok((a, ns)) => Ok((seq![Replacement { column: col, action: a }], ns)),
        },
        Conversion::Error => Err(ConvertError::Unsupported(t)),
    }
}

/// The plan of the first `n` columns: their steps in order, stopping at the
/// first error.
pub open spec fn plan_prefix(
    types: Seq<LogicalType>,
    n: nat,
    s: TypeSupport,
    o: ConvertOptions,
) -> Result<(Seq<Replacement>, Seq<Notice>), ConvertError>
    decreases n,
{
    if n == 0 {
        Ok((seq![], seq![]))
    } else {
        match plan_prefix(types, (n - 1) as nat, s, o) {
            Err(e) => Err(e),
            Ok((rs, ns)) => match column_step((n - 1) as usize, types[n - 1], s, o) {
                Err(e) => Err(e),
                Ok((r2, n2)) => Ok((rs + r2, ns + n2)),
            },
        }
    }
}

/// The plan of a whole table with these column types.
pub open spec fn plan_of(types: Seq<LogicalType>, s: TypeSupport, o: ConvertOptions) -> Result<
    (Seq<Replacement>, Seq<Notice>),
    ConvertError,
> {
    plan_prefix(types, types.len(), s, o)
}

/// Once the plan of a prefix fails, the plan of every longer prefix fails alike.
pub proof fn lemma_error_persists(
    types: Seq<LogicalType>,
    n: nat,
    m: nat,
    s: TypeSupport,
    o: ConvertOptions,
)
    requires
        n <= m,
        plan_prefix(types, n, s, o) is Err,
    ensures
        plan_prefix(types, m, s, o) == plan_prefix(types, n, s, o),
    decreases m - n,
{
    if n < m {
        lemma_error_persists(types, n, (m - 1) as nat, s, o);
    }
}

/// A column whose own step fails makes the plan of the whole table fail.
proof fn lemma_step_error_aborts(types: Seq<LogicalType>, i: int, s: TypeSupport, o: ConvertOptions)
    requires
        0 <= i < types.len(),
        column_step(i as usize, types[i], s, o) is Err,
    ensures
        plan_of(types, s, o) is Err,
{
    let n = (i + 1) as nat;
    assert(plan_prefix(types, n, s, o) is Err);
    lemma_error_persists(types, n, types.len(), s, o);
}

/// Every rewrite of a successful plan names an earlier column whose type is
/// re-typed or processed.
proof fn lemma_replacement_columns(types: Seq<LogicalType>, n: nat, s: TypeSupport, o: ConvertOptions)
    requires
        n <= types.len() <= usize::MAX,
        plan_prefix(types, n, s, o) is Ok,
    ensures
        forall|k: int|
            0 <= k < plan_prefix(types, n, s, o)->Ok_0.0.len() ==> {
                let c = (#[trigger] plan_prefix(types, n, s, o)->Ok_0.0[k]).column;
                &&& c < n
                &&& (conversion_of(types[c as int], s) is Convert || conversion_of(
                    types[c as int],
                    s,
                ) is Process)
            },
    decreases n,
{
    if n > 0 {
        let m = (n - 1) as nat;
        if plan_prefix(types, m, s, o) is Err {
            lemma_error_persists(types, m, n, s, o);
        }
        lemma_replacement_columns(types, m, s, o);
        let rs = plan_prefix(types, m, s, o)->Ok_0.0;
        let r2 = column_step(m as usize, types[m as int], s, o)->Ok_0.0;
        assert forall|k: int| 0 <= k < r2.len() implies {
            let c = (#[trigger] r2[k]).column;
            &&& c == m
            &&& (conversion_of(types[c as int], s) is Convert || conversion_of(types[c as int], s) is Process)
        } by {
            match conversion_of(types[m as int], s) {
                Conversion::Convert(_) => {},
                Conversion::Process => {},
                _ => {},
            }
        }
        let all = plan_prefix(types, n, s, o)->Ok_0.0;
        assert(all == rs + r2);
        assert forall|k: int| 0 <= k < all.len() implies {
            let c = (#[trigger] all[k]).column;
            &&& c < n
            &&& (conversion_of(types[c as int], s) is Convert || conversion_of(types[c as int], s) is Process)
        } by {
            if k < rs.len() {
                assert(all[k] == rs[k]);
            } else {
                assert(all[k] == r2[k - rs.len()]);
            }
        }
    }
}

/// A column that is written as it is gets no rewrite: its values and type
/// reach the output unchanged.
pub proof fn lemma_pass_column_untouched(
    types: Seq<LogicalType>,
    i: int,
    s: TypeSupport,
    o: ConvertOptions,
)
    requires
        0 <= i < types.len() <= usize::MAX,
        conversion_of(types[i], s) == Conversion::Pass,
        plan_of(types, s, o) is Ok,
    ensures
        forall|k: int|
            0 <= k < plan_of(types, s, o)->Ok_0.0.len() ==> (#[trigger] plan_of(
                types,
                s,
                o,
            )->Ok_0.0[k]).column != i,
{
    lemma_replacement_columns(types, types.len(), s, o);
}

/// A column that cannot be written makes the whole run fail, whatever the
/// lossy policy.
pub proof fn lemma_error_column_aborts(
    types: Seq<LogicalType>,
    i: int,
    s: TypeSupport,
    o: ConvertOptions,
)
    requires
        0 <= i < types.len(),
        conversion_of(types[i], s) == Conversion::Error,
    ensures
        plan_of(types, s, o) is Err,
{
    lemma_step_error_aborts(types, i, s, o);
}

/// One notice for each lossy column among the first `n`, in column order.
pub open spec fn lossy_notices(types: Seq<LogicalType>, n: nat, s: TypeSupport) -> Seq<Notice>
    decreases n,
{
    if n == 0 {
        seq![]
    } else if conversion_of(types[n - 1], s) == Conversion::Lossy {
        lossy_notices(types, (n - 1) as nat, s).push(Notice::Lossy(types[n - 1]))
    } else {
        lossy_notices(types, (n - 1) as nat, s)
    }
}

/// A prefix of pass and lossy columns under a policy that does not abort
/// has no rewrites, and notices only under the warn policy.
proof fn lemma_pass_or_lossy_prefix(types: Seq<LogicalType>, n: nat, s: TypeSupport, o: ConvertOptions)
    requires
        n <= types.len(),
        o.lossy_action != LossyAction::Error,
        forall|j: int|
            0 <= j < types.len() ==> #[trigger] conversion_of(types[j], s) == Conversion::Pass
                || conversion_of(types[j], s) == Conversion::Lossy,
    ensures
        plan_prefix(types, n, s, o) == Ok::<(Seq<Replacement>, Seq<Notice>), ConvertError>(
            (
                seq![],
                if o.lossy_action == LossyAction::Warn {
                    lossy_notices(types, n, s)
                } else {
                    seq![]
                },
            ),
        ),
    decreases n,
{
    if n > 0 {
        lemma_pass_or_lossy_prefix(types, (n - 1) as nat, s, o);
        let t = types[n - 1];
        assert(conversion_of(t, s) == Conversion::Pass || conversion_of(t, s) == Conversion::Lossy);
        assert(Seq::<Replacement>::empty() + Seq::<Replacement>::empty() =~= Seq::<Replacement>::empty());
        assert(Seq::<Notice>::empty() + Seq::<Notice>::empty() =~= Seq::<Notice>::empty());
        let prev = lossy_notices(types, (n - 1) as nat, s);
        assert(prev + Seq::<Notice>::empty() =~= prev);
        assert(prev + seq![Notice::Lossy(t)] =~= prev.push(Notice::Lossy(t)));
    }
}

/// The lossy policy decides the fate of lossy columns: a lossy column is
/// never rewritten; under the abort policy it makes the run fail; under the
/// allow and warn policies a table of pass and lossy columns succeeds with
/// its values unchanged, and the warn policy issues a notice for each lossy
/// column.
pub proof fn lemma_lossy_policy(types: Seq<LogicalType>, i: int, s: TypeSupport, o: ConvertOptions)
    requires
        0 <= i < types.len() <= usize::MAX,
        conversion_of(types[i], s) == Conversion::Lossy,
    ensures
        o.lossy_action == LossyAction::Error ==> plan_of(types, s, o) is Err,
        plan_of(types, s, o) is Ok ==> forall|k: int|
            0 <= k < plan_of(types, s, o)->Ok_0.0.len() ==> (#[trigger] plan_of(
                types,
                s,
                o,
            )->Ok_0.0[k]).column != i,
        (forall|j: int|
            0 <= j < types.len() ==> #[trigger] conversion_of(types[j], s) == Conversion::Pass
                || conversion_of(types[j], s) == Conversion::Lossy) ==> {
            &&& o.lossy_action == LossyAction::Allow ==> plan_of(types, s, o) == Ok::<
                (Seq<Replacement>, Seq<Notice>),
                ConvertError,
            >((seq![], seq![]))
            &&& o.lossy_action == LossyAction::Warn ==> plan_of(types, s, o) is Ok && plan_of(
                types,
                s,
                o,
            )->Ok_0.0.len() == 0 && plan_of(types, s, o)->Ok_0.1.contains(
                Notice::Lossy(types[i]),
            )
        },
{
    if o.lossy_action == LossyAction::Error {
        lemma_step_error_aborts(types, i, s, o);
    }
    if plan_of(types, s, o) is Ok {
        lemma_replacement_columns(types, types.len(), s, o);
    }
    if forall|j: int|
        0 <= j < types.len() ==> #[trigger] conversion_of(types[j], s) == Conversion::Pass
            || conversion_of(types[j], s) == Conversion::Lossy {
        if o.lossy_action != LossyAction::Error {
            lemma_pass_or_lossy_prefix(types, types.len(), s, o);
            if o.lossy_action == LossyAction::Warn {
                lemma_lossy_notice_present(types, types.len(), i, s);
            }
        }
    }
}

/// Each lossy column of a prefix has its notice.
proof fn lemma_lossy_notice_present(types: Seq<LogicalType>, n: nat, i: int, s: TypeSupport)
    requires
        0 <= i < n <= types.len(),
        conversion_of(types[i], s) == Conversion::Lossy,
    ensures
        lossy_notices(types, n, s).contains(Notice::Lossy(types[i])),
    decreases n,
{
    let prev = lossy_notices(types, (n - 1) as nat, s);
    if i == n - 1 {
        let all = prev.push(Notice::Lossy(types[i]));
        assert(all[prev.len() as int] == Notice::Lossy(types[i]));
    } else {
        lemma_lossy_notice_present(types, (n - 1) as nat, i, s);
        let k = choose|k: int| 0 <= k < prev.len() && prev[k] == Notice::Lossy(types[i]);
        if conversion_of(types[n - 1], s) == Conversion::Lossy {
            assert(prev.push(Notice::Lossy(types[n - 1]))[k] == Notice::Lossy(types[i]));
        }
    }
}

/// The lossy notices among these notices, in order.
pub open spec fn lossy_only(ns: Seq<Notice>) -> Seq<Notice>
    decreases ns.len(),
{
    if ns.len() == 0 {
        seq![]
    } else if ns.last() is Lossy {
        lossy_only(ns.drop_last()).push(ns.last())
    } else {
        lossy_only(ns.drop_last())
    }
}

/// Whether one of the first `n` columns cannot be written, or is lossy
/// under the abort policy.
pub open spec fn has_fatal_column(
    types: Seq<LogicalType>,
    n: nat,
    s: TypeSupport,
    o: ConvertOptions,
) -> bool {
    exists|j: int|
        0 <= j < n && (#[trigger] conversion_of(types[j], s) == Conversion::Error || (
        o.lossy_action == LossyAction::Error && conversion_of(types[j], s) == Conversion::Lossy))
}

/// A prefix without a fatal column succeeds, and its lossy notices are one
/// per lossy column under the warn policy and none otherwise.
proof fn lemma_outcome_prefix(types: Seq<LogicalType>, n: nat, s: TypeSupport, o: ConvertOptions)
    requires
        n <= types.len() <= usize::MAX,
        o.duration_format != DurationFormat::Human,
        !has_fatal_column(types, n, s, o),
    ensures
        plan_prefix(types, n, s, o) is Ok,
        lossy_only(plan_prefix(types, n, s, o)->Ok_0.1) == if o.lossy_action == LossyAction::Warn {
            lossy_notices(types, n, s)
        } else {
            seq![]
        },
    decreases n,
{
    if n > 0 {
        let m = (n - 1) as nat;
        assert(!has_fatal_column(types, m, s, o)) by {
            if has_fatal_column(types, m, s, o) {
                let j = choose|j: int|
                    0 <= j < m && (#[trigger] conversion_of(types[j], s) == Conversion::Error || (
                    o.lossy_action == LossyAction::Error && conversion_of(types[j], s)
                        == Conversion::Lossy));
                assert(0 <= j < n);
            }
        }
        lemma_outcome_prefix(types, m, s, o);
        let t = types[m as int];
        assert(!(conversion_of(t, s) == Conversion::Error || (o.lossy_action == LossyAction::Error
            && conversion_of(t, s) == Conversion::Lossy)));
        let ns = plan_prefix(types, m, s, o)->Ok_0.1;
        let step = column_step(m as usize, t, s, o);
        assert(step is Ok);
        let add = step->Ok_0.1;
        let all = ns + add;
        if add.len() == 0 {
            assert(all =~= ns);
        } else {
            assert(add.len() == 1);
            assert(all =~= ns.push(add[0]));
            assert(all.drop_last() =~= ns);
            assert(all.last() == add[0]);
        }
    }
}

/// Unless durations are to be written in the unavailable human format, a
/// run fails exactly when a column cannot be written or a lossy column meets
/// the abort policy; a successful run issues one lossy notice per lossy
/// column, in column order, under the warn policy, and none under the allow
/// policy.
pub proof fn lemma_plan_outcome(types: Seq<LogicalType>, s: TypeSupport, o: ConvertOptions)
    requires
        types.len() <= usize::MAX,
        o.duration_format != DurationFormat::Human,
    ensures
        plan_of(types, s, o) is Err <==> has_fatal_column(types, types.len(), s, o),
        plan_of(types, s, o) is Ok ==> lossy_only(plan_of(types, s, o)->Ok_0.1) == if o.lossy_action
            == LossyAction::Warn {
            lossy_notices(types, types.len(), s)
        } else {
            seq![]
        },
{
    if has_fatal_column(types, types.len(), s, o) {
        let j = choose|j: int|
            0 <= j < types.len() && (#[trigger] conversion_of(types[j], s) == Conversion::Error || (
            o.lossy_action == LossyAction::Error && conversion_of(types[j], s)
                == Conversion::Lossy));
        lemma_step_error_aborts(types, j, s, o);
    } else {
        lemma_outcome_prefix(types, types.len(), s, o);
    }
}

/// The dedicated transformation of a list or duration column at position
/// `col`. Neither list nor duration columns consult the lossy policy.
pub fn process(col: usize, dtype: &LogicalType, options: &ConvertOptions) -> (r: Result<
    (ColumnAction, Vec<Notice>),
    ConvertError,
>)
    ensures
        match (r, process_spec(col, *dtype, *options)) {
            (Ok((a, ns)), Ok((a2, ns2))) => a == a2 && ns@ == ns2,
            (Err(e), Err(e2)) => e == e2,
            _ => false,
        },
{
    match dtype {
        LogicalType::List => Ok((ColumnAction::ListToText, Vec::new())),
        LogicalType::Duration(unit) => process_duration(col, *unit, options),
        _ => Err(ConvertError::CannotProcess(*dtype)),
    }
}

/// The rewrite of a duration column in the configured format. The physical
/// format issues a notice naming the column and unit, since the written
/// values do not carry the unit.
pub fn process_duration(col: usize, unit: TimeUnit, options: &ConvertOptions) -> (r: Result<
    (ColumnAction, Vec<Notice>),
    ConvertError,
>)
    ensures
        match options.duration_format {
            DurationFormat::Physical => r is Ok && r->Ok_0.0 == ColumnAction::DurationMagnitude(unit)
                && r->Ok_0.1@ == seq![Notice::DurationAsNumber { column: col, unit: unit }],
            DurationFormat::Unit => r is Ok && r->Ok_0.0 == ColumnAction::DurationText(unit)
                && r->Ok_0.1@ == Seq::<Notice>::empty(),
            DurationFormat::Human => r == Err::<(ColumnAction, Vec<Notice>), ConvertError>(
                ConvertError::NotImplemented(Unavailable::HumanDuration),
            ),
        },
{
    match options.duration_format {
        DurationFormat::Physical => {
            let mut notices: Vec<Notice> = Vec::new();
            notices.push(Notice::DurationAsNumber { column: col, unit });
            assert(notices@ =~= seq![Notice::DurationAsNumber { column: col, unit: unit }]);
            Ok((ColumnAction::DurationMagnitude(unit), notices))
        },
        DurationFormat::Unit => Ok((ColumnAction::DurationText(unit), Vec::new())),
        DurationFormat::Human => Err(ConvertError::NotImplemented(Unavailable::HumanDuration)),
    }
}

/// Decides the rewrites of a table with these column types, in column
/// order: nothing for a pass, the lossy policy for a lossy type, a re-typing
/// for a conversion (each such re-typing is lossless, so the lossy policy is
/// not consulted), a dedicated transformation for lists and durations, and an
/// abort for a type that cannot be written. The first error stops the run; no plan
/// is produced then.
pub fn get_conversions(
    types: &Vec<LogicalType>,
    support: TypeSupport,
    options: &ConvertOptions,
) -> (r: Result<Plan, ConvertError>)
    ensures
        match (r, plan_of(types@, support, *options)) {
            (Ok(p), Ok((rs, ns))) => p.replacements@ == rs && p.notices@ == ns,
            (Err(e), Err(e2)) => e == e2,
            _ => false,
        },
{
    let mut replacements: Vec<Replacement> = Vec::new();
    let mut notices: Vec<Notice> = Vec::new();
    let mut i: usize = 0;
    while i < types.len()
        invariant
            i <= types.len(),
            plan_prefix(types@, i as nat, support, *options) == Ok::<
                (Seq<Replacement>, Seq<Notice>),
                ConvertError,
            >((replacements@, notices@)),
        decreases types.len() - i,
    {
        let dtype = types[i];
        let ghost old_r = replacements@;
        let ghost old_n = notices@;
        let ghost st = column_step(i, dtype, support, *options);
        let failed: Option<ConvertError> = match map_supported(&dtype, support) {
            Conversion::Pass => {
                assert(replacements@ =~= old_r + st->Ok_0.0);
                assert(notices@ =~= old_n + st->Ok_0.1);
                None
            },
            Conversion::Lossy => match lossy_action(&dtype, options) {
                Err(e) => Some(e),
                Ok(n) => {
                    if let Some(x) = n {
                        notices.push(x);
                    }
                    assert(replacements@ =~= old_r + st->Ok_0.0);
                    assert(notices@ =~= old_n + st->Ok_0.1);
                    None
                },
            },
            Conversion::Convert(target) => {
                replacements.push(Replacement { column: i, action: ColumnAction::Cast(target) });
                assert(replacements@ =~= old_r + st->Ok_0.0);
                assert(notices@ =~= old_n + st->Ok_0.1);
                None
            },
            Conversion::Process => match process(i, &dtype, options) {
                Err(e) => Some(e),
                Ok((a, ns)) => {
                    replacements.push(Replacement { column: i, action: a });
                    let mut j: usize = 0;
                    while j < ns.len()
                        invariant
                            j <= ns.len(),
                            notices@ == old_n + ns@.take(j as int),
                        decreases ns.len() - j,
                    {
                        notices.push(ns[j]);
                        proof {
                            assert(ns@.take(j + 1) == ns@.take(j as int).push(ns@[j as int]));
                        }
                        j += 1;
                    }
                    proof {
                        assert(ns@.take(ns.len() as int) == ns@);
                    }
                    assert(replacements@ =~= old_r + st->Ok_0.0);
                    assert(notices@ =~= old_n + st->Ok_0.1);
                    None
                },
            },
            Conversion::Error => Some(ConvertError::Unsupported(dtype)),
        };
        match failed {
            Some(e) => {
                proof {
                    lemma_error_persists(types@, (i + 1) as nat, types.len() as nat, support, *options);
                }
                return Err(e);
            },
            None => {},
        }
        proof {
            assert(types@[i as int] == dtype);
        }
        i += 1;
    }
    Ok(Plan { replacements, notices })
}

} // verus!
