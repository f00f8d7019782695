use vstd::prelude::*;
use crate::dtype::TimeUnit;
use crate::policy::{ConvertError, DurationFormat, Unavailable};

verus! {

/// The character of a decimal digit.
pub open spec fn digit_char(d: nat) -> char {
    if d == 0 { '0' }
    else if d == 1 { '1' }
    else if d == 2 { '2' }
    else if d == 3 { '3' }
    else if d == 4 { '4' }
    else if d == 5 { '5' }
    else if d == 6 { '6' }
    else if d == 7 { '7' }
    else if d == 8 { '8' }
    else { '9' }
}

/// The decimal digits of a natural number, without leading zeros.
pub open spec fn digits(n: nat) -> Seq<char>
    decreases n,
{
    if n < 10 {
        seq![digit_char(n)]
    } else {
        digits(n / 10).push(digit_char(n % 10))
    }
}

/// The decimal text of an integer, with a minus sign when it is negative.
pub open spec fn decimal(n: int) -> Seq<char> {
    if n < 0 {
        seq!['-'] + digits((-n) as nat)
    } else {
        digits(n as nat)
    }
}

/// The one-character text of a decimal digit.
fn digit_str(d: u128) -> (r: &'static str)
    requires
        d < 10,
    ensures
        r@ == seq![digit_char(d as nat)],
{
    proof {
        reveal_strlit("0");
        reveal_strlit("1");
        reveal_strlit("2");
        reveal_strlit("3");
        reveal_strlit("4");
        reveal_strlit("5");
        reveal_strlit("6");
        reveal_strlit("7");
        reveal_strlit("8");
        reveal_strlit("9");
    }
    if d == 0 {
        "0"
    } else if d == 1 {
        "1"
    } else if d == 2 {
        "2"
    } else if d == 3 {
        "3"
    } else if d == 4 {
        "4"
    } else if d == 5 {
        "5"
    } else if d == 6 {
        "6"
    } else if d == 7 {
        "7"
    } else if d == 8 {
        "8"
    } else {
        "9"
    }
}

/// Appends the decimal digits of `n`.
fn push_digits(n: u128, out: &mut String)
    ensures
        final(out)@ == old(out)@ + digits(n as nat),
    decreases n,
{
    if n < 10 {
        out.append(digit_str(n));
    } else {
        push_digits(n / 10, out);
        out.append(digit_str(n % 10));
        assert(digits(n as nat) == digits((n / 10) as nat).push(digit_char((n % 10) as nat)));
    }
    assert(out@ =~= old(out)@ + digits(n as nat));
}

/// The decimal text of an integer, led by `-` when it is negative.
fn decimal_text(n: i128) -> (r: String)
    ensures
        r@ == decimal(n as int),
{
    let mut out = String::new();
    if n < 0 {
        proof {
            reveal_strlit("-");
        }
        out.append("-");
        let magnitude: u128 = ((-(n + 1)) as u128) + 1;
        push_digits(magnitude, &mut out);
    } else {
        push_digits(n as u128, &mut out);
    }
    out
}

/// One element of a list cell.
#[derive(Debug, Clone, PartialEq, Eq)]
pub enum Scalar {
    Null,
    Bool(bool),
    Int(i128),
    Text(String),
}

/// The text that an element is cast to; a null element has none.
pub open spec fn scalar_view(x: Scalar) -> Option<Seq<char>> {
    match x {
        Scalar::Null => None,
        Scalar::Bool(b) => Some(if b { "true"@ } else { "false"@ }),
        Scalar::Int(n) => Some(decimal(n as int)),
        Scalar::Text(t) => Some(t@),
    }
}

/// Casts one list element to text: `true`/`false`, decimal digits, or the
/// text itself. A null element has no text.
pub fn scalar_text(x: &Scalar) -> (r: Option<String>)
    ensures
        match (r, scalar_view(*x)) {
            (Some(t), Some(v)) => t@ == v,
            (None, None) => true,
            _ => false,
        },
{
    match x {
        Scalar::Null => None,
        Scalar::Bool(b) => {
            proof {
                reveal_strlit("true");
                reveal_strlit("false");
            }
            if *b {
                Some("true".to_owned())
            } else {
                Some("false".to_owned())
            }
        },
        Scalar::Int(n) => Some(decimal_text(*n)),
        Scalar::Text(t) => Some(t.clone()),
    }
}

/// The parts joined, with a comma between each two.
pub open spec fn join_commas(parts: Seq<Seq<char>>) -> Seq<char>
    decreases parts.len(),
{
    if parts.len() == 0 {
        seq![]
    } else if parts.len() == 1 {
        parts[0]
    } else {
        join_commas(parts.drop_last()).push(',') + parts.last()
    }
}

/// The text in square brackets.
pub open spec fn bracketed(s: Seq<char>) -> Seq<char> {
    seq!['['] + s + seq![']']
}

/// The text without its first and last characters.
pub open spec fn strip_ends(s: Seq<char>) -> Seq<char> {
    s.subrange(1, s.len() - 1)
}

/// The pieces of a text between commas; a text without a comma is one piece.
pub open spec fn split_commas(s: Seq<char>) -> Seq<Seq<char>>
    decreases s.len(),
{
    if s.len() == 0 {
        seq![seq![]]
    } else {
        let r = split_commas(s.drop_last());
        if s.last() == ',' {
            r.push(seq![])
        } else {
            r.update(r.len() - 1, r.last().push(s.last()))
        }
    }
}

/// Whether a list holds a null element.
pub open spec fn has_null(items: Seq<Scalar>) -> bool {
    exists|i: int| 0 <= i < items.len() && #[trigger] items[i] is Null
}

/// The texts of the elements of a list without nulls.
pub open spec fn element_texts(items: Seq<Scalar>) -> Seq<Seq<char>> {
    items.map_values(|x: Scalar| scalar_view(x).unwrap())
}

/// The text of a list cell: its elements' texts joined by commas, in
/// brackets; `[]` for an empty list. A list with a null element gives a null
/// cell, as a join that does not skip nulls does.
pub open spec fn list_view(items: Seq<Scalar>) -> Option<Seq<char>> {
    if has_null(items) {
        None
    } else {
        Some(bracketed(join_commas(element_texts(items))))
    }
}

/// Renders a list cell as text (see `list_view`).
pub fn process_list(items: &Vec<Scalar>) -> (r: Option<String>)
    ensures
        match (r, list_view(items@)) {
            (Some(t), Some(v)) => t@ == v,
            (None, None) => true,
            _ => false,
        },
{
    proof {
        reveal_strlit("[");
        reveal_strlit("]");
        reveal_strlit(",");
    }
    let mut out = "[".to_owned();
    let mut i: usize = 0;
    while i < items.len()
        invariant
            i <= items.len(),
            !has_null(items@.take(i as int)),
            out@ == seq!['['] + join_commas(element_texts(items@.take(i as int))),
        decreases items.len() - i,
    {
        let t = match scalar_text(&items[i]) {
            None => {
                assert(items@[i as int] is Null);
                return None;
            },
            Some(t) => t,
        };
        let ghost prev = element_texts(items@.take(i as int));
        let ghost next = element_texts(items@.take(i + 1));
        assert(items@.take(i + 1).drop_last() == items@.take(i as int));
        assert(next.drop_last() =~= prev);
        assert(next.last() == t@);
        if i > 0 {
            let ghost o0 = out@;
            proof {
                reveal_strlit(",");
            }
            out.append(",");
            assert(out@ == o0.push(','));
            out.append(t.as_str());
            assert(out@ == o0.push(',') + t@);
            assert(next.len() > 1);
            assert(join_commas(next) == join_commas(prev).push(',') + t@);
            assert(out@ =~= seq!['['] + join_commas(next));
        } else {
            out.append(t.as_str());
            assert(next.len() == 1);
            assert(join_commas(next) == t@);
            assert(join_commas(prev) == Seq::<char>::empty());
            assert(out@ =~= seq!['['] + join_commas(next));
        }
        assert(!has_null(items@.take(i + 1))) by {
            if has_null(items@.take(i + 1)) {
                let k = choose|k: int| 0 <= k < i + 1 && #[trigger] items@.take(i + 1)[k] is Null;
                if k < i {
                    assert(items@.take(i as int)[k] is Null);
                }
            }
        }
        i += 1;
    }
    proof {
        reveal_strlit("]");
    }
    out.append("]");
    assert(items@.take(items.len() as int) == items@);
    Some(out)
}

/// Splitting a text on commas after a comma adds the text after it as the
/// last piece, when that text holds no comma.
proof fn lemma_split_after_comma(a: Seq<char>, b: Seq<char>)
    requires
        !b.contains(','),
    ensures
        split_commas(a.push(',') + b) == split_commas(a).push(b),
    decreases b.len(),
{
    let s = a.push(',') + b;
    if b.len() == 0 {
        assert(s =~= a.push(','));
        assert(s.drop_last() =~= a);
        assert(s.last() == ',');
        assert(b =~= Seq::<char>::empty());
    } else {
        let b2 = b.drop_last();
        assert(!b2.contains(',')) by {
            if b2.contains(',') {
                let k = choose|k: int| 0 <= k < b2.len() && b2[k] == ',';
                assert(b[k] == ',');
            }
        }
        lemma_split_after_comma(a, b2);
        assert(s.drop_last() =~= a.push(',') + b2);
        assert(s.last() == b.last());
        assert(b.last() != ',') by {
            assert(b[b.len() - 1] == b.last());
        }
        let r = split_commas(s.drop_last());
        assert(r == split_commas(a).push(b2));
        assert(split_commas(s) == r.update(r.len() - 1, r.last().push(s.last())));
        assert(r.last() == b2);
        assert(b2.push(b.last()) =~= b);
        assert(r.update(r.len() - 1, b2.push(b.last())) =~= split_commas(a).push(b));
    }
}

/// A text without a comma splits into itself alone.
proof fn lemma_split_no_comma(b: Seq<char>)
    requires
        !b.contains(','),
    ensures
        split_commas(b) == seq![b],
    decreases b.len(),
{
    if b.len() == 0 {
        assert(b =~= Seq::<char>::empty());
    } else {
        let b2 = b.drop_last();
        assert(!b2.contains(',')) by {
            if b2.contains(',') {
                let k = choose|k: int| 0 <= k < b2.len() && b2[k] == ',';
                assert(b[k] == ',');
            }
        }
        lemma_split_no_comma(b2);
        assert(b.last() != ',') by {
            assert(b[b.len() - 1] == b.last());
        }
        let r = split_commas(b2);
        assert(split_commas(b) == r.update(r.len() - 1, r.last().push(b.last())));
        assert(b2.push(b.last()) =~= b);
        assert(seq![b2].update(0, b2.push(b.last())) =~= seq![b]);
    }
}

/// Joining pieces without commas and splitting the result on commas gives
/// back the pieces.
proof fn lemma_split_join(parts: Seq<Seq<char>>)
    requires
        parts.len() > 0,
        forall|i: int| 0 <= i < parts.len() ==> !(#[trigger] parts[i]).contains(','),
    ensures
        split_commas(join_commas(parts)) == parts,
    decreases parts.len(),
{
    if parts.len() == 1 {
        lemma_split_no_comma(parts[0]);
        assert(seq![parts[0]] =~= parts);
    } else {
        let p2 = parts.drop_last();
        assert forall|i: int| 0 <= i < p2.len() implies !(#[trigger] p2[i]).contains(',') by {
            assert(p2[i] == parts[i]);
        }
        lemma_split_join(p2);
        assert(!parts.last().contains(',')) by {
            assert(parts[parts.len() - 1] == parts.last());
        }
        lemma_split_after_comma(join_commas(p2), parts.last());
        assert(p2.push(parts.last()) =~= parts);
    }
}

/// A non-empty list whose element texts hold no comma is recovered from its
/// text: strip the enclosing brackets and split on commas.
pub proof fn lemma_list_text_round_trip(items: Seq<Scalar>)
    requires
        items.len() > 0,
        !has_null(items),
        forall|i: int| 0 <= i < items.len() ==> !(#[trigger] element_texts(items)[i]).contains(','),
    ensures
        list_view(items) is Some,
        split_commas(strip_ends(list_view(items)->Some_0)) == element_texts(items),
{
    let j = join_commas(element_texts(items));
    assert(strip_ends(bracketed(j)) =~= j);
    lemma_split_join(element_texts(items));
}

/// The suffix that names a time unit.
pub open spec fn unit_suffix(u: TimeUnit) -> Seq<char> {
    match u {
        TimeUnit::Nanoseconds => "ns"@,
        TimeUnit::Microseconds => "us"@,
        TimeUnit::Milliseconds => "ms"@,
    }
}

/// The suffix of a time unit: `ns`, `us` or `ms`.
pub fn time_unit_suffix(u: TimeUnit) -> (r: &'static str)
    ensures
        r@ == unit_suffix(u),
{
    proof {
        reveal_strlit("ns");
        reveal_strlit("us");
        reveal_strlit("ms");
    }
    match u {
        TimeUnit::Nanoseconds => "ns",
        TimeUnit::Microseconds => "us",
        TimeUnit::Milliseconds => "ms",
    }
}

/// A rewritten duration cell.
#[derive(Debug, Clone, PartialEq, Eq)]
pub enum DurationCell {
    /// The bare count of the unit.
    Count(i64),
    /// The count followed by the unit's suffix.
    Text(String),
}

/// Rewrites one duration of `value` units in the given format: the bare
/// count, or the count followed by the unit's suffix. The human-readable
/// format is not available and fails.
pub fn process_duration_value(value: i64, unit: TimeUnit, format: DurationFormat) -> (r: Result<
    DurationCell,
    ConvertError,
>)
    ensures
        format == DurationFormat::Physical ==> r == Ok::<DurationCell, ConvertError>(
            DurationCell::Count(value),
        ),
        format == DurationFormat::Unit ==> r is Ok && r->Ok_0 is Text && r->Ok_0->Text_0@ == decimal(
            value as int,
        ) + unit_suffix(unit),
        format == DurationFormat::Human ==> r == Err::<DurationCell, ConvertError>(
            ConvertError::NotImplemented(Unavailable::HumanDuration),
        ),
{
    match format {
        DurationFormat::Physical => Ok(DurationCell::Count(value)),
        DurationFormat::Unit => {
            let mut t = decimal_text(value as i128);
            t.append(time_unit_suffix(unit));
            Ok(DurationCell::Text(t))
        },
        DurationFormat::Human => Err(ConvertError::NotImplemented(Unavailable::HumanDuration)),
    }
}

/// In the unit format every duration's text ends with the unit's suffix and
/// what precedes the suffix is the count's decimal text.
pub proof fn lemma_unit_text_ends_with_suffix(value: i64, unit: TimeUnit)
    ensures
        ({
            let t = decimal(value as int) + unit_suffix(unit);
            &&& t.len() >= unit_suffix(unit).len()
            &&& t.subrange(t.len() - unit_suffix(unit).len(), t.len() as int) == unit_suffix(unit)
            &&& t.subrange(0, t.len() - unit_suffix(unit).len()) == decimal(value as int)
        }),
{
    let t = decimal(value as int) + unit_suffix(unit);
    assert(t.subrange(t.len() - unit_suffix(unit).len(), t.len() as int) =~= unit_suffix(unit));
    assert(t.subrange(0, t.len() - unit_suffix(unit).len()) =~= decimal(value as int));
}

/// The text of a list cell that may itself be null: a null row stays null.
pub open spec fn list_row_view(row: Option<Vec<Scalar>>) -> Option<Seq<char>> {
    match row {
        None => None,
        Some(items) => list_view(items@),
    }
}

/// The view of an optional text.
pub open spec fn opt_text(t: Option<String>) -> Option<Seq<char>> {
    match t {
        None => None,
        Some(x) => Some(x@),
    }
}

/// Renders every row of a list column as text, row by row (see
/// `list_view`); a null row stays null.
pub fn process_list_column(rows: &Vec<Option<Vec<Scalar>>>) -> (r: Vec<Option<String>>)
    ensures
        r.len() == rows.len(),
        forall|i: int| 0 <= i < rows.len() ==> opt_text(#[trigger] r[i]) == list_row_view(rows[i]),
{
    let mut out: Vec<Option<String>> = Vec::new();
    let mut i: usize = 0;
    while i < rows.len()
        invariant
            i <= rows.len(),
            out.len() == i,
            forall|k: int| 0 <= k < i ==> opt_text(#[trigger] out[k]) == list_row_view(rows[k]),
        decreases rows.len() - i,
    {
        let cell = match &rows[i] {
            None => None,
            Some(items) => process_list(items),
        };
        out.push(cell);
        i += 1;
    }
    out
}

/// The rewrite of one duration that may be null, in the physical or unit format.
pub open spec fn duration_row_view(row: Option<i64>, unit: TimeUnit, format: DurationFormat) -> Option<
    DurationView,
> {
    match row {
        None => None,
        Some(v) => Some(
            if format == DurationFormat::Unit {
                DurationView::Text(decimal(v as int) + unit_suffix(unit))
            } else {
                DurationView::Count(v)
            },
        ),
    }
}

/// What a rewritten duration cell holds.
pub ghost enum DurationView {
    Count(i64),
    Text(Seq<char>),
}

/// The view of an optional rewritten duration cell.
pub open spec fn duration_cell_view(c: Option<DurationCell>) -> Option<DurationView> {
    match c {
        None => None,
        Some(DurationCell::Count(v)) => Some(DurationView::Count(v)),
        Some(DurationCell::Text(t)) => Some(DurationView::Text(t@)),
    }
}

/// Rewrites every row of a duration column in the given format; a null row
/// stays null. The human-readable format is not available and fails before
/// any row is rewritten.
pub fn process_duration_column(
    rows: &Vec<Option<i64>>,
    unit: TimeUnit,
    format: DurationFormat,
) -> (r: Result<Vec<Option<DurationCell>>, ConvertError>)
    ensures
        format == DurationFormat::Human <==> r is Err,
        r is Err ==> r == Err::<Vec<Option<DurationCell>>, ConvertError>(
            ConvertError::NotImplemented(Unavailable::HumanDuration),
        ),
        r is Ok ==> r->Ok_0.len() == rows.len() && forall|i: int|
            0 <= i < rows.len() ==> duration_cell_view(#[trigger] r->Ok_0[i]) == duration_row_view(
                rows[i],
                unit,
                format,
            ),
{
    if format == DurationFormat::Human {
        return Err(ConvertError::NotImplemented(Unavailable::HumanDuration));
    }
    let mut out: Vec<Option<DurationCell>> = Vec::new();
    let mut i: usize = 0;
    while i < rows.len()
        invariant
            format != DurationFormat::Human,
            i <= rows.len(),
            out.len() == i,
            forall|k: int|
                0 <= k < i ==> duration_cell_view(#[trigger] out[k]) == duration_row_view(
                    rows[k],
                    unit,
                    format,
                ),
        decreases rows.len() - i,
    {
        let cell = match rows[i] {
            None => None,
            Some(v) => match process_duration_value(v, unit, format) {
                Ok(c) => Some(c),
                Err(e) => {
                    return Err(e);
                },
            },
        };
        out.push(cell);
        i += 1;
    }
    Ok(out)
}

/// How a column is named in a diagnostic.
#[derive(Debug, Clone, PartialEq, Eq)]
pub enum ColumnRef {
    Name(String),
    Position(usize),
}

/// A column's name in double quotes, or its position in decimal.
pub fn easy_name(c: &ColumnRef) -> (r: String)
    ensures
        r@ == match c {
            ColumnRef::Name(n) => seq!['"'] + n@ + seq!['"'],
            ColumnRef::Position(p) => decimal(*p as int),
        },
{
    match c {
        ColumnRef::Name(n) => {
            proof {
                reveal_strlit("\"");
            }
            let mut t = "\"".to_owned();
            t.append(n.as_str());
            t.append("\"");
            t
        },
        ColumnRef::Position(p) => decimal_text(*p as i128),
    }
}

} // verus!
