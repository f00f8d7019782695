use std::path::{Path, PathBuf};

use parquet2xlsx::dtype::{map_supported, Conversion, LogicalType, TimeUnit, TypeSupport};
use parquet2xlsx::format::{format_from_extension, format_from_file, resolve_format, OutFormat};
use parquet2xlsx::plan::{
    get_conversions, process, process_cell, process_duration, Cell, ColumnAction, Replacement,
};
use parquet2xlsx::policy::{
    lossy_action, ConvertError, ConvertOptions, DurationFormat, LossyAction, Notice, Unavailable,
};
use parquet2xlsx::text::{
    easy_name, process_duration_column, process_duration_value, process_list,
    process_list_column, scalar_text, time_unit_suffix, ColumnRef, DurationCell, Scalar,
};

fn options(lossy: LossyAction, duration: DurationFormat) -> ConvertOptions {
    ConvertOptions { lossy_action: lossy, duration_format: duration }
}

fn ints(v: &[i128]) -> Vec<Scalar> {
    v.iter().map(|x| Scalar::Int(*x)).collect()
}

#[test]
fn test_format() {
    assert_eq!(format_from_file(None::<&Path>), None);
    assert_eq!(
        format_from_file(Some(PathBuf::from("example.xlsx").as_path())),
        Some(OutFormat::Xlsx)
    );
    assert_eq!(
        format_from_file(Some(PathBuf::from("example.csv").as_path())),
        Some(OutFormat::Csv)
    );
    assert_eq!(format_from_file(Some(PathBuf::from("example.mp3").as_path())), None);
}

#[test]
fn format_without_extension_or_in_directory() {
    assert_eq!(format_from_file(Some(Path::new("example"))), None);
    assert_eq!(format_from_file(Some(Path::new("dir.csv/out.xlsx"))), Some(OutFormat::Xlsx));
    assert_eq!(format_from_file(Some(Path::new("archive.tar.csv"))), Some(OutFormat::Csv));
}

#[test]
fn format_from_extension_exact_names() {
    assert_eq!(format_from_extension(Some("xlsx")), Some(OutFormat::Xlsx));
    assert_eq!(format_from_extension(Some("csv")), Some(OutFormat::Csv));
    assert_eq!(format_from_extension(Some("CSV")), None);
    assert_eq!(format_from_extension(Some("xls")), None);
    assert_eq!(format_from_extension(Some("")), None);
    assert_eq!(format_from_extension(None), None);
}

#[test]
fn explicit_format_overrides_extension() {
    let inferred = format_from_file(Some(Path::new("out.csv")));
    assert_eq!(inferred, Some(OutFormat::Csv));
    assert_eq!(resolve_format(Some(OutFormat::Xlsx), inferred), OutFormat::Xlsx);
    assert_eq!(resolve_format(None, inferred), OutFormat::Csv);
    assert_eq!(resolve_format(None, format_from_file(Some(Path::new("out.xlsx")))), OutFormat::Xlsx);
    assert_eq!(resolve_format(None, format_from_file(Some(Path::new("out.dat")))), OutFormat::Xlsx);
    assert_eq!(resolve_format(Some(OutFormat::Csv), None), OutFormat::Csv);
    assert_eq!(resolve_format(None, None), OutFormat::Xlsx);
}

#[test]
fn classification_table() {
    let s = TypeSupport::full();
    for t in [
        LogicalType::UInt8,
        LogicalType::UInt16,
        LogicalType::UInt32,
        LogicalType::Int8,
        LogicalType::Int16,
        LogicalType::Int32,
        LogicalType::Float32,
        LogicalType::Float64,
        LogicalType::Utf8,
        LogicalType::Null,
        LogicalType::Boolean,
    ] {
        assert_eq!(map_supported(&t, s), Conversion::Pass);
    }
    for t in [
        LogicalType::Int64,
        LogicalType::Int128,
        LogicalType::UInt64,
        LogicalType::Date,
        LogicalType::Time,
        LogicalType::Datetime(TimeUnit::Microseconds),
    ] {
        assert_eq!(map_supported(&t, s), Conversion::Lossy);
    }
    assert_eq!(map_supported(&LogicalType::Binary, s), Conversion::Convert(LogicalType::Utf8));
    assert_eq!(map_supported(&LogicalType::Categorical, s), Conversion::Convert(LogicalType::Utf8));
    assert_eq!(map_supported(&LogicalType::Enum, s), Conversion::Convert(LogicalType::Utf8));
    assert_eq!(map_supported(&LogicalType::Decimal, s), Conversion::Convert(LogicalType::Float64));
    assert_eq!(map_supported(&LogicalType::List, s), Conversion::Process);
    assert_eq!(
        map_supported(&LogicalType::Duration(TimeUnit::Milliseconds), s),
        Conversion::Process
    );
    for t in [LogicalType::Struct, LogicalType::Unknown, LogicalType::BinaryOffset] {
        assert_eq!(map_supported(&t, s), Conversion::Error);
    }
}

#[test]
fn disabled_extended_types_are_errors() {
    let s = TypeSupport { decimals: false, categoricals: false, strict_temporal: false };
    assert_eq!(map_supported(&LogicalType::Decimal, s), Conversion::Error);
    assert_eq!(map_supported(&LogicalType::Categorical, s), Conversion::Error);
    assert_eq!(map_supported(&LogicalType::Enum, s), Conversion::Error);
    assert_eq!(map_supported(&LogicalType::Date, s), Conversion::Pass);
    assert_eq!(map_supported(&LogicalType::Datetime(TimeUnit::Nanoseconds), s), Conversion::Pass);
}

#[test]
fn lossy_policy_outcomes() {
    let t = LogicalType::Int64;
    let d = DurationFormat::Physical;
    assert_eq!(lossy_action(&t, &options(LossyAction::Allow, d)), Ok(None));
    assert_eq!(lossy_action(&t, &options(LossyAction::Warn, d)), Ok(Some(Notice::Lossy(t))));
    assert_eq!(
        lossy_action(&t, &options(LossyAction::Error, d)),
        Err(ConvertError::LossyAborted(t))
    );
}

#[test]
fn pass_column_has_no_rewrite() {
    // an integer column [1, 2, 3] with the allow policy
    let types = vec![LogicalType::Int32];
    let plan = get_conversions(&types, TypeSupport::full(), &ConvertOptions::new()).unwrap();
    assert!(plan.replacements.is_empty());
    assert!(plan.notices.is_empty());
}

#[test]
fn int64_column_by_policy() {
    let types = vec![LogicalType::Int64];
    let s = TypeSupport::full();
    let d = DurationFormat::Physical;
    assert_eq!(
        get_conversions(&types, s, &options(LossyAction::Error, d)),
        Err(ConvertError::LossyAborted(LogicalType::Int64))
    );
    let allowed = get_conversions(&types, s, &options(LossyAction::Allow, d)).unwrap();
    assert!(allowed.replacements.is_empty());
    assert!(allowed.notices.is_empty());
    let warned = get_conversions(&types, s, &options(LossyAction::Warn, d)).unwrap();
    assert!(warned.replacements.is_empty());
    assert_eq!(warned.notices, vec![Notice::Lossy(LogicalType::Int64)]);
}

#[test]
fn struct_column_aborts_under_every_policy() {
    let types = vec![LogicalType::Utf8, LogicalType::Struct, LogicalType::Unknown];
    for a in [LossyAction::Allow, LossyAction::Warn, LossyAction::Error] {
        assert_eq!(
            get_conversions(&types, TypeSupport::full(), &options(a, DurationFormat::Physical)),
            Err(ConvertError::Unsupported(LogicalType::Struct))
        );
    }
}

#[test]
fn first_error_in_column_order_wins() {
    let types = vec![LogicalType::UInt64, LogicalType::Struct];
    let o = options(LossyAction::Error, DurationFormat::Physical);
    assert_eq!(
        get_conversions(&types, TypeSupport::full(), &o),
        Err(ConvertError::LossyAborted(LogicalType::UInt64))
    );
}

#[test]
fn mixed_table_plan() {
    let types = vec![
        LogicalType::Utf8,
        LogicalType::Binary,
        LogicalType::List,
        LogicalType::Duration(TimeUnit::Milliseconds),
        LogicalType::Int64,
        LogicalType::Decimal,
    ];
    let o = options(LossyAction::Warn, DurationFormat::Physical);
    let plan = get_conversions(&types, TypeSupport::full(), &o).unwrap();
    assert_eq!(
        plan.replacements,
        vec![
            Replacement { column: 1, action: ColumnAction::Cast(LogicalType::Utf8) },
            Replacement { column: 2, action: ColumnAction::ListToText },
            Replacement {
                column: 3,
                action: ColumnAction::DurationMagnitude(TimeUnit::Milliseconds)
            },
            Replacement { column: 5, action: ColumnAction::Cast(LogicalType::Float64) },
        ]
    );
    assert_eq!(
        plan.notices,
        vec![
            Notice::DurationAsNumber { column: 3, unit: TimeUnit::Milliseconds },
            Notice::Lossy(LogicalType::Int64),
        ]
    );
}

#[test]
fn list_column_skips_lossy_policy() {
    let types = vec![LogicalType::List];
    let o = options(LossyAction::Error, DurationFormat::Physical);
    let plan = get_conversions(&types, TypeSupport::full(), &o).unwrap();
    assert_eq!(plan.replacements, vec![Replacement { column: 0, action: ColumnAction::ListToText }]);
    assert!(plan.notices.is_empty());
}

#[test]
fn convert_columns_skip_lossy_policy() {
    let types = vec![LogicalType::Binary, LogicalType::Categorical, LogicalType::Decimal];
    let o = options(LossyAction::Error, DurationFormat::Physical);
    let plan = get_conversions(&types, TypeSupport::full(), &o).unwrap();
    assert_eq!(
        plan.replacements,
        vec![
            Replacement { column: 0, action: ColumnAction::Cast(LogicalType::Utf8) },
            Replacement { column: 1, action: ColumnAction::Cast(LogicalType::Utf8) },
            Replacement { column: 2, action: ColumnAction::Cast(LogicalType::Float64) },
        ]
    );
    assert!(plan.notices.is_empty());
}

#[test]
fn duration_column_skips_lossy_policy() {
    let types = vec![LogicalType::Duration(TimeUnit::Milliseconds)];
    let o = options(LossyAction::Error, DurationFormat::Unit);
    let plan = get_conversions(&types, TypeSupport::full(), &o).unwrap();
    assert_eq!(
        plan.replacements,
        vec![Replacement { column: 0, action: ColumnAction::DurationText(TimeUnit::Milliseconds) }]
    );
    assert!(plan.notices.is_empty());
}

#[test]
fn warn_policy_notices_only_lossy_columns() {
    let types = vec![LogicalType::Int64, LogicalType::Binary, LogicalType::UInt64];
    let o = options(LossyAction::Warn, DurationFormat::Unit);
    let plan = get_conversions(&types, TypeSupport::full(), &o).unwrap();
    assert_eq!(
        plan.notices,
        vec![Notice::Lossy(LogicalType::Int64), Notice::Lossy(LogicalType::UInt64)]
    );
}

#[test]
fn human_duration_is_not_implemented() {
    let types = vec![LogicalType::Duration(TimeUnit::Nanoseconds)];
    let o = options(LossyAction::Allow, DurationFormat::Human);
    assert_eq!(
        get_conversions(&types, TypeSupport::full(), &o),
        Err(ConvertError::NotImplemented(Unavailable::HumanDuration))
    );
    assert_eq!(
        process_duration_value(5, TimeUnit::Nanoseconds, DurationFormat::Human),
        Err(ConvertError::NotImplemented(Unavailable::HumanDuration))
    );
}

#[test]
fn process_rejects_other_types() {
    let o = ConvertOptions::new();
    assert_eq!(
        process(0, &LogicalType::Int32, &o),
        Err(ConvertError::CannotProcess(LogicalType::Int32))
    );
    assert_eq!(process(4, &LogicalType::List, &o), Ok((ColumnAction::ListToText, vec![])));
}

#[test]
fn process_duration_formats() {
    let unit = options(LossyAction::Allow, DurationFormat::Unit);
    assert_eq!(
        process_duration(2, TimeUnit::Microseconds, &unit),
        Ok((ColumnAction::DurationText(TimeUnit::Microseconds), vec![]))
    );
    let physical = options(LossyAction::Allow, DurationFormat::Physical);
    assert_eq!(
        process_duration(2, TimeUnit::Microseconds, &physical),
        Ok((
            ColumnAction::DurationMagnitude(TimeUnit::Microseconds),
            vec![Notice::DurationAsNumber { column: 2, unit: TimeUnit::Microseconds }]
        ))
    );
}

#[test]
fn list_of_ints_renders_in_brackets() {
    let types = vec![LogicalType::List];
    let plan = get_conversions(&types, TypeSupport::full(), &ConvertOptions::new()).unwrap();
    assert_eq!(plan.replacements[0].action, ColumnAction::ListToText);
    let rows = [ints(&[1, 2]), ints(&[3])];
    let out: Vec<Option<String>> = rows.iter().map(process_list).collect();
    assert_eq!(out, vec![Some("[1,2]".to_string()), Some("[3]".to_string())]);
}

#[test]
fn list_edge_cases() {
    assert_eq!(process_list(&vec![]), Some("[]".to_string()));
    assert_eq!(process_list(&ints(&[-7, 0, 170141183460469231731687303715884105727])),
        Some("[-7,0,170141183460469231731687303715884105727]".to_string()));
    assert_eq!(
        process_list(&vec![Scalar::Bool(true), Scalar::Text("a b".to_string()), Scalar::Bool(false)]),
        Some("[true,a b,false]".to_string())
    );
    assert_eq!(process_list(&vec![Scalar::Int(1), Scalar::Null]), None);
}

#[test]
fn list_text_splits_back() {
    let text = process_list(&ints(&[1, 2, 3])).unwrap();
    let inner = &text[1..text.len() - 1];
    let parts: Vec<&str> = inner.split(',').collect();
    assert_eq!(parts, vec!["1", "2", "3"]);
}

#[test]
fn scalar_texts() {
    assert_eq!(scalar_text(&Scalar::Null), None);
    assert_eq!(scalar_text(&Scalar::Int(-42)), Some("-42".to_string()));
    assert_eq!(scalar_text(&Scalar::Bool(false)), Some("false".to_string()));
}

#[test]
fn duration_value_by_format() {
    let types = vec![LogicalType::Duration(TimeUnit::Milliseconds)];
    let unit = options(LossyAction::Allow, DurationFormat::Unit);
    let plan = get_conversions(&types, TypeSupport::full(), &unit).unwrap();
    assert_eq!(plan.replacements[0].action, ColumnAction::DurationText(TimeUnit::Milliseconds));
    assert_eq!(
        process_duration_value(1500, TimeUnit::Milliseconds, DurationFormat::Unit),
        Ok(DurationCell::Text("1500ms".to_string()))
    );
    assert_eq!(
        process_duration_value(1500, TimeUnit::Milliseconds, DurationFormat::Physical),
        Ok(DurationCell::Count(1500))
    );
    assert_eq!(
        process_duration_value(-3, TimeUnit::Nanoseconds, DurationFormat::Unit),
        Ok(DurationCell::Text("-3ns".to_string()))
    );
    assert_eq!(
        process_duration_value(i64::MIN, TimeUnit::Microseconds, DurationFormat::Unit),
        Ok(DurationCell::Text("-9223372036854775808us".to_string()))
    );
}

#[test]
fn unit_suffixes() {
    assert_eq!(time_unit_suffix(TimeUnit::Nanoseconds), "ns");
    assert_eq!(time_unit_suffix(TimeUnit::Microseconds), "us");
    assert_eq!(time_unit_suffix(TimeUnit::Milliseconds), "ms");
}

#[test]
fn column_names_in_notices() {
    assert_eq!(easy_name(&ColumnRef::Name("total".to_string())), "\"total\"");
    assert_eq!(easy_name(&ColumnRef::Position(12)), "12");
}

#[test]
fn list_column_scenario() {
    let rows = vec![Some(ints(&[1, 2])), Some(ints(&[3]))];
    assert_eq!(
        process_list_column(&rows),
        vec![Some("[1,2]".to_string()), Some("[3]".to_string())]
    );
}

#[test]
fn list_column_null_rows_stay_null() {
    let rows = vec![None, Some(vec![]), Some(vec![Scalar::Null]), Some(ints(&[10, 20]))];
    assert_eq!(
        process_list_column(&rows),
        vec![None, Some("[]".to_string()), None, Some("[10,20]".to_string())]
    );
    assert!(process_list_column(&vec![]).is_empty());
}

#[test]
fn duration_column_scenario() {
    let rows = vec![Some(1500), None];
    assert_eq!(
        process_duration_column(&rows, TimeUnit::Milliseconds, DurationFormat::Unit),
        Ok(vec![Some(DurationCell::Text("1500ms".to_string())), None])
    );
    assert_eq!(
        process_duration_column(&rows, TimeUnit::Milliseconds, DurationFormat::Physical),
        Ok(vec![Some(DurationCell::Count(1500)), None])
    );
    assert_eq!(
        process_duration_column(&rows, TimeUnit::Milliseconds, DurationFormat::Human),
        Err(ConvertError::NotImplemented(Unavailable::HumanDuration))
    );
}

#[test]
fn cell_rewrites() {
    let ms = TimeUnit::Milliseconds;
    assert_eq!(
        process_cell(ColumnAction::ListToText, &Cell::List(ints(&[1, 2]))),
        Some(Cell::Text("[1,2]".to_string()))
    );
    assert_eq!(
        process_cell(ColumnAction::ListToText, &Cell::List(vec![Scalar::Null])),
        Some(Cell::Null)
    );
    assert_eq!(process_cell(ColumnAction::ListToText, &Cell::Null), Some(Cell::Null));
    assert_eq!(
        process_cell(ColumnAction::DurationText(ms), &Cell::Duration(1500)),
        Some(Cell::Text("1500ms".to_string()))
    );
    assert_eq!(
        process_cell(ColumnAction::DurationMagnitude(ms), &Cell::Duration(1500)),
        Some(Cell::Count(1500))
    );
    assert_eq!(process_cell(ColumnAction::DurationMagnitude(ms), &Cell::Null), Some(Cell::Null));
    assert_eq!(process_cell(ColumnAction::Cast(LogicalType::Utf8), &Cell::Duration(1)), None);
    assert_eq!(process_cell(ColumnAction::ListToText, &Cell::Duration(1)), None);
}

#[test]
fn decimal_text_extremes() {
    assert_eq!(scalar_text(&Scalar::Int(0)), Some("0".to_string()));
    assert_eq!(scalar_text(&Scalar::Int(9)), Some("9".to_string()));
    assert_eq!(scalar_text(&Scalar::Int(10)), Some("10".to_string()));
    assert_eq!(scalar_text(&Scalar::Int(i128::MIN)), Some(i128::MIN.to_string()));
    assert_eq!(scalar_text(&Scalar::Int(i128::MAX)), Some(i128::MAX.to_string()));
}
