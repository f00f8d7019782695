use vstd::prelude::*;
use std::path::Path;

verus! {

/// A file system path, carried through unread.
#[verifier::external_type_specification]
#[verifier::external_body]
pub struct ExPath(Path);

/// The kind of file written.
#[derive(Debug, Clone, Copy, PartialEq, Eq, Structural)]
pub enum OutFormat {
    /// A spreadsheet workbook.
    Xlsx,
    /// Comma-separated text.
    Csv,
}

/// The format that a file extension names, if any.
pub open spec fn format_of_extension(e: Seq<char>) -> Option<OutFormat> {
    if e == "xlsx"@ {
        Some(OutFormat::Xlsx)
    } else if e == "csv"@ {
        Some(OutFormat::Csv)
    } else {
        None
    }
}

/// The format written: the explicit choice, else the one inferred from the
/// output file, else a workbook.
pub open spec fn resolved_format(flag: Option<OutFormat>, inferred: Option<OutFormat>) -> OutFormat {
    match flag {
        Some(f) => f,
        None => match inferred {
            Some(f) => f,
            None => OutFormat::Xlsx,
        },
    }
}

/// Whether two texts are equal, character by character.
fn same_text(a: &str, b: &str) -> (r: bool)
    ensures
        r == (a@ == b@),
{
    let n = a.unicode_len();
    if n != b.unicode_len() {
        return false;
    }
    let mut i: usize = 0;
    while i < n
        invariant
            n == a@.len(),
            n == b@.len(),
            i <= n,
            a@.take(i as int) == b@.take(i as int),
        decreases n - i,
    {
        if a.get_char(i) != b.get_char(i) {
            return false;
        }
        assert(a@.take(i + 1) =~= a@.take(i as int).push(a@[i as int]));
        assert(b@.take(i + 1) =~= b@.take(i as int).push(b@[i as int]));
        i += 1;
    }
    assert(a@.take(n as int) =~= a@);
    assert(b@.take(n as int) =~= b@);
    true
}

/// The format named by a file extension: `xlsx` or `csv`; none for any
/// other extension or for no extension.
pub fn format_from_extension(ext: Option<&str>) -> (r: Option<OutFormat>)
    ensures
        r == match ext {
            Some(e) => format_of_extension(e@),
            None => None,
        },
{
    match ext {
        None => None,
        Some(e) => {
            proof {
                reveal_strlit("xlsx");
                reveal_strlit("csv");
            }
            if same_text(e, "xlsx") {
                Some(OutFormat::Xlsx)
            } else if same_text(e, "csv") {
                Some(OutFormat::Csv)
            } else {
                None
            }
        },
    }
}

/// The extension of a path's file name, when it has one that is valid
/// Unicode: what `Path::extension` followed by `OsStr::to_str` returns.
pub uninterp spec fn path_extension_of(p: &Path) -> Option<Seq<char>>;

/// Relies on `Path::extension`, the text after the last dot of the file
/// name, and on `OsStr::to_str`; an extension that is not valid Unicode
/// counts as none.
#[verifier::external_body]
fn path_extension(p: &Path) -> (r: Option<String>)
    ensures
        match r {
            Some(e) => path_extension_of(p) == Some(e@),
            None => path_extension_of(p) is None,
        },
{
    p.extension().and_then(|e| e.to_str()).map(|e| e.to_owned())
}

/// The format inferred from an output path's extension; none without a path.
pub fn format_from_file(p: Option<&Path>) -> (r: Option<OutFormat>)
    ensures
        r == match p {
            None => None,
            Some(q) => match path_extension_of(q) {
                Some(e) => format_of_extension(e),
                None => None,
            },
        },
{
    match p {
        None => None,
        Some(path) => {
            let ext = path_extension(path);
            match ext {
                None => None,
                Some(e) => format_from_extension(Some(e.as_str())),
            }
        },
    }
}

/// Chooses the output format: an explicit choice wins over the inferred
/// one, which wins over the default workbook.
pub fn resolve_format(flag: Option<OutFormat>, inferred: Option<OutFormat>) -> (r: OutFormat)
    ensures
        r == resolved_format(flag, inferred),
{
    match flag {
        Some(f) => f,
        None => match inferred {
            Some(f) => f,
            None => OutFormat::Xlsx,
        },
    }
}

/// An explicit format always wins; without one, the extensions `csv` and
/// `xlsx` pick their formats and any other extension gives the workbook.
pub proof fn lemma_format_precedence(flag: Option<OutFormat>, ext: Seq<char>)
    ensures
        flag is Some ==> resolved_format(flag, format_of_extension(ext)) == flag->Some_0,
        flag is None && ext == "csv"@ ==> resolved_format(flag, format_of_extension(ext))
            == OutFormat::Csv,
        flag is None && ext == "xlsx"@ ==> resolved_format(flag, format_of_extension(ext))
            == OutFormat::Xlsx,
        flag is None && ext != "csv"@ && ext != "xlsx"@ ==> resolved_format(
            flag,
            format_of_extension(ext),
        ) == OutFormat::Xlsx,
{
    reveal_strlit("csv");
    reveal_strlit("xlsx");
    assert("csv"@.len() != "xlsx"@.len());
}

} // verus!
