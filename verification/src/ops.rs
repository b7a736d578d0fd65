//! The text-formatting operations of the command-line tools: case changes,
//! space removal, slugs, and CSV pretty-printing.

use crate::strutil::{push_char, repeat_char, str_eq};
use vstd::prelude::*;
use vstd::string::StrSliceExecFns;

verus! {

broadcast use vstd::string::group_string_axioms;

/// What `str::to_lowercase` returns: a function of the characters alone.
pub uninterp spec fn lower_of(s: Seq<char>) -> Seq<char>;

/// What `str::to_uppercase` returns: a function of the characters alone.
pub uninterp spec fn upper_of(s: Seq<char>) -> Seq<char>;

/// What `slug::slugify` returns: a function of the characters alone.
pub uninterp spec fn slug_of(s: Seq<char>) -> Seq<char>;

/// What alternating-case conversion returns: a function of the characters
/// alone.
pub uninterp spec fn alternating_of(s: Seq<char>) -> Seq<char>;

/// What CSV parsing yields for an input: the header row and the data rows,
/// every data row as wide as the header, or nothing for malformed input.
pub uninterp spec fn csv_parse_of(s: Seq<char>) -> Option<(Seq<Seq<char>>, Seq<Seq<Seq<char>>>)>;

/// Relies on `str::to_lowercase`: the lowercase mapping of the characters.
#[verifier::external_body]
fn to_lowercase_str(s: &str) -> (r: String)
    ensures
        r@ == lower_of(s@),
{
    s.to_lowercase()
}

/// Relies on `str::to_uppercase`: the uppercase mapping of the characters.
#[verifier::external_body]
fn to_uppercase_str(s: &str) -> (r: String)
    ensures
        r@ == upper_of(s@),
{
    s.to_uppercase()
}

/// Relies on `slug::slugify`: the slug of the text.
#[verifier::external_body]
fn slugify_str(s: &str) -> (r: String)
    ensures
        r@ == slug_of(s@),
{
    slug::slugify(s)
}

/// Relies on `convert_case::Casing::to_case` with the alternating case,
/// which maps the characters deterministically.
#[verifier::external_body]
fn alternating_case_str(s: &str) -> (r: String)
    ensures
        r@ == alternating_of(s@),
{
    convert_case::Casing::to_case(&s, convert_case::Case::Alternating)
}

/// Relies on `convert_case::Casing::to_case` with the random case: each
/// letter's case is drawn at random, so nothing is promised of the result.
#[verifier::external_body]
fn random_case_str(s: &str) -> String {
    convert_case::Casing::to_case(&s, convert_case::Case::Random)
}

/// Relies on `csv::Reader`: reads the header row and the data rows of the
/// text, failing on malformed input; every returned data row has exactly as
/// many fields as the header, as the reader enforces equal record lengths.
#[verifier::external_body]
fn csv_parse(input: &str) -> (r: Result<(Vec<String>, Vec<Vec<String>>), ()>)
    ensures
        match r {
            Ok((h, rows)) => csv_parse_of(input@) == Some((h.deep_view(), rows.deep_view()))
                && forall|i: int|
                0 <= i < rows.deep_view().len() ==> (#[trigger] rows.deep_view()[i]).len()
                    == h.deep_view().len(),
            Err(()) => csv_parse_of(input@) is None,
        },
{
    let mut reader = csv::Reader::from_reader(input.as_bytes());
    let headers: Vec<String> = reader.headers().map_err(|_| ())?.iter().map(
        |f| f.to_string(),
    ).collect();
    let mut data: Vec<Vec<String>> = Vec::new();
    for record in reader.records() {
        let record = record.map_err(|_| ())?;
        data.push(record.iter().map(|f| f.to_string()).collect());
    }
    Ok((headers, data))
}

/// One text-formatting operation.
#[derive(Clone, Copy, PartialEq, Eq, Structural, Debug)]
pub enum Operation {
    Lowercase,
    Uppercase,
    NoSpace,
    Slugify,
    Random,
    Alternating,
    Csv,
}

/// The text with every space removed.
pub open spec fn no_space_of(s: Seq<char>) -> Seq<char> {
    s.filter(|c: char| c != ' ')
}

/// What `Operation::format` returns for each operation, where the result is
/// deterministic. The random case and the CSV table are described at their
/// own functions.
pub open spec fn format_spec(op: Operation, text: Seq<char>) -> Option<Seq<char>> {
    match op {
        Operation::Lowercase => Some(lower_of(text)),
        Operation::Uppercase => Some(upper_of(text)),
        Operation::NoSpace => Some(no_space_of(text)),
        Operation::Slugify => Some(slug_of(text)),
        Operation::Random => None,
        Operation::Alternating => Some(alternating_of(text)),
        Operation::Csv => None,
    }
}

impl Operation {
    /// The operation a name denotes, if any: exactly the seven listed names
    /// are accepted.
    pub open spec fn try_from_spec_accepts(s: Seq<char>) -> Option<Operation> {
        if s == "lowercase"@ {
            Some(Operation::Lowercase)
        } else if s == "uppercase"@ {
            Some(Operation::Uppercase)
        } else if s == "no-spaces"@ {
            Some(Operation::NoSpace)
        } else if s == "slugify"@ {
            Some(Operation::Slugify)
        } else if s == "random"@ {
            Some(Operation::Random)
        } else if s == "alternating"@ {
            Some(Operation::Alternating)
        } else if s == "csv"@ {
            Some(Operation::Csv)
        } else {
            None
        }
    }

    /// Parses an operation name; an unknown name is answered with the usage
    /// message.
    pub fn try_from(value: &str) -> (r: Result<Operation, String>)
        ensures
            match Operation::try_from_spec_accepts(value@) {
                Some(op) => r == Ok::<Operation, String>(op),
                None => r matches Err(e) && e@
                    == "Invalid argument. Please use one of: lowercase, uppercase, no-spaces, slugify, random, alternating, csv"@,
            },
    {
        proof {
            reveal_strlit("lowercase");
            reveal_strlit("uppercase");
            reveal_strlit("no-spaces");
            reveal_strlit("slugify");
            reveal_strlit("random");
            reveal_strlit("alternating");
            reveal_strlit("csv");
            assert("lowercase"@.len() == 9 && "lowercase"@[0] == 'l');
            assert("uppercase"@.len() == 9 && "uppercase"@[0] == 'u');
            assert("no-spaces"@.len() == 9 && "no-spaces"@[0] == 'n');
            assert("slugify"@.len() == 7 && "slugify"@[0] == 's');
            assert("random"@.len() == 6);
            assert("alternating"@.len() == 11);
            assert("csv"@.len() == 3);
        }
        if str_eq(value, "lowercase") {
            Ok(Operation::Lowercase)
        } else if str_eq(value, "uppercase") {
            Ok(Operation::Uppercase)
        } else if str_eq(value, "no-spaces") {
            Ok(Operation::NoSpace)
        } else if str_eq(value, "slugify") {
            Ok(Operation::Slugify)
        } else if str_eq(value, "random") {
            Ok(Operation::Random)
        } else if str_eq(value, "alternating") {
            Ok(Operation::Alternating)
        } else if str_eq(value, "csv") {
            Ok(Operation::Csv)
        } else {
            Err(
                "Invalid argument. Please use one of: lowercase, uppercase, no-spaces, slugify, random, alternating, csv".to_owned(),
            )
        }
    }

    /// Formats `text` with this operation. Only the CSV operation can fail,
    /// on malformed input; the random case promises nothing of its result.
    pub fn format(&self, text: &str) -> (r: Result<String, String>)
        ensures
            format_spec(*self, text@) matches Some(expect) ==> r matches Ok(s) && s@ == expect,
            *self == Operation::Random ==> r is Ok,
            *self == Operation::Csv ==> {
                match csv_parse_of(text@) {
                    Some(parsed) => r matches Ok(s) && s@ == table_spec(parsed.0, parsed.1),
                    None => r is Err,
                }
            },
    {
        match self {
            Operation::Lowercase => Ok(Self::to_lowercase(text)),
            Operation::Uppercase => Ok(Self::to_uppercase(text)),
            Operation::NoSpace => Ok(Self::replace(text)),
            Operation::Slugify => Ok(slugify_str(text)),
            Operation::Random => Ok(random_case_str(text)),
            Operation::Alternating => Ok(alternating_case_str(text)),
            Operation::Csv => Self::to_csv(text),
        }
    }

    /// The lowercase mapping of `text`.
    pub fn to_lowercase(text: &str) -> (r: String)
        ensures
            r@ == lower_of(text@),
    {
        to_lowercase_str(text)
    }

    /// The uppercase mapping of `text`.
    pub fn to_uppercase(text: &str) -> (r: String)
        ensures
            r@ == upper_of(text@),
    {
        to_uppercase_str(text)
    }

    /// `text` with every space removed.
    pub fn replace(text: &str) -> (r: String)
        ensures
            r@ == no_space_of(text@),
    {
        broadcast use Seq::lemma_filter_push;

        let ghost pred = |c: char| c != ' ';
        let n = text.unicode_len();
        let mut r = String::new();
        let mut i: usize = 0;
        while i < n
            invariant
                n == text@.len(),
                i <= n,
                pred == (|c: char| c != ' '),
                r@ == text@.take(i as int).filter(pred),
            decreases n - i,
        {
            proof {
                let t1 = text@.take(i as int);
                let x = text@[i as int];
                assert(text@.take(i + 1) =~= t1.push(x));
                t1.lemma_filter_push(x, pred);
            }
            let c = text.get_char(i);
            if c != ' ' {
                push_char(&mut r, c);
            }
            i += 1;
        }
        proof {
            assert(text@.take(n as int) =~= text@);
        }
        r
    }

    /// Renders `text` as a table, parsing it as CSV first.
    fn to_csv(text: &str) -> (r: Result<String, String>)
        ensures
            match csv_parse_of(text@) {
                Some(parsed) => r matches Ok(s) && s@ == table_spec(parsed.0, parsed.1),
                None => r is Err,
            },
    {
        match Csv::from_string(text) {
            Ok(csv) => Ok(csv.to_table_string()),
            Err(e) => Err(e),
        }
    }
}

/// The width of column `i`: the widest cell of the column, header included.
pub open spec fn col_width(headers: Seq<Seq<char>>, rows: Seq<Seq<Seq<char>>>, i: int) -> int
    decreases rows.len(),
{
    if rows.len() == 0 {
        headers[i].len() as int
    } else {
        let w = col_width(headers, rows.drop_last(), i);
        let c = rows.last()[i].len() as int;
        if c > w {
            c
        } else {
            w
        }
    }
}

/// All column widths, in order.
pub open spec fn widths_of(headers: Seq<Seq<char>>, rows: Seq<Seq<Seq<char>>>) -> Seq<int> {
    Seq::new(headers.len(), |i: int| col_width(headers, rows, i))
}

/// `n` spaces.
pub open spec fn spaces(n: int) -> Seq<char> {
    Seq::new(n as nat, |j: int| ' ')
}

/// `n` dashes.
pub open spec fn dashes(n: int) -> Seq<char> {
    Seq::new(n as nat, |j: int| '-')
}

/// One rendered cell: a bar, a space, the cell padded to the column width,
/// and a space.
pub open spec fn cell_block(cell: Seq<char>, w: int) -> Seq<char> {
    "| "@ + cell + spaces(w - cell.len()) + " "@
}

/// The first `k` cells of one line, rendered.
pub open spec fn row_line(cells: Seq<Seq<char>>, widths: Seq<int>, k: int) -> Seq<char>
    decreases k,
{
    if k <= 0 {
        Seq::empty()
    } else {
        row_line(cells, widths, k - 1) + cell_block(cells[k - 1], widths[k - 1])
    }
}

/// The dash segments of the separator for the first `k` columns.
pub open spec fn sep_segments(widths: Seq<int>, k: int) -> Seq<char>
    decreases k,
{
    if k <= 0 {
        Seq::empty()
    } else {
        sep_segments(widths, k - 1) + dashes(widths[k - 1] + 3)
    }
}

/// The column widths of the executable renderer, as spec integers.
pub open spec fn widths_view(widths: Seq<usize>) -> Seq<int> {
    widths.map_values(|w: usize| w as int)
}

/// The whole separator line.
pub open spec fn sep_line(widths: Seq<int>, k: int) -> Seq<char> {
    seq!['|'] + sep_segments(widths, k) + "|\n"@
}

/// The first `k` data rows, rendered as lines.
pub open spec fn data_lines(rows: Seq<Seq<Seq<char>>>, widths: Seq<int>, k: int) -> Seq<char>
    decreases k,
{
    if k <= 0 {
        Seq::empty()
    } else {
        data_lines(rows, widths, k - 1) + (row_line(rows[k - 1], widths, widths.len() as int)
            + " |\n"@)
    }
}

/// The whole rendered table: separator, header line, separator, the data
/// lines, and a closing separator; an empty header renders nothing.
pub open spec fn table_spec(headers: Seq<Seq<char>>, rows: Seq<Seq<Seq<char>>>) -> Seq<char> {
    if headers.len() == 0 {
        Seq::empty()
    } else {
        let widths = widths_of(headers, rows);
        let sep = sep_line(widths, headers.len() as int);
        sep + (row_line(headers, widths, headers.len() as int) + " |\n"@) + sep + data_lines(
            rows,
            widths,
            rows.len() as int,
        ) + sep
    }
}

/// No cell of a column is wider than the column: the header is bounded, and
/// so is every data row's cell.
pub proof fn lemma_col_width_bounds(headers: Seq<Seq<char>>, rows: Seq<Seq<Seq<char>>>, i: int)
    ensures
        headers[i].len() <= col_width(headers, rows, i),
        forall|r: int| 0 <= r < rows.len() ==> (#[trigger] rows[r])[i].len() <= col_width(
            headers,
            rows,
            i,
        ),
    decreases rows.len(),
{
    if rows.len() > 0 {
        lemma_col_width_bounds(headers, rows.drop_last(), i);
        assert forall|r: int| 0 <= r < rows.len() implies (#[trigger] rows[r])[i].len()
            <= col_width(headers, rows, i) by {
            if r < rows.len() - 1 {
                assert(rows.drop_last()[r] == rows[r]);
            } else {
                assert(rows.last() == rows[r]);
            }
        }
    }
}

/// A parsed CSV document: the header row and the data rows, each data row as
/// wide as the header.
pub struct Csv {
    headers: Vec<String>,
    data: Vec<Vec<String>>,
}

impl Csv {
    /// The header row.
    pub closed spec fn spec_headers(&self) -> Seq<Seq<char>> {
        self.headers.deep_view()
    }

    /// The data rows.
    pub closed spec fn spec_data(&self) -> Seq<Seq<Seq<char>>> {
        self.data.deep_view()
    }

    /// Every data row is as wide as the header.
    pub open spec fn wf(&self) -> bool {
        forall|i: int|
            0 <= i < self.spec_data().len() ==> (#[trigger] self.spec_data()[i]).len()
                == self.spec_headers().len()
    }

    /// Renders the document as a table: a separator, the header line, a
    /// separator, one line per data row, and a closing separator, each cell
    /// padded to its column's width.
    pub fn to_table_string(&self) -> (r: String)
        requires
            self.wf(),
        ensures
            r@ == table_spec(self.spec_headers(), self.spec_data()),
    {
        let ghost h = self.spec_headers();
        let ghost rows = self.spec_data();
        let ghost widths = widths_of(h, rows);
        if self.headers.is_empty() {
            return String::new();
        }
        let ncols = self.headers.len();
        let nrows = self.data.len();
        let mut width_vec: Vec<usize> = Vec::new();
        let mut i: usize = 0;
        while i < ncols
            invariant
                ncols == h.len(),
                nrows == rows.len(),
                h == self.spec_headers(),
                rows == self.spec_data(),
                widths == widths_of(h, rows),
                self.wf(),
                ncols == self.headers@.len(),
                nrows == self.data@.len(),
                i <= ncols,
                width_vec@.len() == i,
                forall|k: int| 0 <= k < i ==> width_vec@[k] == col_width(h, rows, k),
            decreases ncols - i,
        {
            let mut w: usize = self.headers[i].as_str().unicode_len();
            let mut rr: usize = 0;
            while rr < nrows
                invariant
                    ncols == h.len(),
                    nrows == rows.len(),
                    h == self.spec_headers(),
                    rows == self.spec_data(),
                    self.wf(),
                    ncols == self.headers@.len(),
                    nrows == self.data@.len(),
                    i < ncols,
                    rr <= nrows,
                    w == col_width(h, rows.take(rr as int), i as int),
                decreases nrows - rr,
            {
                proof {
                    assert(rows.take(rr + 1).drop_last() =~= rows.take(rr as int));
                    assert(rows.take(rr + 1).last() == rows[rr as int]);
                    assert(self.data@[rr as int].deep_view() == rows[rr as int]);
                    assert(rows[rr as int].len() == h.len());
                }
                let c = self.data[rr][i].as_str().unicode_len();
                if c > w {
                    w = c;
                }
                rr += 1;
            }
            proof {
                assert(rows.take(nrows as int) =~= rows);
            }
            width_vec.push(w);
            i += 1;
        }
        proof {
            assert(widths_view(width_vec@) =~= widths);
            assert forall|k: int| 0 <= k < ncols implies h[k].len() <= col_width(h, rows, k) && (
            forall|r2: int|
                0 <= r2 < rows.len() ==> (#[trigger] rows[r2])[k].len() <= col_width(
                    h,
                    rows,
                    k,
                )) by {
                lemma_col_width_bounds(h, rows, k);
            }
            assert forall|k: int| 0 <= k < ncols implies (#[trigger] self.headers@[k])@.len()
                <= width_vec@[k] by {
                assert(self.headers@[k]@ == h[k]);
            }
        }
        let separator = Self::separator_line(&width_vec);
        let mut out = String::new();
        out.append(separator.as_str());
        let header_line = Self::row_line_string(&self.headers, &width_vec);
        out.append(header_line.as_str());
        out.append(separator.as_str());
        let mut rr: usize = 0;
        let ghost head = out@;
        while rr < nrows
            invariant
                ncols == h.len(),
                nrows == rows.len(),
                h == self.spec_headers(),
                rows == self.spec_data(),
                widths == widths_of(h, rows),
                self.wf(),
                ncols == self.headers@.len(),
                nrows == self.data@.len(),
                width_vec@.len() == ncols,
                widths_view(width_vec@) == widths,
                forall|k: int| 0 <= k < ncols ==> width_vec@[k] == col_width(h, rows, k),
                forall|k: int|
                    0 <= k < ncols ==> (forall|r2: int|
                        0 <= r2 < rows.len() ==> (#[trigger] rows[r2])[k].len() <= col_width(
                            h,
                            rows,
                            k,
                        )) && h[k].len() <= col_width(h, rows, k),
                rr <= nrows,
                out@ == head + data_lines(rows, widths, rr as int),
                head == sep_line(widths, ncols as int) + (row_line(h, widths, ncols as int)
                    + " |\n"@) + sep_line(widths, ncols as int),
            decreases nrows - rr,
        {
            proof {
                assert(self.data@[rr as int].deep_view() == rows[rr as int]);
                assert(rows[rr as int].len() == h.len());
            }
            let line = Self::row_line_string(&self.data[rr], &width_vec);
            out.append(line.as_str());
            rr += 1;
        }
        out.append(separator.as_str());
        proof {
            assert(out@ =~= table_spec(h, rows));
        }
        out
    }

    /// The separator line for these column widths.
    fn separator_line(widths: &Vec<usize>) -> (r: String)
        ensures
            r@ == sep_line(widths_view(widths@), widths@.len() as int),
    {
        let ghost ws = widths_view(widths@);
        let n = widths.len();
        let mut r = String::new();
        push_char(&mut r, '|');
        let mut i: usize = 0;
        while i < n
            invariant
                n == widths@.len(),
                ws == widths_view(widths@),
                i <= n,
                r@ == seq!['|'] + sep_segments(ws, i as int),
            decreases n - i,
        {
            let seg = repeat_char('-', widths[i]);
            r.append(seg.as_str());
            r.append("---");
            proof {
                reveal_strlit("---");
                assert(dashes(ws[i as int] + 3) =~= Seq::new(ws[i as int] as nat, |j: int| '-')
                    + "---"@);
                assert(r@ =~= seq!['|'] + sep_segments(ws, i + 1));
            }
            i += 1;
        }
        r.append("|\n");
        proof {
            assert(r@ =~= sep_line(ws, n as int));
        }
        r
    }

    /// One table line for these cells and widths, without its closing bar.
    fn row_line_string(cells: &Vec<String>, widths: &Vec<usize>) -> (r: String)
        requires
            cells@.len() == widths@.len(),
            forall|k: int|
                0 <= k < cells@.len() ==> (#[trigger] cells@[k])@.len() <= widths@[k],
        ensures
            r@ == row_line(cells.deep_view(), widths_view(widths@), widths@.len() as int)
                + " |\n"@,
    {
        let ghost cs = cells.deep_view();
        let ghost ws = widths_view(widths@);
        let n = widths.len();
        let mut r = String::new();
        let mut i: usize = 0;
        while i < n
            invariant
                n == widths@.len(),
                n == cells@.len(),
                cs == cells.deep_view(),
                ws == widths_view(widths@),
                forall|k: int|
                    0 <= k < cells@.len() ==> (#[trigger] cells@[k])@.len() <= widths@[k],
                i <= n,
                r@ == row_line(cs, ws, i as int),
            decreases n - i,
        {
            r.append("| ");
            r.append(cells[i].as_str());
            let pad = repeat_char(' ', widths[i] - cells[i].as_str().unicode_len());
            r.append(pad.as_str());
            r.append(" ");
            proof {
                assert(cs[i as int] == cells@[i as int]@);
                assert(spaces(ws[i as int] - cs[i as int].len()) =~= Seq::new(
                    (ws[i as int] - cs[i as int].len()) as nat,
                    |j: int| ' ',
                ));
                assert(r@ =~= row_line(cs, ws, i + 1));
            }
            i += 1;
        }
        r.append(" |\n");
        r
    }

    /// Parses a CSV document; fails exactly on malformed input.
    pub fn from_string(input_str: &str) -> (r: Result<Self, String>)
        ensures
            match r {
                Ok(csv) => csv_parse_of(input_str@) == Some(
                    (csv.spec_headers(), csv.spec_data()),
                ) && csv.wf(),
                Err(_) => csv_parse_of(input_str@) is None,
            },
    {
        match csv_parse(input_str) {
            Ok((headers, data)) => Ok(Csv { headers, data }),
            Err(()) => Err("Invalid csv input".to_owned()),
        }
    }
}

} // verus!
