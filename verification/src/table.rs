//! CSV tables and how a row is read into a record: fields are found by the
//! header's column names (by position when the header cannot be read),
//! unknown columns are skipped, optional fields may be absent or empty.
use vstd::prelude::*;

use crate::text::{chars_equal, chars_of, csv_uint};

verus! {

#[verifier::external_type_specification]
#[verifier::external_body]
pub struct ExCsvError(csv::Error);

/// `csv::Error::from` an I/O error (the error of reading a file, given as
/// a CSV error). Nothing is claimed of the result.
#[verifier::external_body]
pub fn csv_error_from_io(e: std::io::Error) -> (res: csv::Error) {
    csv::Error::from(e)
}

/// A CSV table: the header's column names (`None` when the header line is
/// not valid UTF-8) and the data rows' fields.
pub struct CsvTable {
    pub header: Option<Vec<String>>,
    pub rows: Vec<Vec<String>>,
}

/// What the `csv` crate reads from `data` (first record as header, rows
/// of any length): the header fields (`None` when `Reader::headers` reports
/// an error, such as a header line that is not UTF-8) and the rows' fields;
/// `None` when reading a row reports an error (malformed input, text that
/// is not UTF-8).
pub uninterp spec fn csv_records(data: Seq<u8>) -> Option<(Option<Seq<Seq<char>>>, Seq<Seq<Seq<char>>>)>;

/// Reads `data` with `csv::ReaderBuilder::new().flexible(true).from_reader`,
/// taking `Reader::headers` as the header (its error becomes `None`) and
/// every record of `Reader::records` as a row. Claims: success exactly when
/// the (named) reading succeeds, and then the header and rows are those it
/// names.
#[verifier::external_body]
pub fn read_csv_table(data: &[u8]) -> (res: Result<CsvTable, csv::Error>)
    ensures
        res is Ok <==> csv_records(data@) is Some,
        res matches Ok(t) ==> csv_records(data@) == Some((t.header.deep_view(), t.rows.deep_view())),
{
    let mut rdr = csv::ReaderBuilder::new().flexible(true).from_reader(data);
    let header: Option<Vec<String>> = match rdr.headers() {
        Ok(h) => Some(h.iter().map(String::from).collect()),
        Err(_) => None,
    };
    let mut rows: Vec<Vec<String>> = Vec::new();
    for rec in rdr.records() {
        rows.push(rec?.iter().map(String::from).collect());
    }
    Ok(CsvTable { header, rows })
}

// ───────────────────────────── columns ─────────────────────────────

/// The first index at which `x` occurs in `s`.
pub open spec fn first_position(s: Seq<Seq<char>>, x: Seq<char>) -> Option<int>
    decreases s.len(),
{
    if s.len() == 0 {
        None
    } else if s[0] == x {
        Some(0)
    } else {
        match first_position(s.drop_first(), x) {
            Some(i) => Some(i + 1),
            None => None,
        }
    }
}

proof fn lemma_first_position(s: Seq<Seq<char>>, x: Seq<char>, i: int)
    requires
        0 <= i <= s.len(),
        forall|k: int| 0 <= k < i ==> s[k] != x,
        i < s.len() ==> s[i] == x,
    ensures
        first_position(s, x) == (if i < s.len() { Some(i) } else { None::<int> }),
    decreases i,
{
    if i > 0 {
        lemma_first_position(s.drop_first(), x, i - 1);
    }
}

proof fn lemma_first_position_props(s: Seq<Seq<char>>, x: Seq<char>)
    ensures
        match first_position(s, x) {
            Some(p) => 0 <= p < s.len() && s[p] == x && forall|r: int| 0 <= r < p ==> s[r] != x,
            None => forall|r: int| 0 <= r < s.len() ==> s[r] != x,
        },
    decreases s.len(),
{
    if s.len() > 0 {
        lemma_first_position_props(s.drop_first(), x);
        if s[0] != x {
            assert forall|r: int| 1 <= r < s.len() implies s[r] == s.drop_first()[r - 1] by {}
        }
    }
}

/// Whether a row of `row_len` fields can be read as a record whose fields
/// are named `known`: a known name must not head two columns, and every
/// other column must have a field in the row (it is read and skipped).
pub open spec fn header_accepts(header: Seq<Seq<char>>, known: Seq<Seq<char>>, row_len: nat) -> bool {
    forall|i: int|
        0 <= i < header.len() ==> if known.contains(#[trigger] header[i]) {
            first_position(header, header[i]) == Some(i)
        } else {
            i < row_len
        }
}

/// The field of `row` in the column headed `name`, if there is one.
pub open spec fn cell(header: Seq<Seq<char>>, row: Seq<Seq<char>>, name: Seq<char>) -> Option<
    Seq<char>,
> {
    match first_position(header, name) {
        Some(i) => if i < row.len() {
            Some(row[i])
        } else {
            None
        },
        None => None,
    }
}

/// An optional text field: absent or empty is `None`.
pub open spec fn optional_text(c: Option<Seq<char>>) -> Option<Seq<char>> {
    match c {
        Some(v) => if v.len() == 0 {
            None
        } else {
            Some(v)
        },
        None => None,
    }
}

/// A required unsigned field no larger than `max`.
pub open spec fn required_uint(c: Option<Seq<char>>, max: nat) -> Option<nat> {
    match c {
        Some(v) => csv_uint(v, max),
        None => None,
    }
}

/// An optional unsigned field no larger than `max`: absent or empty reads
/// as `Some(None)`, a valid number as `Some(Some(n))`, anything else fails
/// (`None`).
pub open spec fn optional_uint(c: Option<Seq<char>>, max: nat) -> Option<Option<nat>> {
    match c {
        Some(v) => if v.len() == 0 {
            Some(None)
        } else {
            match csv_uint(v, max) {
                Some(n) => Some(Some(n)),
                None => None,
            }
        },
        None => Some(None),
    }
}

/// Where the fields named `known` sit in a table, and when its rows can
/// be read (see `header_accepts`).
pub struct Columns {
    pub positions: Vec<Option<usize>>,
    pub unique: bool,
    pub min_len: usize,
    pub header: Ghost<Seq<Seq<char>>>,
    pub known: Ghost<Seq<Seq<char>>>,
}

impl Columns {
    pub open spec fn wf(&self) -> bool {
        &&& self.positions@.len() == self.known@.len()
        &&& forall|k: int|
            0 <= k < self.known@.len() ==> match #[trigger] self.positions@[k] {
                Some(p) => first_position(self.header@, self.known@[k]) == Some(p as int),
                None => first_position(self.header@, self.known@[k]) is None,
            }
        &&& forall|row_len: nat|
            #![trigger header_accepts(self.header@, self.known@, row_len)]
            header_accepts(self.header@, self.known@, row_len) <==> (self.unique && row_len
                >= self.min_len)
    }
}

fn seq_contains_chars(list: &Vec<Vec<char>>, x: &Vec<char>) -> (res: bool)
    ensures
        res == list.deep_view().contains(x@),
{
    let mut k: usize = 0;
    while k < list.len()
        invariant
            k <= list@.len(),
            forall|j: int| 0 <= j < k ==> list.deep_view()[j] != x@,
        decreases list@.len() - k,
    {
        if chars_equal(list[k].as_slice(), x.as_slice()) {
            assert(list.deep_view()[k as int] =~= list[k as int]@);
            return true;
        }
        assert(list.deep_view()[k as int] =~= list[k as int]@);
        k = k + 1;
    }
    false
}

fn position_in(list: &Vec<Vec<char>>, x: &Vec<char>) -> (res: Option<usize>)
    ensures
        match res {
            Some(p) => first_position(list.deep_view(), x@) == Some(p as int),
            None => first_position(list.deep_view(), x@) is None,
        },
{
    let ghost dv = list.deep_view();
    let mut k: usize = 0;
    while k < list.len()
        invariant
            k <= list@.len(),
            dv == list.deep_view(),
            forall|j: int| 0 <= j < k ==> dv[j] != x@,
        decreases list@.len() - k,
    {
        assert(dv[k as int] =~= list[k as int]@);
        if chars_equal(list[k].as_slice(), x.as_slice()) {
            proof { lemma_first_position(dv, x@, k as int); }
            return Some(k);
        }
        k = k + 1;
    }
    proof { lemma_first_position(dv, x@, k as int); }
    None
}

/// The characters of each header name.
pub fn header_chars(header: &Vec<String>) -> (res: Vec<Vec<char>>)
    ensures
        res.deep_view() == header.deep_view(),
{
    let mut out: Vec<Vec<char>> = Vec::new();
    let mut i: usize = 0;
    while i < header.len()
        invariant
            i <= header@.len(),
            out@.len() == i,
            forall|j: int| 0 <= j < i ==> #[trigger] out@[j]@ == header@[j]@,
        decreases header@.len() - i,
    {
        out.push(chars_of(header[i].as_str()));
        i = i + 1;
    }
    assert forall|j: int| 0 <= j < out@.len() implies #[trigger] out.deep_view()[j] == header.deep_view()[j] by {
        assert(out@[j].deep_view() =~= out@[j]@);
    }
    assert(out.deep_view() =~= header.deep_view());
    out
}

/// Locates the fields named `known` among the columns of `header`.
pub fn resolve_columns(header: &Vec<Vec<char>>, known: &Vec<Vec<char>>) -> (c: Columns)
    ensures
        c.wf(),
        c.header@ == header.deep_view(),
        c.known@ == known.deep_view(),
{
    let ghost h = header.deep_view();
    let ghost kn = known.deep_view();
    let mut unique = true;
    let mut min_len: usize = 0;
    let mut i: usize = 0;
    while i < header.len()
        invariant
            i <= header@.len(),
            h == header.deep_view(),
            kn == known.deep_view(),
            h.len() == header@.len(),
            min_len <= i,
            unique == (forall|j: int|
                0 <= j < i && kn.contains(#[trigger] h[j]) ==> first_position(h, h[j]) == Some(j)),
            forall|j: int| 0 <= j < i && !kn.contains(#[trigger] h[j]) ==> j < min_len,
            min_len > 0 ==> !kn.contains(h[min_len - 1]),
        decreases header@.len() - i,
    {
        assert(h[i as int] =~= header[i as int]@);
        if seq_contains_chars(known, &header[i]) {
            let mut j: usize = 0;
            let mut first = true;
            while j < i
                invariant
                    j <= i,
                    i < header@.len(),
                    h == header.deep_view(),
                    first == (forall|q: int| 0 <= q < j ==> h[q] != h[i as int]),
                decreases i - j,
            {
                assert(h[j as int] =~= header[j as int]@);
                assert(h[i as int] =~= header[i as int]@);
                if chars_equal(header[j].as_slice(), header[i].as_slice()) {
                    first = false;
                }
                j = j + 1;
            }
            proof {
                if first {
                    lemma_first_position(h, h[i as int], i as int);
                } else {
                    lemma_first_position_props(h, h[i as int]);
                }
            }
            if !first {
                unique = false;
            }
        } else {
            min_len = i + 1;
        }
        i = i + 1;
    }
    let mut positions: Vec<Option<usize>> = Vec::new();
    let mut k: usize = 0;
    while k < known.len()
        invariant
            k <= known@.len(),
            h == header.deep_view(),
            kn == known.deep_view(),
            positions@.len() == k,
            forall|q: int|
                0 <= q < k ==> match #[trigger] positions@[q] {
                    Some(p) => first_position(h, kn[q]) == Some(p as int),
                    None => first_position(h, kn[q]) is None,
                },
        decreases known@.len() - k,
    {
        assert(kn[k as int] =~= known[k as int]@);
        let p = position_in(header, &known[k]);
        positions.push(p);
        k = k + 1;
    }
    let c = Columns { positions, unique, min_len, header: Ghost(h), known: Ghost(kn) };
    assert(h.len() == header@.len());
    assert forall|row_len: nat| #[trigger] header_accepts(h, kn, row_len) implies (unique && row_len >= min_len) by {
        assert forall|j: int| 0 <= j < h.len() && kn.contains(#[trigger] h[j]) implies first_position(h, h[j]) == Some(j) by {
            assert(if kn.contains(h[j]) { first_position(h, h[j]) == Some(j) } else { j < row_len });
        }
        assert(i == h.len());
        assert(unique);
        if min_len > 0 {
            let m = min_len - 1;
            assert(!kn.contains(h[m]));
            assert(if kn.contains(h[m]) { first_position(h, h[m]) == Some(m) } else { m < row_len });
        }
    }
    assert forall|row_len: nat| unique && row_len >= min_len implies #[trigger] header_accepts(h, kn, row_len) by {
        assert forall|q: int| 0 <= q < h.len() implies (if kn.contains(#[trigger] h[q]) {
            first_position(h, h[q]) == Some(q)
        } else {
            q < row_len
        }) by {}
    }
    c
}

} // verus!
