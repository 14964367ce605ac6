//! The trade journal: its CSV schema, the rows that trades write, and the
//! edits made to its text (updating a field of a trade, finding a signal,
//! migrating the schema that had no `signal_key` column).
//!
//! Reading and writing the journal's file is done by the caller, which
//! hands the file's text to these functions and writes back what they
//! return.
use vstd::prelude::*;
use crate::text::{chars_eq, chars_of, i64_to_decimal, owned, string_of, trim, trimmed};
use crate::trade_timing::TradeLatencies;

verus! {

#[verifier::external_type_specification]
#[verifier::external_body]
pub struct ExCsvError(csv::Error);

/// The table that the `csv` crate reads from `content` with headers and
/// records of varying length: the header fields and the records' fields;
/// `None` when it reports an error.
pub uninterp spec fn csv_table(content: Seq<char>) -> Option<(Seq<Seq<char>>, Seq<Seq<Seq<char>>>)>;

/// The text that the `csv` crate writes for `rows`, one record per row and
/// no header line; `None` when it reports an error.
pub uninterp spec fn csv_text(rows: Seq<Seq<Seq<char>>>) -> Option<Seq<char>>;

/// Reads `content` as CSV with `csv::ReaderBuilder` (headers on, records of
/// any length): the header fields, then each record's fields. The contract
/// says that the result is the named table of `content`, and that every
/// record has a field (the reader skips empty lines and ends a record only
/// after a field).
#[verifier::external_body]
pub(crate) fn read_csv_table(content: &str) -> (r: Result<(Vec<String>, Vec<Vec<String>>), csv::Error>)
    ensures
        r is Ok <==> csv_table(content@) is Some,
        r matches Ok(t) ==> csv_table(content@) == Some((t.0.deep_view(), t.1.deep_view())),
        r matches Ok(t) ==> rows_have_fields(t.1.deep_view()),
{
    let mut rdr = csv::ReaderBuilder::new().has_headers(true).flexible(true).from_reader(
        content.as_bytes(),
    );
    let headers: Vec<String> = rdr.headers()?.iter().map(|h| h.to_string()).collect();
    let mut rows: Vec<Vec<String>> = Vec::new();
    for record in rdr.records() {
        rows.push(record?.iter().map(|f| f.to_string()).collect());
    }
    Ok((headers, rows))
}

/// Whether the first field of the first row begins with a byte-order mark,
/// which the `csv` reader drops at the start of a text.
pub open spec fn leads_with_bom(rows: Seq<Seq<Seq<char>>>) -> bool {
    rows.len() > 0 && rows[0].len() > 0 && rows[0][0].len() > 0 && rows[0][0][0] == '\u{feff}'
}

/// All rows have the number of fields of the first (the `csv` writer
/// refuses a record whose length differs from the first one's).
pub open spec fn same_width(rows: Seq<Seq<Seq<char>>>) -> bool {
    forall|k: int| 0 <= k < rows.len() ==> #[trigger] rows[k].len() == rows[0].len()
}

/// Every row has at least one field (the `csv` writer writes a row without
/// fields as one empty field).
pub open spec fn rows_have_fields(rows: Seq<Seq<Seq<char>>>) -> bool {
    forall|k: int| 0 <= k < rows.len() ==> #[trigger] rows[k].len() > 0
}

/// A field that the writer leaves unquoted: it holds no `,`, `"`, `\r` or
/// `\n`.
pub open spec fn plain_field(f: Seq<char>) -> bool {
    forall|k: int|
        0 <= k < f.len() ==> #[trigger] f[k] != ',' && f[k] != '"' && f[k] != '\r' && f[k] != '\n'
}

/// A row that the writer writes as its fields joined by `,`: plain fields,
/// and neither no field nor one empty field (written as `""`).
pub open spec fn plain_row(row: Seq<Seq<char>>) -> bool {
    &&& forall|k: int| 0 <= k < row.len() ==> plain_field(#[trigger] row[k])
    &&& (row.len() >= 2 || (row.len() == 1 && row[0].len() > 0))
}

/// Every row of `rows` is plain.
pub open spec fn plain_rows(rows: Seq<Seq<Seq<char>>>) -> bool {
    forall|k: int| 0 <= k < rows.len() ==> plain_row(#[trigger] rows[k])
}

/// The fields of `row` joined by `,`.
pub open spec fn joined(row: Seq<Seq<char>>) -> Seq<char>
    decreases row.len(),
{
    if row.len() == 0 {
        Seq::empty()
    } else if row.len() == 1 {
        row[0]
    } else {
        joined(row.drop_last()).push(',') + row.last()
    }
}

/// The text of plain rows: each row's fields joined by `,`, then `\n`.
pub open spec fn plain_text(rows: Seq<Seq<Seq<char>>>) -> Seq<char>
    decreases rows.len(),
{
    if rows.len() == 0 {
        Seq::empty()
    } else {
        (plain_text(rows.drop_last()) + joined(rows.last())).push('\n')
    }
}

/// `text` is the writer's text of `rows`, and the reader reads it back as
/// the first row for header and the others as records when every row has
/// a field and the first field does not begin with a byte-order mark.
pub open spec fn written_as(rows: Seq<Seq<Seq<char>>>, text: Seq<char>) -> bool {
    &&& csv_text(rows) == Some(text)
    &&& (rows.len() > 0 && rows_have_fields(rows) && !leads_with_bom(rows)) ==> csv_table(text)
        == Some((rows[0], rows.skip(1)))
}

/// Writes `rows` with `csv::WriterBuilder` (no header line) into text. The
/// contract says:
/// - the result is the named text of `rows`, which the `csv` reader reads
///   back as the first row for header and the others as records, when
///   every row has a field and the text does not begin with a byte-order
///   mark;
/// - writing succeeds when all rows have the same number of fields (the
///   writer fails only on records of unequal length, writing into a `Vec`
///   cannot fail, and the output of UTF-8 fields is UTF-8);
/// - plain rows are written as their fields joined by `,`, each row ended
///   by `\n` (the default terminator, with quotes only where needed);
/// - the writer writes record by record, so the text of rows written after
///   `pre` is the text of `pre` followed by this text, when all have the
///   same number of fields.
#[verifier::external_body]
fn write_csv_rows(rows: &Vec<Vec<String>>) -> (r: Option<String>)
    ensures
        match r {
            Some(s) => csv_text(rows.deep_view()) == Some(s@),
            None => csv_text(rows.deep_view()) is None,
        },
        same_width(rows.deep_view()) ==> r is Some,
        r matches Some(s) ==> written_as(rows.deep_view(), s@),
        r matches Some(s) ==> (plain_rows(rows.deep_view()) ==> s@ == plain_text(rows.deep_view())),
        r matches Some(s) ==> forall|pre: Seq<Seq<Seq<char>>>|
            #[trigger] csv_text(pre) is Some && same_width(pre + rows.deep_view()) ==> written_as(
                pre + rows.deep_view(),
                csv_text(pre)->0 + s@,
            ),
{
    let mut wtr = csv::WriterBuilder::new().has_headers(false).from_writer(Vec::new());
    for row in rows {
        wtr.write_record(row).ok()?;
    }
    String::from_utf8(wtr.into_inner().ok()?).ok()
}

/// The message of a `csv` error (`Display`).
#[verifier::external_body]
pub(crate) fn csv_error_message(e: &csv::Error) -> String {
    e.to_string()
}

/// Why an edit of the journal's text failed.
#[derive(Debug, PartialEq, Eq)]
pub enum LoggerError {
    /// The `csv` crate reported an error, with its message.
    Csv(String),
    /// The journal has no column of this name.
    MissingColumn(String),
    /// The `csv` crate could not write the edited table.
    Render,
}

/// The columns of the journal, in order.
pub open spec fn journal_columns() -> Seq<Seq<char>> {
    seq![
        "trade_id"@,
        "signal_key"@,
        "symbol"@,
        "interval"@,
        "signal_close_time_utc"@,
        "target_candle_open_time_utc"@,
        "prediction"@,
        "entry_side"@,
        "entry_order_type"@,
        "order_status"@,
        "signal_to_submit_start_ms"@,
        "submit_start_to_ack_ms"@,
        "signal_to_ack_ms"@,
        "trade_open_to_order_ack_ms"@,
        "outcome"@,
    ]
}

/// Where the columns `trade_id`, `signal_key`, `order_status` and `outcome`
/// stand in the journal, and that its header is a plain row whose text
/// does not begin with a byte-order mark.
pub proof fn lemma_journal_columns()
    ensures
        journal_columns().len() == 15,
        column_index(journal_columns(), "trade_id"@) == Some(0int),
        column_index(journal_columns(), "signal_key"@) == Some(1int),
        column_index(journal_columns(), "order_status"@) == Some(9int),
        column_index(journal_columns(), "outcome"@) == Some(14int),
        plain_row(journal_columns()),
        !leads_with_bom(seq![journal_columns()]),
{
    reveal(column_index);
    reveal_strlit("trade_id");
    reveal_strlit("signal_key");
    reveal_strlit("symbol");
    reveal_strlit("interval");
    reveal_strlit("signal_close_time_utc");
    reveal_strlit("target_candle_open_time_utc");
    reveal_strlit("prediction");
    reveal_strlit("entry_side");
    reveal_strlit("entry_order_type");
    reveal_strlit("order_status");
    reveal_strlit("signal_to_submit_start_ms");
    reveal_strlit("submit_start_to_ack_ms");
    reveal_strlit("signal_to_ack_ms");
    reveal_strlit("trade_open_to_order_ack_ms");
    reveal_strlit("outcome");
    let h = journal_columns();
    assert forall|k: int| 0 <= k < h.len() implies plain_field(#[trigger] h[k]) by {}
    assert(h[0] == "trade_id"@);
    assert(h[1] == "signal_key"@);
    assert(h[9] == "order_status"@);
    assert(h[14] == "outcome"@);
    assert(forall|j: int| 0 <= j < 1 ==> h[j] != "signal_key"@);
    assert(forall|j: int| 0 <= j < 9 ==> h[j] != "order_status"@);
    assert(forall|j: int| 0 <= j < 14 ==> h[j] != "outcome"@);
}

/// The columns of the journal, in order.
pub fn csv_headers() -> (r: Vec<String>)
    ensures
        r.deep_view() == journal_columns(),
{
    let mut r: Vec<String> = Vec::new();
    r.push(owned("trade_id"));
    r.push(owned("signal_key"));
    r.push(owned("symbol"));
    r.push(owned("interval"));
    r.push(owned("signal_close_time_utc"));
    r.push(owned("target_candle_open_time_utc"));
    r.push(owned("prediction"));
    r.push(owned("entry_side"));
    r.push(owned("entry_order_type"));
    r.push(owned("order_status"));
    r.push(owned("signal_to_submit_start_ms"));
    r.push(owned("submit_start_to_ack_ms"));
    r.push(owned("signal_to_ack_ms"));
    r.push(owned("trade_open_to_order_ack_ms"));
    r.push(owned("outcome"));
    assert(r.deep_view() =~= journal_columns());
    r
}

/// The index of the first column named `name`.
#[verifier::opaque]
pub open spec fn column_index(headers: Seq<Seq<char>>, name: Seq<char>) -> Option<int> {
    if headers.contains(name) {
        Some(
            choose|i: int|
                0 <= i < headers.len() && headers[i] == name && forall|j: int|
                    0 <= j < i ==> headers[j] != name,
        )
    } else {
        None
    }
}

/// `row` cut or padded with empty fields to `n` fields.
pub open spec fn fit_row(row: Seq<Seq<char>>, n: nat) -> Seq<Seq<char>> {
    if row.len() >= n {
        row.take(n as int)
    } else {
        row + Seq::new((n - row.len()) as nat, |i: int| Seq::<char>::empty())
    }
}

/// A row of the journal fitted to `n` columns, with the field at `target`
/// set to `value` when its field at `id_col` is `trade_id`.
pub open spec fn updated_row(
    row: Seq<Seq<char>>,
    n: nat,
    id_col: int,
    target: int,
    trade_id: Seq<char>,
    value: Seq<char>,
) -> Seq<Seq<char>> {
    let f = fit_row(row, n);
    if 0 <= id_col < n && f[id_col] == trade_id {
        f.update(target, value)
    } else {
        f
    }
}

/// Every row of `rows` updated as `updated_row` says.
pub open spec fn updated_rows(
    rows: Seq<Seq<Seq<char>>>,
    n: nat,
    id_col: int,
    target: int,
    trade_id: Seq<char>,
    value: Seq<char>,
) -> Seq<Seq<Seq<char>>> {
    rows.map_values(|row: Seq<Seq<char>>| updated_row(row, n, id_col, target, trade_id, value))
}

proof fn lemma_updated_rows_step(
    rows: Seq<Seq<Seq<char>>>,
    i: int,
    n: nat,
    id_col: int,
    target: int,
    trade_id: Seq<char>,
    value: Seq<char>,
)
    requires
        0 <= i < rows.len(),
    ensures
        updated_rows(rows.take(i + 1), n, id_col, target, trade_id, value) == updated_rows(
            rows.take(i),
            n,
            id_col,
            target,
            trade_id,
            value,
        ).push(updated_row(rows[i], n, id_col, target, trade_id, value)),
{
    assert(updated_rows(rows.take(i + 1), n, id_col, target, trade_id, value) =~= updated_rows(
        rows.take(i),
        n,
        id_col,
        target,
        trade_id,
        value,
    ).push(updated_row(rows[i], n, id_col, target, trade_id, value)));
}

/// The rows (header first) of the journal `headers`/`rows` after setting
/// the column `target` of the trade `trade_id` to `value`; the trade id is
/// read from the column `trade_id`, or the first column when there is none.
pub open spec fn updated_journal(
    headers: Seq<Seq<char>>,
    rows: Seq<Seq<Seq<char>>>,
    target: int,
    trade_id: Seq<char>,
    value: Seq<char>,
) -> Seq<Seq<Seq<char>>> {
    let id_col = match column_index(headers, "trade_id"@) {
        Some(i) => i,
        None => 0,
    };
    seq![headers] + updated_rows(rows, headers.len(), id_col, target, trade_id, value)
}

/// The index of the first column named `name`.
pub(crate) fn find_column(headers: &Vec<String>, name: &str) -> (r: Option<usize>)
    ensures
        match r {
            Some(i) => column_index(headers.deep_view(), name@) == Some(i as int) && i
                < headers@.len(),
            None => column_index(headers.deep_view(), name@) is None,
        },
{
    reveal(column_index);
    let target = chars_of(name);
    let mut i: usize = 0;
    while i < headers.len()
        invariant
            0 <= i <= headers@.len(),
            target@ == name@,
            forall|j: int| 0 <= j < i ==> headers.deep_view()[j] != name@,
        decreases headers@.len() - i,
    {
        let h = chars_of(headers[i].as_str());
        if chars_eq(&h, &target) {
            proof {
                reveal(column_index);
                let hv = headers.deep_view();
                assert(hv[i as int] == name@);
                assert(hv.contains(name@));
                let w = choose|w: int|
                    0 <= w < hv.len() && hv[w] == name@ && forall|j: int|
                        0 <= j < w ==> hv[j] != name@;
                if w < i {
                } else if w > i {
                }
            }
            return Some(i);
        }
        i = i + 1;
    }
    proof {
        reveal(column_index);
        let hv = headers.deep_view();
        if hv.contains(name@) {
            let w = choose|w: int| 0 <= w < hv.len() && hv[w] == name@;
            assert(hv[w] != name@);
        }
    }
    None
}

/// `row` cut or padded with empty fields to `n` fields.
fn fit_row_exec(row: Vec<String>, n: usize) -> (r: Vec<String>)
    ensures
        r.deep_view() == fit_row(row.deep_view(), n as nat),
{
    let mut r = row;
    let ghost orig = r.deep_view();
    if r.len() >= n {
        r.truncate(n);
        assert(r.deep_view() =~= fit_row(orig, n as nat));
    } else {
        while r.len() < n
            invariant
                orig.len() <= r@.len() <= n,
                r.deep_view() == orig + Seq::new(
                    (r@.len() - orig.len()) as nat,
                    |i: int| Seq::<char>::empty(),
                ),
            decreases n - r@.len(),
        {
            let ghost before = r.deep_view();
            let e = String::new();
            r.push(e);
            assert(r.deep_view() =~= before.push(Seq::<char>::empty()));
            assert(r.deep_view() =~= orig + Seq::new(
                (r@.len() - orig.len()) as nat,
                |i: int| Seq::<char>::empty(),
            ));
        }
    }
    r
}

/// Sets the field `column` of the trade `trade_id` to `value` in the
/// journal's text and returns the new text; every record is fitted to the
/// number of columns.
#[verifier::rlimit(30)]
pub fn update_trade_field_csv(content: &str, trade_id: &str, column: &str, value: &str) -> (r: Result<
    String,
    LoggerError,
>)
    ensures
        csv_table(content@) is None ==> r matches Err(LoggerError::Csv(_)),
        csv_table(content@) matches Some(t) ==> {
            match column_index(t.0, column@) {
                None => r matches Err(LoggerError::MissingColumn(c)) && c@ == column@,
                Some(target) => match csv_text(
                    updated_journal(t.0, t.1, target, trade_id@, value@),
                ) {
                    Some(text) => r matches Ok(s) && s@ == text,
                    None => r matches Err(LoggerError::Render),
                },
            }
        },
        csv_table(content@) matches Some(t) && column_index(t.0, column@) is Some ==> r is Ok,
        r matches Ok(s) ==> update_reads_back(content@, s@, trade_id@, column@, value@),
{
    let (headers, records) = match read_csv_table(content) {
        Ok(t) => t,
        Err(e) => return Err(LoggerError::Csv(csv_error_message(&e))),
    };
    let ghost hv = headers.deep_view();
    let ghost rv = records.deep_view();
    let id_col = match find_column(&headers, "trade_id") {
        Some(i) => i,
        None => 0,
    };
    let target = match find_column(&headers, column) {
        Some(i) => i,
        None => return Err(LoggerError::MissingColumn(owned(column))),
    };
    let n = headers.len();
    let tid = chars_of(trade_id);
    let mut out: Vec<Vec<String>> = Vec::new();
    out.push(headers);
    let mut records = records;
    let mut i: usize = 0;
    let total = records.len();
    assert(rv.len() == total);
    while records.len() > 0
        invariant
            0 <= i <= rv.len(),
            rv.len() <= usize::MAX,
            records.deep_view() == rv.skip(i as int),
            n == hv.len(),
            target < n,
            tid@ == trade_id@,
            out.deep_view() == seq![hv] + updated_rows(
                rv.take(i as int),
                hv.len(),
                id_col as int,
                target as int,
                trade_id@,
                value@,
            ),
        decreases records@.len(),
    {
        assert(records.deep_view().len() == records@.len());
        assert(i < rv.len());
        let ghost rest = records.deep_view();
        let row = records.remove(0);
        assert(rest[0] == rv[i as int]);
        assert(records.deep_view() =~= rest.drop_first());
        assert(row.deep_view() == rv[i as int]);
        assert(records.deep_view() =~= rv.skip(i as int + 1));
        let mut fields = fit_row_exec(row, n);
        let ghost fitted = fields.deep_view();
        assert(fitted.len() == n);
        assert(fields@.len() == fitted.len());
        let hit = if id_col < n {
            let idv = chars_of(fields[id_col].as_str());
            assert(fitted[id_col as int] == fields@[id_col as int]@);
            chars_eq(&idv, &tid)
        } else {
            false
        };
        assert(hit == (0 <= id_col < n && fitted[id_col as int] == trade_id@));
        if hit {
            fields.set(target, owned(value));
            assert(fields.deep_view() =~= fitted.update(target as int, value@));
        }
        assert(fields.deep_view() == updated_row(
            rv[i as int],
            hv.len(),
            id_col as int,
            target as int,
            trade_id@,
            value@,
        ));
        let ghost prev = out.deep_view();
        let ghost fv = fields.deep_view();
        out.push(fields);
        assert(out.deep_view() =~= prev.push(fv));
        proof {
            lemma_updated_rows_step(
                rv,
                i as int,
                hv.len(),
                id_col as int,
                target as int,
                trade_id@,
                value@,
            );
        }
        assert(out.deep_view() =~= seq![hv] + updated_rows(
            rv.take(i as int + 1),
            hv.len(),
            id_col as int,
            target as int,
            trade_id@,
            value@,
        ));
        i = i + 1;
    }
    assert(i == rv.len());
    assert(rv.take(rv.len() as int) =~= rv);
    assert(out.deep_view() =~= updated_journal(hv, rv, target as int, trade_id@, value@));
    proof {
        reveal(column_index);
        lemma_updated_journal_shape(hv, rv, target as int, trade_id@, value@);
    }
    match write_csv_rows(&out) {
        Some(s) => {
            proof {
                let u = updated_journal(hv, rv, target as int, trade_id@, value@);
                reveal(column_index);
                lemma_update_idempotent(hv, rv, target as int, trade_id@, value@);
                if hv.len() > 0 && !leads_with_bom(seq![hv]) {
                    assert(csv_table(s@) == Some((hv, u.skip(1))));
                    assert(journal_after_update(s@, trade_id@, column@, value@) == Some(s@));
                }
            }
            Ok(s)
        },
        None => Err(LoggerError::Render),
    }
}

proof fn lemma_updated_journal_shape(
    headers: Seq<Seq<char>>,
    rows: Seq<Seq<Seq<char>>>,
    target: int,
    trade_id: Seq<char>,
    value: Seq<char>,
)
    requires
        0 <= target < headers.len(),
    ensures
        ({
            let u = updated_journal(headers, rows, target, trade_id, value);
            &&& same_width(u)
            &&& rows_have_fields(u)
            &&& u[0] == headers
            &&& leads_with_bom(u) == leads_with_bom(seq![headers])
        }),
{
    let u = updated_journal(headers, rows, target, trade_id, value);
    let id_col = match column_index(headers, "trade_id"@) {
        Some(i) => i,
        None => 0,
    };
    assert forall|k: int| 0 <= k < u.len() implies #[trigger] u[k].len() == headers.len() by {
        if k > 0 {
            assert(u[k] == updated_row(rows[k - 1], headers.len(), id_col, target, trade_id, value));
        }
    }
    assert(u[0] == headers);
}

proof fn lemma_update_idempotent(
    headers: Seq<Seq<char>>,
    rows: Seq<Seq<Seq<char>>>,
    target: int,
    trade_id: Seq<char>,
    value: Seq<char>,
)
    requires
        0 <= target < headers.len(),
    ensures
        updated_journal(
            headers,
            updated_journal(headers, rows, target, trade_id, value).skip(1),
            target,
            trade_id,
            value,
        ) == updated_journal(headers, rows, target, trade_id, value),
{
    let u = updated_journal(headers, rows, target, trade_id, value);
    let n = headers.len();
    let id_col = match column_index(headers, "trade_id"@) {
        Some(i) => i,
        None => 0,
    };
    let once = updated_rows(rows, n, id_col, target, trade_id, value);
    assert(u.skip(1) =~= once);
    assert forall|k: int| 0 <= k < once.len() implies #[trigger] updated_row(
        once[k],
        n,
        id_col,
        target,
        trade_id,
        value,
    ) == once[k] by {
        let f = fit_row(rows[k], n);
        assert(once[k] == updated_row(rows[k], n, id_col, target, trade_id, value));
        assert(f.len() == n);
        assert(once[k].len() == n);
        assert(fit_row(once[k], n) =~= once[k]);
        if 0 <= id_col < n && f[id_col] == trade_id {
            assert(once[k].update(target, value) =~= once[k]);
        }
    }
    assert(updated_rows(once, n, id_col, target, trade_id, value) =~= once);
}

/// Setting a field of a trade twice to the same value gives the rows that
/// setting it once gives.
pub proof fn law_update_is_idempotent(
    headers: Seq<Seq<char>>,
    rows: Seq<Seq<Seq<char>>>,
    target: int,
    trade_id: Seq<char>,
    value: Seq<char>,
)
    requires
        0 <= target < headers.len(),
    ensures
        updated_journal(
            headers,
            updated_journal(headers, rows, target, trade_id, value).skip(1),
            target,
            trade_id,
            value,
        ) == updated_journal(headers, rows, target, trade_id, value),
{
    lemma_update_idempotent(headers, rows, target, trade_id, value);
}

} // verus!

verus! {

/// The record `row` has `value` in its column `c`.
pub open spec fn field_is(row: Seq<Seq<char>>, c: int, value: Seq<char>) -> bool {
    0 <= c < row.len() && row[c] == value
}

/// Whether a record has `key` in the `signal_key` column (a record too
/// short to have that column does not).
pub open spec fn journal_has_signal(
    headers: Seq<Seq<char>>,
    rows: Seq<Seq<Seq<char>>>,
    key: Seq<char>,
) -> bool {
    let ci = column_index(headers, "signal_key"@);
    ci is Some && exists|k: int| 0 <= k < rows.len() && #[trigger] field_is(rows[k], ci->0, key)
}

/// Whether the journal's text records a trade of the signal `signal_key`.
pub fn csv_has_signal_key(content: &str, signal_key: &str) -> (r: Result<bool, LoggerError>)
    ensures
        csv_table(content@) is None ==> r matches Err(LoggerError::Csv(_)),
        csv_table(content@) matches Some(t) ==> r == Ok::<bool, LoggerError>(
            journal_has_signal(t.0, t.1, signal_key@),
        ),
{
    let (headers, records) = match read_csv_table(content) {
        Ok(t) => t,
        Err(e) => return Err(LoggerError::Csv(csv_error_message(&e))),
    };
    let ghost rv = records.deep_view();
    let col = match find_column(&headers, "signal_key") {
        Some(c) => c,
        None => return Ok(false),
    };
    let key = chars_of(signal_key);
    let mut k: usize = 0;
    while k < records.len()
        invariant
            0 <= k <= records@.len(),
            rv == records.deep_view(),
            csv_table(content@) == Some((headers.deep_view(), rv)),
            column_index(headers.deep_view(), "signal_key"@) == Some(col as int),
            key@ == signal_key@,
            forall|j: int| 0 <= j < k ==> !#[trigger] field_is(rv[j], col as int, signal_key@),
        decreases records@.len() - k,
    {
        assert(rv[k as int] == records@[k as int].deep_view());
        if col < records[k].len() {
            let f = chars_of(records[k][col].as_str());
            assert(f@ == rv[k as int][col as int]);
            if chars_eq(&f, &key) {
                assert(rv[k as int][col as int] == signal_key@);
                assert(col < rv[k as int].len());
                assert(k < rv.len());
                assert(field_is(rv[k as int], col as int, signal_key@));
                assert(column_index(headers.deep_view(), "signal_key"@) == Some(col as int));
                assert(exists|j: int| 0 <= j < rv.len() && #[trigger] field_is(rv[j], col as int, signal_key@));
                let ghost ci = column_index(headers.deep_view(), "signal_key"@);
                assert(ci is Some && ci->0 == col);
                assert(journal_has_signal(headers.deep_view(), rv, signal_key@));
                return Ok(true);
            }
        }
        k = k + 1;
    }
    Ok(false)
}

/// A record of the journal without `signal_key` moved to the current
/// schema: a record with as many fields as the old header gets an empty
/// `signal_key` after its first field; then it is fitted to `new_len`.
pub open spec fn migrated_record(fields: Seq<Seq<char>>, old_len: nat, new_len: nat) -> Seq<
    Seq<char>,
> {
    let f = if fields.len() == old_len {
        fields.insert(1, Seq::<char>::empty())
    } else {
        fields
    };
    fit_row(f, new_len)
}

/// Moves a record of the old journal schema to the current one.
pub fn migrate_record_to_current_schema(
    record: Vec<String>,
    old_header_len: usize,
    new_header_len: usize,
) -> (r: Vec<String>)
    requires
        !(record@.len() == old_header_len && old_header_len == 0),
    ensures
        r.deep_view() == migrated_record(
            record.deep_view(),
            old_header_len as nat,
            new_header_len as nat,
        ),
{
    let mut fields = record;
    let ghost orig = fields.deep_view();
    if fields.len() == old_header_len {
        fields.insert(1, String::new());
        assert(fields.deep_view() =~= orig.insert(1, Seq::<char>::empty()));
    }
    fit_row_exec(fields, new_header_len)
}

/// The current journal (header first) made from the old one.
pub open spec fn migrated_journal(headers: Seq<Seq<char>>, rows: Seq<Seq<Seq<char>>>) -> Seq<
    Seq<Seq<char>>,
> {
    seq![journal_columns()] + rows.map_values(
        |row: Seq<Seq<char>>| migrated_record(row, headers.len(), journal_columns().len()),
    )
}

/// The text of the journal moved to the current schema, when it has no
/// `signal_key` column yet; `None` when it is blank or already current. A
/// journal whose header reads as no field (such as a text holding only a
/// byte-order mark, which the reader drops) is migrated too.
pub fn migrate_csv(content: &str) -> (r: Result<Option<String>, LoggerError>)
    ensures
        trim(content@).len() == 0 ==> r matches Ok(None),
        trim(content@).len() > 0 && csv_table(content@) is None ==> r matches Err(LoggerError::Csv(_)),
        trim(content@).len() > 0 ==> (csv_table(content@) matches Some(t) ==> {
            if t.0.contains("signal_key"@) {
                r matches Ok(None)
            } else {
                match csv_text(migrated_journal(t.0, t.1)) {
                    Some(text) => r matches Ok(Some(s)) && s@ == text,
                    None => r matches Err(LoggerError::Render),
                }
            }
        }),
        r matches Ok(Some(s)) ==> (csv_table(content@) matches Some(t) ==> csv_table(s@) == Some(
            (journal_columns(), migrated_journal(t.0, t.1).skip(1)),
        )),
        r matches Ok(Some(s)) ==> (csv_table(content@) matches Some(t) ==> written_as(
            migrated_journal(t.0, t.1),
            s@,
        ) && (plain_rows(migrated_journal(t.0, t.1)) ==> s@ == plain_text(
            migrated_journal(t.0, t.1),
        ))),
        !(r matches Err(LoggerError::Render)),
{
    reveal(column_index);
    if trimmed(content).len() == 0 {
        return Ok(None);
    }
    let (headers, records) = match read_csv_table(content) {
        Ok(t) => t,
        Err(e) => return Err(LoggerError::Csv(csv_error_message(&e))),
    };
    let ghost hv = headers.deep_view();
    let ghost rv = records.deep_view();
    if find_column(&headers, "signal_key").is_some() {
        return Ok(None);
    }
    let old_len = headers.len();
    let new_headers = csv_headers();
    let new_len = new_headers.len();
    let mut out: Vec<Vec<String>> = Vec::new();
    out.push(new_headers);
    let mut records = records;
    let total = records.len();
    assert(rv.len() == total);
    let mut i: usize = 0;
    while records.len() > 0
        invariant
            0 <= i <= rv.len(),
            rv.len() <= usize::MAX,
            records.deep_view() == rv.skip(i as int),
            old_len == hv.len(),
            rows_have_fields(rv),
            new_len == journal_columns().len(),
            out.deep_view() == seq![journal_columns()] + rv.take(i as int).map_values(
                |row: Seq<Seq<char>>| migrated_record(row, hv.len(), journal_columns().len()),
            ),
        decreases records@.len(),
    {
        assert(records.deep_view().len() == records@.len());
        let ghost rest = records.deep_view();
        let row = records.remove(0);
        assert(rest[0] == rv[i as int]);
        assert(records.deep_view() =~= rest.drop_first());
        assert(records.deep_view() =~= rv.skip(i as int + 1));
        assert(row.deep_view() == rv[i as int]);
        assert(rv[i as int].len() > 0);
        let migrated = migrate_record_to_current_schema(row, old_len, new_len);
        let ghost prev = out.deep_view();
        let ghost mv = migrated.deep_view();
        out.push(migrated);
        assert(out.deep_view() =~= prev.push(mv));
        assert(out.deep_view() =~= seq![journal_columns()] + rv.take(i as int + 1).map_values(
            |row: Seq<Seq<char>>| migrated_record(row, hv.len(), journal_columns().len()),
        ));
        i = i + 1;
    }
    assert(rv.take(rv.len() as int) =~= rv);
    proof {
        let ov = out.deep_view();
        reveal_strlit("trade_id");
        assert(ov[0] == journal_columns());
        assert(ov[0][0] == "trade_id"@);
        assert forall|k: int| 0 <= k < ov.len() implies #[trigger] ov[k].len() > 0 by {
            if k > 0 {
                assert(ov[k] == migrated_record(rv[k - 1], hv.len(), journal_columns().len()));
            }
        }
        assert forall|k: int| 0 <= k < ov.len() implies #[trigger] ov[k].len() == ov[0].len() by {
            if k > 0 {
                assert(ov[k] == migrated_record(rv[k - 1], hv.len(), journal_columns().len()));
            }
        }
        assert(same_width(ov));
    }
    match write_csv_rows(&out) {
        Some(s) => Ok(Some(s)),
        None => Err(LoggerError::Render),
    }
}

/// The text of the journal's header line.
pub fn header_csv() -> (r: Option<String>)
    ensures
        match r {
            Some(s) => csv_text(seq![journal_columns()]) == Some(s@),
            None => csv_text(seq![journal_columns()]) is None,
        },
        r matches Some(s) ==> csv_table(s@) == Some(
            (journal_columns(), Seq::<Seq<Seq<char>>>::empty()),
        ),
        r is Some,
        r matches Some(s) ==> written_as(seq![journal_columns()], s@) && s@ == plain_text(
            seq![journal_columns()],
        ),
{
    let mut rows: Vec<Vec<String>> = Vec::new();
    rows.push(csv_headers());
    let ghost rv = rows.deep_view();
    assert(rv =~= seq![journal_columns()]);
    proof {
        lemma_journal_columns();
        assert(rows_have_fields(rv));
        assert(rv.skip(1) =~= Seq::<Seq<Seq<char>>>::empty());
        assert(same_width(rv));
        assert(plain_rows(rv));
    }
    write_csv_rows(&rows)
}

/// A trade as recorded in the journal, one field per column.
#[derive(Debug)]
pub struct TradeRecord {
    pub trade_id: String,
    pub signal_key: String,
    pub symbol: String,
    pub interval: String,
    pub signal_close_time_utc: String,
    pub target_candle_open_time_utc: String,
    pub prediction: String,
    pub entry_side: String,
    pub entry_order_type: String,
    pub order_status: String,
    pub signal_to_submit_start_ms: i64,
    pub submit_start_to_ack_ms: i64,
    pub signal_to_ack_ms: i64,
    pub trade_open_to_order_ack_ms: i64,
    pub outcome: String,
}

/// The fields of a trade, in the order of the journal's columns.
pub open spec fn record_fields(r: TradeRecord) -> Seq<Seq<char>> {
    seq![
        r.trade_id@,
        r.signal_key@,
        r.symbol@,
        r.interval@,
        r.signal_close_time_utc@,
        r.target_candle_open_time_utc@,
        r.prediction@,
        r.entry_side@,
        r.entry_order_type@,
        r.order_status@,
        crate::text::int_decimal(r.signal_to_submit_start_ms as int),
        crate::text::int_decimal(r.submit_start_to_ack_ms as int),
        crate::text::int_decimal(r.signal_to_ack_ms as int),
        crate::text::int_decimal(r.trade_open_to_order_ack_ms as int),
        r.outcome@,
    ]
}

/// What a new buy order records: the instants already written as
/// RFC 3339 text.
pub struct PendingBuyTradeRecord<'a> {
    pub trade_id: &'a str,
    pub signal_key: &'a str,
    pub symbol: &'a str,
    pub interval: &'a str,
    pub signal_close_time_utc: &'a str,
    pub target_candle_open_time_utc: &'a str,
    pub prediction: &'a str,
    pub entry_order_type: &'a str,
    pub order_status: &'a str,
    pub latencies: TradeLatencies,
}

impl TradeRecord {
    /// The record of a buy order just sent: side `BUY`, outcome `PENDING`.
    pub fn pending_buy(input: PendingBuyTradeRecord<'_>) -> (r: TradeRecord)
        ensures
            r.trade_id@ == input.trade_id@,
            r.signal_key@ == input.signal_key@,
            r.symbol@ == input.symbol@,
            r.interval@ == input.interval@,
            r.signal_close_time_utc@ == input.signal_close_time_utc@,
            r.target_candle_open_time_utc@ == input.target_candle_open_time_utc@,
            r.prediction@ == input.prediction@,
            r.entry_side@ == "BUY"@,
            r.entry_order_type@ == input.entry_order_type@,
            r.order_status@ == input.order_status@,
            r.signal_to_submit_start_ms == input.latencies.signal_to_submit_start_ms,
            r.submit_start_to_ack_ms == input.latencies.submit_start_to_ack_ms,
            r.signal_to_ack_ms == input.latencies.signal_to_ack_ms,
            r.trade_open_to_order_ack_ms == input.latencies.trade_open_to_order_ack_ms,
            r.outcome@ == "PENDING"@,
    {
        TradeRecord {
            trade_id: owned(input.trade_id),
            signal_key: owned(input.signal_key),
            symbol: owned(input.symbol),
            interval: owned(input.interval),
            signal_close_time_utc: owned(input.signal_close_time_utc),
            target_candle_open_time_utc: owned(input.target_candle_open_time_utc),
            prediction: owned(input.prediction),
            entry_side: owned("BUY"),
            entry_order_type: owned(input.entry_order_type),
            order_status: owned(input.order_status),
            signal_to_submit_start_ms: input.latencies.signal_to_submit_start_ms,
            submit_start_to_ack_ms: input.latencies.submit_start_to_ack_ms,
            signal_to_ack_ms: input.latencies.signal_to_ack_ms,
            trade_open_to_order_ack_ms: input.latencies.trade_open_to_order_ack_ms,
            outcome: owned("PENDING"),
        }
    }

    /// The fields of this trade, in the order of the journal's columns.
    pub fn csv_fields(&self) -> (r: Vec<String>)
        ensures
            r.deep_view() == record_fields(*self),
    {
        let mut r: Vec<String> = Vec::new();
        r.push(self.trade_id.clone());
        r.push(self.signal_key.clone());
        r.push(self.symbol.clone());
        r.push(self.interval.clone());
        r.push(self.signal_close_time_utc.clone());
        r.push(self.target_candle_open_time_utc.clone());
        r.push(self.prediction.clone());
        r.push(self.entry_side.clone());
        r.push(self.entry_order_type.clone());
        r.push(self.order_status.clone());
        r.push(string_of(&i64_to_decimal(self.signal_to_submit_start_ms)));
        r.push(string_of(&i64_to_decimal(self.submit_start_to_ack_ms)));
        r.push(string_of(&i64_to_decimal(self.signal_to_ack_ms)));
        r.push(string_of(&i64_to_decimal(self.trade_open_to_order_ack_ms)));
        r.push(self.outcome.clone());
        assert(r.deep_view() =~= record_fields(*self));
        r
    }

    /// The journal line of this trade.
    pub fn csv_line(&self) -> (r: Option<String>)
        ensures
            match r {
                Some(s) => csv_text(seq![record_fields(*self)]) == Some(s@),
                None => csv_text(seq![record_fields(*self)]) is None,
            },
            r is Some,
            r matches Some(s) ==> (!leads_with_bom(seq![record_fields(*self)]) ==> csv_table(s@)
                == Some((record_fields(*self), Seq::<Seq<Seq<char>>>::empty()))),
            r matches Some(s) ==> (plain_row(record_fields(*self)) ==> s@ == joined(
                record_fields(*self),
            ).push('\n')),
            r matches Some(s) ==> forall|pre: Seq<Seq<Seq<char>>>|
                #[trigger] csv_text(pre) is Some && same_width(pre.push(record_fields(*self)))
                    ==> written_as(pre.push(record_fields(*self)), csv_text(pre)->0 + s@),
    {
        let mut rows: Vec<Vec<String>> = Vec::new();
        rows.push(self.csv_fields());
        let ghost rv = rows.deep_view();
        let ghost f = record_fields(*self);
        assert(rv =~= seq![f]);
        assert(rv.skip(1) =~= Seq::<Seq<Seq<char>>>::empty());
        assert(same_width(rv));
        assert(rows_have_fields(rv));
        let r = write_csv_rows(&rows);
        proof {
            if r is Some {
                assert(plain_row(f) ==> plain_rows(rv));
                assert(plain_text(rv) =~= (plain_text(rv.drop_last()) + joined(f)).push('\n'));
                assert(plain_text(rv.drop_last()) =~= Seq::<char>::empty());
                assert(Seq::<char>::empty() + joined(f) =~= joined(f));
                assert forall|pre: Seq<Seq<Seq<char>>>|
                    #[trigger] csv_text(pre) is Some && same_width(pre.push(f)) implies written_as(
                    pre.push(f),
                    csv_text(pre)->0 + r->0@,
                ) by {
                    assert(pre + rv =~= pre.push(f));
                }
            }
        }
        r
    }
}

} // verus!

verus! {

/// The journal's text after setting the field `column` of the trade
/// `trade_id` to `value`; `None` when that edit fails.
pub open spec fn journal_after_update(
    content: Seq<char>,
    trade_id: Seq<char>,
    column: Seq<char>,
    value: Seq<char>,
) -> Option<Seq<char>> {
    match csv_table(content) {
        None => None,
        Some(t) => match column_index(t.0, column) {
            None => None,
            Some(target) => csv_text(updated_journal(t.0, t.1, target, trade_id, value)),
        },
    }
}

/// `after` is the writer's text of the rows read from `before` with the
/// field `column` of each record of the trade `trade_id` set to `value` and
/// every record fitted to the header (their fields joined by `,` when they
/// are plain). When `before` reads as a table whose header has a field and
/// does not begin with a byte-order mark, reading `after` gives back that
/// table, and making the same update on `after` leaves it unchanged.
pub open spec fn update_reads_back(
    before: Seq<char>,
    after: Seq<char>,
    trade_id: Seq<char>,
    column: Seq<char>,
    value: Seq<char>,
) -> bool {
    match csv_table(before) {
        Some(t) => {
            let u = updated_journal(t.0, t.1, column_index(t.0, column)->0, trade_id, value);
            &&& written_as(u, after)
            &&& plain_rows(u) ==> after == plain_text(u)
            &&& t.0.len() > 0 && !leads_with_bom(seq![t.0]) ==> csv_table(after) == Some(
                (t.0, u.skip(1)),
            ) && journal_after_update(after, trade_id, column, value) == Some(after)
        },
        None => true,
    }
}

/// An update of the trade `trade_id` sets the field `target` of its
/// records only: a record of another trade keeps all its fields, and a
/// record of this trade keeps every field but `target` (records are fitted
/// to the `n` columns of the header).
pub proof fn law_update_touches_only_its_trade(
    rows: Seq<Seq<Seq<char>>>,
    n: nat,
    id_col: int,
    target: int,
    trade_id: Seq<char>,
    value: Seq<char>,
    k: int,
)
    requires
        0 <= k < rows.len(),
        0 <= target < n,
    ensures
        ({
            let u = updated_rows(rows, n, id_col, target, trade_id, value)[k];
            let f = fit_row(rows[k], n);
            &&& u.len() == n
            &&& (0 <= id_col < n && f[id_col] == trade_id) ==> u[target] == value
            &&& forall|j: int|
                0 <= j < n && (j != target || !(0 <= id_col < n && f[id_col] == trade_id))
                    ==> #[trigger] u[j] == f[j]
        }),
{
}

/// The log line of an acknowledged order: `[ORDRE ACK] id=.. status=..
/// latence=..ms`.
pub open spec fn order_ack_message(order_id: Seq<char>, status: Seq<char>, latency_ms: int) -> Seq<
    char,
> {
    "[ORDRE ACK] id="@ + order_id + " status="@ + status + " latence="@ + crate::text::int_decimal(
        latency_ms,
    ) + "ms"@
}

/// The message reporting that an order was acknowledged.
pub fn log_order_ack(order_id: &str, status: &str, latency_ms: i64) -> (r: String)
    ensures
        r@ == order_ack_message(order_id@, status@, latency_ms as int),
{
    let mut out: Vec<char> = Vec::new();
    crate::text::push_str(&mut out, "[ORDRE ACK] id=");
    crate::text::push_str(&mut out, order_id);
    crate::text::push_str(&mut out, " status=");
    crate::text::push_str(&mut out, status);
    crate::text::push_str(&mut out, " latence=");
    crate::text::push_all(&mut out, &i64_to_decimal(latency_ms));
    crate::text::push_str(&mut out, "ms");
    let r = string_of(&out);
    assert(r@ =~= order_ack_message(order_id@, status@, latency_ms as int));
    r
}

/// The trade journal: the text of its CSV file, header line first. The
/// caller reads the file into it and writes its text back after each
/// change.
pub struct TradeLogger {
    csv: String,
}

impl View for TradeLogger {
    type V = Seq<char>;

    closed spec fn view(&self) -> Seq<char> {
        self.csv@
    }
}

impl TradeLogger {
    /// Opens the journal from the file's text (`None` when there is no
    /// file): an empty or missing file starts with the header line, and a
    /// journal without the `signal_key` column is migrated to the current
    /// schema.
    pub fn new(existing: Option<String>) -> (r: Result<TradeLogger, LoggerError>)
        ensures
            match existing {
                Some(c) => c@.len() == 0,
                None => true,
            } ==> (r matches Ok(l) && written_as(seq![journal_columns()], l@) && l@ == plain_text(
                seq![journal_columns()],
            )),
            existing matches Some(c) ==> (c@.len() > 0 ==> {
                if trim(c@).len() == 0 {
                    r matches Ok(l) && l@ == c@
                } else {
                    match csv_table(c@) {
                        None => r matches Err(LoggerError::Csv(_)),
                        Some(t) => if t.0.contains("signal_key"@) {
                            r matches Ok(l) && l@ == c@
                        } else {
                            let m = migrated_journal(t.0, t.1);
                            r matches Ok(l) && written_as(m, l@) && csv_table(l@) == Some(
                                (journal_columns(), m.skip(1)),
                            ) && (plain_rows(m) ==> l@ == plain_text(m))
                        },
                    }
                }
            }),
    {
        let content = match existing {
            Some(c) => if !c.as_str().is_empty() {
                c
            } else {
                match header_csv() {
                    Some(h) => h,
                    None => return Err(LoggerError::Render),
                }
            },
            None => match header_csv() {
                Some(h) => h,
                None => return Err(LoggerError::Render),
            },
        };
        match migrate_csv(content.as_str()) {
            Ok(Some(m)) => Ok(TradeLogger { csv: m }),
            Ok(None) => Ok(TradeLogger { csv: content }),
            Err(e) => Err(e),
        }
    }

    /// The journal's text.
    pub fn text(&self) -> (r: &str)
        ensures
            r@ == self@,
    {
        self.csv.as_str()
    }

    /// Whether the journal records a trade of the signal `signal_key`.
    pub fn has_signal_key(&self, signal_key: &str) -> (r: Result<bool, LoggerError>)
        ensures
            csv_table(self@) is None ==> r matches Err(LoggerError::Csv(_)),
            csv_table(self@) matches Some(t) ==> r == Ok::<bool, LoggerError>(
                journal_has_signal(t.0, t.1, signal_key@),
            ),
    {
        csv_has_signal_key(self.csv.as_str(), signal_key)
    }

    /// Sets the field `column` of the trade `trade_id`; the journal is left
    /// as it was when the edit fails.
    fn update_trade_field(&mut self, trade_id: &str, column: &str, value: &str) -> (r: Result<
        (),
        LoggerError,
    >)
        ensures
            match journal_after_update(old(self)@, trade_id@, column@, value@) {
                Some(t) => r is Ok && final(self)@ == t,
                None => r is Err && final(self)@ == old(self)@,
            },
            csv_table(old(self)@) matches Some(t) && column_index(t.0, column@) is Some ==> r is Ok,
            r is Ok ==> update_reads_back(old(self)@, final(self)@, trade_id@, column@, value@),
    {
        match update_trade_field_csv(self.csv.as_str(), trade_id, column, value) {
            Ok(s) => {
                self.csv = s;
                Ok(())
            },
            Err(e) => Err(e),
        }
    }

    /// Sets the `outcome` of the trade `trade_id`.
    pub fn update_outcome(&mut self, trade_id: &str, outcome: &str) -> (r: Result<(), LoggerError>)
        ensures
            match journal_after_update(old(self)@, trade_id@, "outcome"@, outcome@) {
                Some(t) => r is Ok && final(self)@ == t,
                None => r is Err && final(self)@ == old(self)@,
            },
            csv_table(old(self)@) matches Some(t) && column_index(t.0, "outcome"@) is Some ==> r is Ok,
            r is Ok ==> update_reads_back(old(self)@, final(self)@, trade_id@, "outcome"@, outcome@),
    {
        self.update_trade_field(trade_id, "outcome", outcome)
    }

    /// Sets the `order_status` of the trade `trade_id`.
    pub fn update_order_status(&mut self, trade_id: &str, order_status: &str) -> (r: Result<
        (),
        LoggerError,
    >)
        ensures
            match journal_after_update(old(self)@, trade_id@, "order_status"@, order_status@) {
                Some(t) => r is Ok && final(self)@ == t,
                None => r is Err && final(self)@ == old(self)@,
            },
            csv_table(old(self)@) matches Some(t) && column_index(t.0, "order_status"@) is Some ==> r is Ok,
            r is Ok ==> update_reads_back(old(self)@, final(self)@, trade_id@, "order_status"@, order_status@),
    {
        self.update_trade_field(trade_id, "order_status", order_status)
    }

    /// Appends the line of `record` to the journal; the line, read on its
    /// own, gives back the record's fields (unless its trade id begins
    /// with a byte-order mark, which the reader drops). When the journal is
    /// the writer's text of a table `t` whose rows have the record's
    /// number of fields, it becomes the writer's text of `t` with the
    /// record added, and reads back as `t`'s header and records followed by
    /// the record.
    pub fn log_trade(&mut self, record: &TradeRecord) -> (r: Result<(), LoggerError>)
        ensures
            r is Ok,
            csv_text(seq![record_fields(*record)]) matches Some(line) && final(self)@ == old(self)@
                + line && (!leads_with_bom(seq![record_fields(*record)]) ==> csv_table(line)
                == Some((record_fields(*record), Seq::<Seq<Seq<char>>>::empty()))),
            plain_row(record_fields(*record)) ==> final(self)@ == old(self)@ + joined(
                record_fields(*record),
            ).push('\n'),
            forall|t: Seq<Seq<Seq<char>>>|
                #[trigger] csv_text(t) == Some(old(self)@) && same_width(
                    t.push(record_fields(*record)),
                ) ==> written_as(t.push(record_fields(*record)), final(self)@),
    {
        match record.csv_line() {
            Some(line) => {
                let mut out = chars_of(self.csv.as_str());
                crate::text::push_str(&mut out, line.as_str());
                self.csv = string_of(&out);
                Ok(())
            },
            None => Err(LoggerError::Render),
        }
    }
}

} // verus!

verus! {

proof fn lemma_first_index_exists(h: Seq<Seq<char>>, name: Seq<char>)
    requires
        h.contains(name),
    ensures
        exists|w: int|
            0 <= w < h.len() && h[w] == name && forall|j: int| 0 <= j < w ==> h[j] != name,
    decreases h.len(),
{
    if h[0] == name {
        assert(forall|j: int| 0 <= j < 0 ==> h[j] != name);
    } else {
        let k = choose|k: int| 0 <= k < h.len() && h[k] == name;
        let t = h.drop_first();
        assert(t[k - 1] == name);
        lemma_first_index_exists(t, name);
        let w = choose|w: int|
            0 <= w < t.len() && t[w] == name && forall|j: int| 0 <= j < w ==> t[j] != name;
        assert(h[w + 1] == name);
        assert forall|j: int| 0 <= j < w + 1 implies h[j] != name by {
            if j > 0 {
                assert(h[j] == t[j - 1]);
            }
        }
    }
}

/// A column found by name is a column of the header with that name.
pub proof fn lemma_column_index_found(headers: Seq<Seq<char>>, name: Seq<char>)
    ensures
        column_index(headers, name) matches Some(i) ==> 0 <= i < headers.len() && headers[i]
            == name,
{
    reveal(column_index);
    if headers.contains(name) {
        lemma_first_index_exists(headers, name);
    }
}

/// A record appended to a journal is found by its signal key: when the
/// header has a `signal_key` column that the record's fields reach, the
/// journal with the record added has a trade of that signal.
pub proof fn law_appended_signal_is_found(
    headers: Seq<Seq<char>>,
    rows: Seq<Seq<Seq<char>>>,
    fields: Seq<Seq<char>>,
)
    requires
        column_index(headers, "signal_key"@) is Some,
        column_index(headers, "signal_key"@)->0 < fields.len(),
    ensures
        journal_has_signal(
            headers,
            rows.push(fields),
            fields[column_index(headers, "signal_key"@)->0],
        ),
{
    let c = column_index(headers, "signal_key"@)->0;
    lemma_column_index_found(headers, "signal_key"@);
    assert(0 <= c);
    let all = rows.push(fields);
    assert(all[rows.len() as int] == fields);
    assert(field_is(all[rows.len() as int], c, fields[c]));
}

/// Migration moves a record of the old schema to the new one: a record
/// with as many fields as the old header keeps its first field, gets an
/// empty `signal_key` second, and keeps its other fields after it; any
/// record ends with exactly the new number of fields, padded with empty
/// fields.
pub proof fn law_migrated_record(fields: Seq<Seq<char>>, old_len: nat, new_len: nat, k: int)
    requires
        fields.len() > 0,
    ensures
        migrated_record(fields, old_len, new_len).len() == new_len,
        fields.len() == old_len && 0 < new_len ==> migrated_record(fields, old_len, new_len)[0]
            == fields[0],
        fields.len() == old_len && 1 < new_len ==> migrated_record(fields, old_len, new_len)[1]
            == Seq::<char>::empty(),
        fields.len() == old_len && 1 <= k < fields.len() && k + 1 < new_len ==> migrated_record(
            fields,
            old_len,
            new_len,
        )[k + 1] == fields[k],
        fields.len() != old_len && 0 <= k < fields.len() && k < new_len ==> migrated_record(
            fields,
            old_len,
            new_len,
        )[k] == fields[k],
        0 <= k < new_len && k >= fields.len() + (if fields.len() == old_len {
            1int
        } else {
            0int
        }) ==> migrated_record(fields, old_len, new_len)[k] == Seq::<char>::empty(),
{
}

} // verus!
