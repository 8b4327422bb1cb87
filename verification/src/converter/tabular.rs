//! CSV data: rows read into objects keyed by the header, and flat objects written as rows.
use vstd::prelude::*;
use crate::errors::ConversionError;
use crate::json::JsonValue;
use crate::json_text::{json_text_spec, json_tree_of};
use crate::models::{ConversionOptions, CsvDelimiter};
use crate::strings::{chars_of, decimal, decimal_exec, push_all, string_of};

verus! {

/// The byte that separates fields: tab or semicolon when chosen, else a comma.
pub open spec fn delimiter_byte_spec(d: Option<CsvDelimiter>) -> u8 {
    match d {
        Some(CsvDelimiter::Tab) => 9u8,
        Some(CsvDelimiter::Semicolon) => 59u8,
        _ => 44u8,
    }
}

/// The field separator chosen by the options (see `delimiter_byte_spec`).
pub fn delimiter_byte(d: Option<CsvDelimiter>) -> (b: u8)
    ensures
        b == delimiter_byte_spec(d),
{
    match d {
        Some(CsvDelimiter::Tab) => 9u8,
        Some(CsvDelimiter::Semicolon) => 59u8,
        _ => 44u8,
    }
}

/// The texts of a list of strings.
pub open spec fn strings_view(v: Seq<String>) -> Seq<Seq<char>> {
    v.map_values(|s: String| s@)
}

/// The view of one record as the reader reports it: its fields, or the error's message.
pub open spec fn record_view(r: Result<Vec<String>, String>) -> Result<Seq<Seq<char>>, Seq<char>> {
    match r {
        Ok(fields) => Ok(strings_view(fields@)),
        Err(m) => Err(m@),
    }
}

// ---------------------------------------------------------------------------
// Reading
// ---------------------------------------------------------------------------

#[verifier::external_type_specification]
#[verifier::external_body]
#[verifier::reject_recursive_types(R)]
pub struct ExCsvRecords<R>(csv::StringRecordsIntoIter<R>);

/// The header row that the CSV reader finds in `content` with the given field separator:
/// its fields, or the message of the error that stopped it.
pub uninterp spec fn csv_header_of(content: Seq<char>, delimiter: u8) -> Result<
    Seq<Seq<char>>,
    Seq<char>,
>;

/// The records that the CSV reader gives after the header row, each as its fields or as
/// the message of its error.
pub uninterp spec fn csv_body_of(content: Seq<char>, delimiter: u8) -> Seq<
    Result<Seq<Seq<char>>, Seq<char>>,
>;

/// The records that an iterator over CSV records has still to give.
pub uninterp spec fn csv_records_left(records: csv::StringRecordsIntoIter<&[u8]>) -> Seq<
    Result<Seq<Seq<char>>, Seq<char>>,
>;

/// Opens `content` with csv's `ReaderBuilder` (the given delimiter, a header row) and reads
/// the header row with `Reader::headers`; on success also hands back `Reader::into_records`,
/// which gives the records after the header.
#[verifier::external_body]
fn open_csv<'a>(content: &'a str, delimiter: u8) -> (r: Result<
    (Vec<String>, csv::StringRecordsIntoIter<&'a [u8]>),
    String,
>)
    ensures
        match r {
            Ok((h, recs)) => csv_header_of(content@, delimiter) == Ok::<Seq<Seq<char>>, Seq<char>>(
                strings_view(h@),
            ) && csv_records_left(recs) == csv_body_of(content@, delimiter),
            Err(m) => csv_header_of(content@, delimiter) == Err::<Seq<Seq<char>>, Seq<char>>(m@),
        },
{
    let mut rdr = csv::ReaderBuilder::new().delimiter(delimiter).has_headers(true).from_reader(
        content.as_bytes(),
    );
    let header: Result<Vec<String>, String> = match rdr.headers() {
        Ok(h) => Ok(h.iter().map(String::from).collect()),
        Err(e) => Err(e.to_string()),
    };
    header.map(|h| (h, rdr.into_records()))
}

/// The next record of a CSV record iterator (its `Iterator::next`), as its fields or the
/// error's message; `None` once none is left.
#[verifier::external_body]
fn next_csv_record(records: &mut csv::StringRecordsIntoIter<&[u8]>) -> (r: Option<
    Result<Vec<String>, String>,
>)
    ensures
        csv_records_left(*old(records)).len() == 0 ==> r is None && csv_records_left(*final(records))
            == csv_records_left(*old(records)),
        csv_records_left(*old(records)).len() > 0 ==> r is Some && record_view(r->0)
            == csv_records_left(*old(records))[0] && csv_records_left(*final(records))
            == csv_records_left(*old(records)).drop_first(),
{
    records.next().map(|res| res.map(|rec| rec.iter().map(String::from).collect()).map_err(|e| e.to_string()))
}

/// The key of field `i`: the header's name in that column, or `column_i` past the header.
pub open spec fn csv_key(headers: Seq<Seq<char>>, i: int) -> Seq<char> {
    if i < headers.len() {
        headers[i]
    } else {
        "column_"@ + decimal(i as nat)
    }
}

/// Index of the first entry with key `k`.
pub open spec fn kv_index(es: Seq<(Seq<char>, Seq<char>)>, k: Seq<char>) -> Option<int>
    decreases es.len(),
{
    if es.len() == 0 {
        None
    } else {
        match kv_index(es.drop_last(), k) {
            Some(j) => Some(j),
            None => if es.last().0 == k {
                Some(es.len() - 1)
            } else {
                None
            },
        }
    }
}

/// Sets key `k` to `v`: an existing entry keeps its place and takes the new value, a new key
/// is appended.
pub open spec fn kv_insert(es: Seq<(Seq<char>, Seq<char>)>, k: Seq<char>, v: Seq<char>) -> Seq<
    (Seq<char>, Seq<char>),
> {
    match kv_index(es, k) {
        Some(j) => es.update(j, (k, v)),
        None => es.push((k, v)),
    }
}

/// The object made of one record: each field in turn set under its key.
pub open spec fn csv_entries(headers: Seq<Seq<char>>, fields: Seq<Seq<char>>) -> Seq<
    (Seq<char>, Seq<char>),
>
    decreases fields.len(),
{
    if fields.len() == 0 {
        Seq::empty()
    } else {
        kv_insert(
            csv_entries(headers, fields.drop_last()),
            csv_key(headers, fields.len() - 1),
            fields.last(),
        )
    }
}

/// `v` is an object whose entries are the given keys with the given texts as strings.
pub open spec fn string_object_is(v: JsonValue, kv: Seq<(Seq<char>, Seq<char>)>) -> bool {
    match v {
        JsonValue::Object(es) => es@.len() == kv.len() && forall|j: int|
            0 <= j < kv.len() ==> #[trigger] es@[j].0@ == kv[j].0 && (es@[j].1 matches JsonValue::String(
                s,
            ) && s@ == kv[j].1),
        _ => false,
    }
}

/// A record read under a header of distinct names, with no more fields than the header,
/// gives an object with exactly those header names as keys, in order, each holding its
/// field: the structure of CSV is kept.
pub proof fn law_csv_record_keeps_columns(headers: Seq<Seq<char>>, fields: Seq<Seq<char>>)
    requires
        headers.no_duplicates(),
        fields.len() <= headers.len(),
    ensures
        csv_entries(headers, fields) == Seq::new(fields.len(), |i: int| (headers[i], fields[i])),
    decreases fields.len(),
{
    if fields.len() > 0 {
        let n = fields.len() - 1;
        law_csv_record_keeps_columns(headers, fields.drop_last());
        let prev = csv_entries(headers, fields.drop_last());
        assert forall|m: int| 0 <= m < prev.len() implies prev[m].0 != headers[n] by {
            assert(prev[m].0 == headers[m]);
        }
        lemma_kv_index(prev, headers[n], prev.len() as int);
        assert(csv_entries(headers, fields) =~= Seq::new(
            fields.len(),
            |i: int| (headers[i], fields[i]),
        ));
    }
}

/// Index of the first record that is an error.
pub open spec fn first_error(body: Seq<Result<Seq<Seq<char>>, Seq<char>>>) -> Option<int>
    decreases body.len(),
{
    if body.len() == 0 {
        None
    } else if body[0] is Err {
        Some(0)
    } else {
        match first_error(body.drop_first()) {
            Some(k) => Some(k + 1),
            None => None,
        }
    }
}

/// An index moved `by` places on.
pub open spec fn shifted(o: Option<int>, by: int) -> Option<int> {
    match o {
        Some(k) => Some(k + by),
        None => None,
    }
}

/// `r` is a parse error for `file_name` with this line and message.
pub open spec fn parse_error_is(
    r: Result<JsonValue, ConversionError>,
    file_name: Seq<char>,
    at: Option<u32>,
    message: Seq<char>,
) -> bool {
    r matches Err(ConversionError::ParseError { file_name: f, line, detail }) && f@ == file_name
        && line == at && detail@ == message
}

/// What reading CSV gives, from the header row and the records after it: a header error on
/// line 1; else the first record error, on its line (records start on line 2); else an
/// array with one object per record.
pub open spec fn csv_parse_outcome(
    r: Result<JsonValue, ConversionError>,
    header: Result<Seq<Seq<char>>, Seq<char>>,
    body: Seq<Result<Seq<Seq<char>>, Seq<char>>>,
    file_name: Seq<char>,
) -> bool {
    match header {
        Err(m) => parse_error_is(r, file_name, Some(1u32), "CSV header parse error: "@ + m),
        Ok(h) => match first_error(body) {
            Some(i) => parse_error_is(
                r,
                file_name,
                Some((i + 2) as u32),
                "CSV parse error: "@ + body[i]->Err_0,
            ),
            None => r matches Ok(JsonValue::Array(items)) && items@.len() == body.len() && forall|
                i: int,
            |
                0 <= i < body.len() ==> string_object_is(
                    #[trigger] items@[i],
                    csv_entries(h, body[i]->Ok_0),
                ),
        },
    }
}

/// Item `item` is the object of record `rec`, which was read without error.
pub open spec fn csv_item_ok(
    item: JsonValue,
    headers: Seq<Seq<char>>,
    rec: Result<Seq<Seq<char>>, Seq<char>>,
) -> bool {
    rec is Ok && string_object_is(item, csv_entries(headers, rec->Ok_0))
}

/// Index of the first entry of `es` with key `k`.
fn find_key(es: &Vec<(String, JsonValue)>, k: &String) -> (r: Option<usize>)
    ensures
        match r {
            Some(j) => j < es@.len() && es@[j as int].0@ == k@ && forall|m: int|
                0 <= m < j ==> es@[m].0@ != k@,
            None => forall|m: int| 0 <= m < es@.len() ==> es@[m].0@ != k@,
        },
{
    let mut j: usize = 0;
    while j < es.len()
        invariant
            j <= es@.len(),
            forall|m: int| 0 <= m < j ==> es@[m].0@ != k@,
        decreases es@.len() - j,
    {
        if es[j].0 == *k {
            return Some(j);
        }
        j = j + 1;
    }
    None
}

/// `kv_index` is the first index holding the key.
proof fn lemma_kv_index(es: Seq<(Seq<char>, Seq<char>)>, k: Seq<char>, j: int)
    requires
        0 <= j <= es.len(),
        forall|m: int| 0 <= m < j ==> es[m].0 != k,
        j < es.len() ==> es[j].0 == k,
    ensures
        kv_index(es, k) == (if j < es.len() {
            Some(j)
        } else {
            None::<int>
        }),
    decreases es.len(),
{
    if es.len() > 0 {
        if j < es.len() - 1 {
            lemma_kv_index(es.drop_last(), k, j);
        } else {
            lemma_kv_index(es.drop_last(), k, es.len() - 1);
        }
    }
}

/// The entries of a string-valued object.
spec fn kv_of(es: Seq<(String, JsonValue)>) -> Seq<(Seq<char>, Seq<char>)> {
    Seq::new(
        es.len(),
        |j: int|
            (
                es[j].0@,
                match es[j].1 {
                    JsonValue::String(s) => s@,
                    _ => Seq::empty(),
                },
            ),
    )
}

/// All entries hold strings.
spec fn all_strings(es: Seq<(String, JsonValue)>) -> bool {
    forall|j: int| 0 <= j < es.len() ==> (#[trigger] es[j]).1 is String
}

/// The object made of one record (see `csv_entries`).
fn csv_record_object(headers: &Vec<String>, fields: &Vec<String>) -> (r: JsonValue)
    ensures
        string_object_is(r, csv_entries(strings_view(headers@), strings_view(fields@))),
{
    let ghost hv = strings_view(headers@);
    let ghost fv = strings_view(fields@);
    let mut es: Vec<(String, JsonValue)> = Vec::new();
    let mut i: usize = 0;
    while i < fields.len()
        invariant
            i <= fields@.len(),
            hv == strings_view(headers@),
            fv == strings_view(fields@),
            all_strings(es@),
            kv_of(es@) == csv_entries(hv, fv.take(i as int)),
        decreases fields@.len() - i,
    {
        let key = if i < headers.len() {
            headers[i].clone()
        } else {
            let mut k = chars_of("column_");
            let d = decimal_exec(i as u64);
            push_all(&mut k, &d);
            string_of(&k)
        };
        assert(key@ == csv_key(hv, i as int));
        let val = JsonValue::String(fields[i].clone());
        let ghost before = kv_of(es@);
        assert(fv.take(i + 1).drop_last() =~= fv.take(i as int));
        assert(fv.take(i + 1).last() == fields@[i as int]@);
        match find_key(&es, &key) {
            Some(j) => {
                proof {
                    lemma_kv_index(before, key@, j as int);
                }
                es.set(j, (key, val));
                assert(kv_of(es@) =~= before.update(j as int, (csv_key(hv, i as int), fv[i as int])));
            },
            None => {
                proof {
                    lemma_kv_index(before, key@, before.len() as int);
                }
                es.push((key, val));
                assert(kv_of(es@) =~= before.push((csv_key(hv, i as int), fv[i as int])));
            },
        }
        i = i + 1;
    }
    assert(fv.take(fv.len() as int) =~= fv);
    let r = JsonValue::Object(es);
    assert forall|j: int| 0 <= j < kv_of(es@).len() implies #[trigger] es@[j].0@ == kv_of(es@)[j].0
        && (es@[j].1 matches JsonValue::String(s) && s@ == kv_of(es@)[j].1) by {
        assert(all_strings(es@));
        assert(es@[j].1 is String);
    }
    r
}

/// Reads CSV text into an array of objects, one per record, keyed by the header row (see
/// `csv_parse_outcome`); the options choose the field separator.
pub fn parse_csv_to_json(content: &str, file_name: &str, options: &ConversionOptions) -> (r: Result<
    JsonValue,
    ConversionError,
>)
    ensures
        csv_parse_outcome(
            r,
            csv_header_of(content@, delimiter_byte_spec(options.csv_delimiter)),
            csv_body_of(content@, delimiter_byte_spec(options.csv_delimiter)),
            file_name@,
        ),
{
    let delimiter = delimiter_byte(options.csv_delimiter);
    let ghost body = csv_body_of(content@, delimiter);
    let (headers, mut records) = match open_csv(content, delimiter) {
        Ok(opened) => opened,
        Err(m) => {
            let mut d = chars_of("CSV header parse error: ");
            let mc = chars_of(m.as_str());
            push_all(&mut d, &mc);
            return Err(
                ConversionError::ParseError {
                    file_name: file_name.to_owned(),
                    line: Some(1),
                    detail: string_of(&d),
                },
            );
        },
    };
    let ghost hv = strings_view(headers@);
    let mut items: Vec<JsonValue> = Vec::new();
    let ghost mut i: int = 0;
    loop
        invariant
            0 <= i <= body.len(),
            items@.len() == i,
            body == csv_body_of(content@, delimiter),
            delimiter == delimiter_byte_spec(options.csv_delimiter),
            hv == strings_view(headers@),
            csv_header_of(content@, delimiter) == Ok::<Seq<Seq<char>>, Seq<char>>(hv),
            csv_records_left(records) == body.skip(i),
            shifted(first_error(body.skip(i)), i) == first_error(body),
            forall|j: int| 0 <= j < i ==> #[trigger] csv_item_ok(items@[j], hv, body[j]),
        ensures
            items@.len() == body.len(),
            first_error(body) is None,
            forall|j: int| 0 <= j < body.len() ==> #[trigger] csv_item_ok(items@[j], hv, body[j]),
        decreases body.len() - i,
    {
        let ghost left = body.skip(i);
        match next_csv_record(&mut records) {
            None => {
                assert(left.len() == 0);
                break;
            },
            Some(Err(m)) => {
                assert(left[0] == body[i]);
                assert(first_error(left) == Some(0int));
                let line = #[verifier::truncate] ((items.len() as u128 + 2) as u32);
                let mut d = chars_of("CSV parse error: ");
                let mc = chars_of(m.as_str());
                push_all(&mut d, &mc);
                return Err(
                    ConversionError::ParseError {
                        file_name: file_name.to_owned(),
                        line: Some(line),
                        detail: string_of(&d),
                    },
                );
            },
            Some(Ok(fields)) => {
                assert(left[0] == body[i]);
                assert(left.drop_first() =~= body.skip(i + 1));
                assert(body[i] == Ok::<Seq<Seq<char>>, Seq<char>>(strings_view(fields@)));
                let obj = csv_record_object(&headers, &fields);
                let ghost old_items = items@;
                items.push(obj);
                let ghost ni: int = i + 1;
                assert forall|j: int| 0 <= j < ni implies #[trigger] csv_item_ok(items@[j], hv, body[j]) by {
                    if j < i {
                        assert(items@[j] == old_items[j]);
                    }
                }
                assert(first_error(left) == shifted(first_error(left.drop_first()), 1));
                proof {
                    i = ni;
                }
            },
        }
    }
    let r = JsonValue::Array(items);
    assert forall|j: int| 0 <= j < body.len() implies string_object_is(
        #[trigger] items@[j],
        csv_entries(hv, body[j]->Ok_0),
    ) by {
        assert(csv_item_ok(items@[j], hv, body[j]));
    }
    Ok(r)
}

// ---------------------------------------------------------------------------
// Writing
// ---------------------------------------------------------------------------

/// A CSV writer into memory (csv's `Writer<Vec<u8>>`; Verus refuses a declaration of that
/// type because of its `io::Write` bound).
#[verifier::external_body]
pub struct CsvSink {
    writer: csv::Writer<Vec<u8>>,
}

/// The records written so far to a CSV writer into memory.
pub uninterp spec fn csv_rows_written(w: CsvSink) -> Seq<Seq<Seq<char>>>;

/// The field separator a CSV writer was made with.
pub uninterp spec fn csv_writer_delimiter(w: CsvSink) -> u8;

/// The text that the CSV writer makes of these records with this field separator (fields
/// quoted where needed, each record ended by a newline), or the message of its error.
pub uninterp spec fn csv_text_of(rows: Seq<Seq<Seq<char>>>, delimiter: u8) -> Result<
    Seq<char>,
    Seq<char>,
>;

/// A CSV writer into memory (csv's `WriterBuilder` with the given delimiter), with nothing
/// written yet.
#[verifier::external_body]
fn new_csv_writer(delimiter: u8) -> (w: CsvSink)
    ensures
        csv_rows_written(w) == Seq::<Seq<Seq<char>>>::empty(),
        csv_writer_delimiter(w) == delimiter,
{
    CsvSink { writer: csv::WriterBuilder::new().delimiter(delimiter).from_writer(Vec::new()) }
}

/// Writes one record with `Writer::write_record`. The writer only fails when a record's
/// length differs from the first record's (it is not flexible) or when the sink fails, and a
/// `Vec<u8>` sink does not fail; so a record as long as the first one is written.
#[verifier::external_body]
fn write_csv_row(w: &mut CsvSink, row: &Vec<String>) -> (r: Result<(), String>)
    requires
        csv_rows_written(*old(w)).len() > 0 ==> csv_rows_written(*old(w))[0].len() == row@.len(),
    ensures
        r is Ok,
        csv_rows_written(*final(w)) == csv_rows_written(*old(w)).push(strings_view(row@)),
        csv_writer_delimiter(*final(w)) == csv_writer_delimiter(*old(w)),
{
    w.writer.write_record(row).map_err(|e| e.to_string())
}

/// Flushes the writer with `Writer::into_inner` and reads its bytes as UTF-8 text. Flushing
/// into a `Vec<u8>` does not fail, and the bytes are the records' UTF-8 text with ASCII
/// quotes and line ends between; so with an ASCII separator the text is read back.
#[verifier::external_body]
fn finish_csv(w: CsvSink) -> (r: Result<String, String>)
    ensures
        csv_writer_delimiter(w) < 128 ==> r is Ok,
        match r {
            Ok(t) => csv_text_of(csv_rows_written(w), csv_writer_delimiter(w)) == Ok::<
                Seq<char>,
                Seq<char>,
            >(t@),
            Err(m) => csv_text_of(csv_rows_written(w), csv_writer_delimiter(w)) == Err::<
                Seq<char>,
                Seq<char>,
            >(m@),
        },
{
    match w.writer.into_inner() {
        Ok(bytes) => String::from_utf8(bytes).map_err(|e| e.to_string()),
        Err(e) => Err(e.to_string()),
    }
}

/// Why a value cannot be laid out as CSV.
#[derive(Clone, Copy, Debug, PartialEq, Eq, Structural)]
pub enum CsvRefusal {
    /// Neither an array nor an object.
    NotTabular,
    /// An entry holds an object or an array.
    Nested,
    /// An array item is not an object.
    NotObject,
}

/// The text that names a refusal in the error.
pub open spec fn refusal_text(e: CsvRefusal) -> Seq<char> {
    match e {
        CsvRefusal::NotTabular => "CSV (データが配列またはオブジェクトではありません)"@,
        CsvRefusal::Nested => "CSV (ネストされたオブジェクトや配列を含むデータはCSVに変換できません)"@,
        CsvRefusal::NotObject => "CSV (配列内の要素がオブジェクトではありません)"@,
    }
}

/// The items laid out as rows: those of an array, or an object alone.
pub open spec fn csv_items(v: JsonValue) -> Option<Seq<JsonValue>> {
    match v {
        JsonValue::Array(items) => Some(items@),
        JsonValue::Object(_) => Some(seq![v]),
        _ => None,
    }
}

/// A lone object is written as CSV exactly as an array holding only that object.
pub proof fn law_lone_object_as_array(
    o: JsonValue,
    a: JsonValue,
    r: Result<String, ConversionError>,
    file_name: Seq<char>,
    delimiter: u8,
)
    requires
        o is Object,
        a matches JsonValue::Array(items) && items@ == seq![o],
    ensures
        csv_items(o) == csv_items(a),
        csv_write_outcome(r, o, file_name, delimiter) == csv_write_outcome(r, a, file_name, delimiter),
{
}

/// An object or an array.
pub open spec fn is_container(v: JsonValue) -> bool {
    v is Object || v is Array
}

/// The header with `k` added at the end unless it is there.
pub open spec fn add_header(h: Seq<Seq<char>>, k: Seq<char>) -> Seq<Seq<char>> {
    if h.contains(k) {
        h
    } else {
        h.push(k)
    }
}

/// The header after the entries of one object, in order; an entry that holds an object or an
/// array refuses.
pub open spec fn scan_entries(h: Seq<Seq<char>>, es: Seq<(String, JsonValue)>) -> Result<
    Seq<Seq<char>>,
    CsvRefusal,
>
    decreases es.len(),
{
    if es.len() == 0 {
        Ok(h)
    } else {
        match scan_entries(h, es.drop_last()) {
            Err(e) => Err(e),
            Ok(h2) => if is_container(es.last().1) {
                Err(CsvRefusal::Nested)
            } else {
                Ok(add_header(h2, es.last().0@))
            },
        }
    }
}

/// The header of a list of items: every key in the order first met, item by item; the first
/// item that is not an object, or the first nested entry, refuses.
pub open spec fn scan_items(items: Seq<JsonValue>) -> Result<Seq<Seq<char>>, CsvRefusal>
    decreases items.len(),
{
    if items.len() == 0 {
        Ok(Seq::empty())
    } else {
        match scan_items(items.drop_last()) {
            Err(e) => Err(e),
            Ok(h) => match items.last() {
                JsonValue::Object(es) => scan_entries(h, es@),
                _ => Err(CsvRefusal::NotObject),
            },
        }
    }
}

/// An object with an entry that holds an object or an array cannot be laid out, whatever
/// header came before it.
proof fn lemma_nested_entry_refused(h: Seq<Seq<char>>, es: Seq<(String, JsonValue)>, j: int)
    requires
        0 <= j < es.len(),
        is_container(es[j].1),
    ensures
        scan_entries(h, es) is Err,
    decreases es.len(),
{
    if j < es.len() - 1 {
        lemma_nested_entry_refused(h, es.drop_last(), j);
    }
}

/// Data with a nested object or array anywhere in its items is refused as CSV: writing it
/// gives an error, never a partial table.
pub proof fn law_nested_data_refused(items: Seq<JsonValue>, i: int, j: int)
    requires
        0 <= i < items.len(),
        items[i] is Object,
        0 <= j < items[i]->Object_0@.len(),
        is_container(items[i]->Object_0@[j].1),
    ensures
        scan_items(items) is Err,
    decreases items.len(),
{
    if i < items.len() - 1 {
        law_nested_data_refused(items.drop_last(), i, j);
    } else {
        match scan_items(items.drop_last()) {
            Ok(h) => {
                lemma_nested_entry_refused(h, items[i]->Object_0@, j);
            },
            Err(_) => {},
        }
    }
}

/// The value of the first entry with key `k`.
pub open spec fn lookup_value(es: Seq<(String, JsonValue)>, k: Seq<char>) -> Option<JsonValue>
    decreases es.len(),
{
    if es.len() == 0 {
        None
    } else {
        match lookup_value(es.drop_last(), k) {
            Some(v) => Some(v),
            None => if es.last().0@ == k {
                Some(es.last().1)
            } else {
                None
            },
        }
    }
}

/// The text of a cell: a string as it is, a number in its decimal form, a boolean as `true`
/// or `false`; null or a missing key gives an empty cell.
pub open spec fn cell_text(v: Option<JsonValue>) -> Seq<char> {
    match v {
        Some(JsonValue::String(s)) => s@,
        Some(JsonValue::Number(n)) => n@,
        Some(JsonValue::Bool(b)) => if b {
            "true"@
        } else {
            "false"@
        },
        _ => Seq::empty(),
    }
}

/// The row of one item: its cell under each header.
pub open spec fn row_of(h: Seq<Seq<char>>, item: JsonValue) -> Seq<Seq<char>> {
    Seq::new(
        h.len(),
        |j: int|
            match item {
                JsonValue::Object(es) => cell_text(lookup_value(es@, h[j])),
                _ => Seq::empty(),
            },
    )
}

/// A boolean or a number under a header is written in its cell as its JSON text (a boolean
/// as `true` or `false`, a number as its digits), and a boolean's cell is never the empty
/// cell that a null item or a missing key gives.
pub proof fn law_scalar_cells_as_json(h: Seq<Seq<char>>, es: Vec<(String, JsonValue)>, j: int, v: JsonValue)
    requires
        0 <= j < h.len(),
        lookup_value(es@, h[j]) == Some(v),
        v is Bool || v is Number,
    ensures
        row_of(h, JsonValue::Object(es))[j] == json_text_spec(json_tree_of(v)),
        v is Bool ==> row_of(h, JsonValue::Object(es))[j] != row_of(h, JsonValue::Null)[j],
{
    reveal_strlit("true");
    reveal_strlit("false");
    assert("true"@ =~= seq!['t', 'r', 'u', 'e']);
    assert("false"@ =~= seq!['f', 'a', 'l', 's', 'e']);
}

/// The records written: the header, then one row per item.
pub open spec fn csv_rows(h: Seq<Seq<char>>, items: Seq<JsonValue>) -> Seq<Seq<Seq<char>>> {
    seq![h] + Seq::new(items.len(), |i: int| row_of(h, items[i]))
}

/// What writing `v` as CSV gives: an error for data that is not a flat list of objects, an
/// empty text for an empty array, else the writer's text of the header and the rows.
pub open spec fn csv_write_outcome(
    r: Result<String, ConversionError>,
    v: JsonValue,
    file_name: Seq<char>,
    delimiter: u8,
) -> bool {
    match csv_items(v) {
        None => refused_as(r, CsvRefusal::NotTabular),
        Some(items) => if items.len() == 0 {
            r matches Ok(t) && t@ == Seq::<char>::empty()
        } else {
            match scan_items(items) {
                Err(e) => refused_as(r, e),
                Ok(h) => match csv_text_of(csv_rows(h, items), delimiter) {
                    Ok(t) => r matches Ok(s) && s@ == t,
                    Err(m) => r matches Err(ConversionError::EncodeError { file_name: f, detail })
                        && f@ == file_name && detail@ == m,
                },
            }
        },
    }
}

/// `r` is the refusal to write CSV for reason `e`.
pub open spec fn refused_as(r: Result<String, ConversionError>, e: CsvRefusal) -> bool {
    r matches Err(ConversionError::UnsupportedConversion { from, to }) && from@
        == "structured data"@ && to@ == refusal_text(e)
}

/// Item `i` of the items laid out as rows.
fn csv_item(value: &JsonValue, i: usize) -> (r: &JsonValue)
    requires
        csv_items(*value) is Some,
        i < csv_items(*value)->Some_0.len(),
    ensures
        *r == csv_items(*value)->Some_0[i as int],
{
    match value {
        JsonValue::Array(items) => &items[i],
        _ => value,
    }
}

/// How many items are laid out as rows, if the value can be.
fn csv_item_count(value: &JsonValue) -> (r: Option<usize>)
    ensures
        match csv_items(*value) {
            Some(items) => r == Some(items.len() as usize) && items.len() <= usize::MAX,
            None => r is None,
        },
{
    match value {
        JsonValue::Array(items) => Some(items.len()),
        JsonValue::Object(_) => Some(1),
        _ => None,
    }
}

/// Whether the header holds `k`.
fn header_contains(h: &Vec<String>, k: &String) -> (r: bool)
    ensures
        r == strings_view(h@).contains(k@),
{
    let mut j: usize = 0;
    while j < h.len()
        invariant
            j <= h@.len(),
            forall|m: int| 0 <= m < j ==> h@[m]@ != k@,
        decreases h@.len() - j,
    {
        if h[j] == *k {
            assert(strings_view(h@)[j as int] == k@);
            return true;
        }
        j = j + 1;
    }
    assert forall|m: int| 0 <= m < strings_view(h@).len() implies strings_view(h@)[m] != k@ by {
        assert(strings_view(h@)[m] == h@[m]@);
    }
    false
}

/// Adds the keys of one object to the header (see `scan_entries`).
fn scan_object(h: &mut Vec<String>, es: &Vec<(String, JsonValue)>) -> (r: Result<(), CsvRefusal>)
    ensures
        match scan_entries(strings_view(old(h)@), es@) {
            Ok(h2) => r is Ok && strings_view(final(h)@) == h2,
            Err(e) => r == Err::<(), CsvRefusal>(e),
        },
{
    let ghost h0 = strings_view(h@);
    let mut i: usize = 0;
    while i < es.len()
        invariant
            i <= es@.len(),
            h0 == strings_view(old(h)@),
            scan_entries(h0, es@.take(i as int)) == Ok::<Seq<Seq<char>>, CsvRefusal>(
                strings_view(h@),
            ),
        decreases es@.len() - i,
    {
        assert(es@.take(i + 1).drop_last() =~= es@.take(i as int));
        assert(es@.take(i + 1).last() == es@[i as int]);
        let nested = match &es[i].1 {
            JsonValue::Object(_) => true,
            JsonValue::Array(_) => true,
            _ => false,
        };
        if nested {
            proof {
                lemma_scan_entries_prefix(h0, es@, i as int + 1);
            }
            return Err(CsvRefusal::Nested);
        }
        let ghost before = strings_view(h@);
        if !header_contains(h, &es[i].0) {
            h.push(es[i].0.clone());
            assert(strings_view(h@) =~= before.push(es@[i as int].0@));
        }
        i = i + 1;
    }
    assert(es@.take(es@.len() as int) =~= es@);
    Ok(())
}

/// A refusal met in a prefix of the entries stays the outcome of all of them.
proof fn lemma_scan_entries_prefix(h: Seq<Seq<char>>, es: Seq<(String, JsonValue)>, n: int)
    requires
        0 <= n <= es.len(),
        scan_entries(h, es.take(n)) is Err,
    ensures
        scan_entries(h, es) == scan_entries(h, es.take(n)),
    decreases es.len() - n,
{
    if n < es.len() {
        assert(es.take(n + 1).drop_last() =~= es.take(n));
        lemma_scan_entries_prefix(h, es, n + 1);
    } else {
        assert(es.take(n) =~= es);
    }
}

/// A refusal met in a prefix of the items stays the outcome of all of them.
proof fn lemma_scan_items_prefix(items: Seq<JsonValue>, n: int)
    requires
        0 <= n <= items.len(),
        scan_items(items.take(n)) is Err,
    ensures
        scan_items(items) == scan_items(items.take(n)),
    decreases items.len() - n,
{
    if n < items.len() {
        assert(items.take(n + 1).drop_last() =~= items.take(n));
        lemma_scan_items_prefix(items, n + 1);
    } else {
        assert(items.take(n) =~= items);
    }
}

/// The header of all items, or why they cannot be laid out (see `scan_items`).
fn csv_header(value: &JsonValue, n: usize) -> (r: Result<Vec<String>, CsvRefusal>)
    requires
        csv_items(*value) is Some,
        n == csv_items(*value)->Some_0.len(),
    ensures
        match scan_items(csv_items(*value)->Some_0) {
            Ok(h) => r matches Ok(hv) && strings_view(hv@) == h,
            Err(e) => r == Err::<Vec<String>, CsvRefusal>(e),
        },
{
    let ghost items = csv_items(*value)->Some_0;
    let mut h: Vec<String> = Vec::new();
    let mut i: usize = 0;
    assert(strings_view(h@) =~= Seq::<Seq<char>>::empty());
    while i < n
        invariant
            i <= n,
            n == items.len(),
            csv_items(*value) is Some,
            items == csv_items(*value)->Some_0,
            scan_items(items.take(i as int)) == Ok::<Seq<Seq<char>>, CsvRefusal>(strings_view(h@)),
        decreases n - i,
    {
        assert(items.take(i + 1).drop_last() =~= items.take(i as int));
        assert(items.take(i + 1).last() == items[i as int]);
        let item = csv_item(value, i);
        match item {
            JsonValue::Object(es) => {
                match scan_object(&mut h, es) {
                    Ok(()) => {},
                    Err(e) => {
                        proof {
                            lemma_scan_items_prefix(items, i + 1);
                        }
                        return Err(e);
                    },
                }
            },
            _ => {
                proof {
                    lemma_scan_items_prefix(items, i + 1);
                }
                return Err(CsvRefusal::NotObject);
            },
        }
        i = i + 1;
    }
    assert(items.take(n as int) =~= items);
    Ok(h)
}

/// `lookup_value` gives the value of the first entry holding the key.
proof fn lemma_lookup_value(es: Seq<(String, JsonValue)>, k: Seq<char>, j: int)
    requires
        0 <= j <= es.len(),
        forall|m: int| 0 <= m < j ==> es[m].0@ != k,
        j < es.len() ==> es[j].0@ == k,
    ensures
        lookup_value(es, k) == (if j < es.len() {
            Some(es[j].1)
        } else {
            None::<JsonValue>
        }),
    decreases es.len(),
{
    if es.len() > 0 {
        if j < es.len() - 1 {
            lemma_lookup_value(es.drop_last(), k, j);
        } else {
            lemma_lookup_value(es.drop_last(), k, es.len() - 1);
        }
    }
}

/// The cell of an object under header `k` (see `cell_text`).
fn cell_of(es: &Vec<(String, JsonValue)>, k: &String) -> (r: String)
    ensures
        r@ == cell_text(lookup_value(es@, k@)),
{
    match find_key(es, k) {
        Some(j) => {
            proof {
                lemma_lookup_value(es@, k@, j as int);
            }
            match &es[j].1 {
                JsonValue::String(s) => s.clone(),
                JsonValue::Number(n) => n.clone(),
                JsonValue::Bool(b) => if *b {
                    "true".to_owned()
                } else {
                    "false".to_owned()
                },
                _ => String::new(),
            }
        },
        None => {
            proof {
                lemma_lookup_value(es@, k@, es@.len() as int);
            }
            String::new()
        },
    }
}

/// The row of one item under the header (see `row_of`).
fn csv_row(h: &Vec<String>, item: &JsonValue) -> (r: Vec<String>)
    ensures
        strings_view(r@) == row_of(strings_view(h@), *item),
{
    let mut row: Vec<String> = Vec::new();
    let mut j: usize = 0;
    while j < h.len()
        invariant
            j <= h@.len(),
            row@.len() == j,
            forall|m: int| 0 <= m < j ==> #[trigger] row@[m]@ == row_of(strings_view(h@), *item)[m],
        decreases h@.len() - j,
    {
        let cell = match item {
            JsonValue::Object(es) => cell_of(es, &h[j]),
            _ => String::new(),
        };
        row.push(cell);
        j = j + 1;
    }
    assert(strings_view(row@) =~= row_of(strings_view(h@), *item));
    row
}

/// Writes a flat array of objects (or one object) as CSV: a header of every key in the
/// order first met, then one row per object (see `csv_write_outcome`); the options choose
/// the field separator.
pub fn serialize_to_csv(value: &JsonValue, file_name: &str, options: &ConversionOptions) -> (r:
    Result<String, ConversionError>)
    ensures
        csv_write_outcome(r, *value, file_name@, delimiter_byte_spec(options.csv_delimiter)),
        (csv_items(*value) matches Some(items) && scan_items(items) is Ok) ==> r is Ok,
{
    let n = match csv_item_count(value) {
        Some(n) => n,
        None => {
            return Err(
                ConversionError::UnsupportedConversion {
                    from: "structured data".to_owned(),
                    to: "CSV (データが配列またはオブジェクトではありません)".to_owned(),
                },
            );
        },
    };
    if n == 0 {
        return Ok(String::new());
    }
    let ghost items = csv_items(*value)->Some_0;
    let h = match csv_header(value, n) {
        Ok(h) => h,
        Err(e) => {
            let to = match e {
                CsvRefusal::NotTabular => "CSV (データが配列またはオブジェクトではありません)",
                CsvRefusal::Nested => "CSV (ネストされたオブジェクトや配列を含むデータはCSVに変換できません)",
                CsvRefusal::NotObject => "CSV (配列内の要素がオブジェクトではありません)",
            };
            return Err(
                ConversionError::UnsupportedConversion {
                    from: "structured data".to_owned(),
                    to: to.to_owned(),
                },
            );
        },
    };
    let ghost hv = strings_view(h@);
    let delimiter = delimiter_byte(options.csv_delimiter);
    let mut w = new_csv_writer(delimiter);
    match write_csv_row(&mut w, &h) {
        Ok(()) => {},
        Err(m) => {
            return Err(ConversionError::EncodeError { file_name: file_name.to_owned(), detail: m });
        },
    }
    let mut i: usize = 0;
    while i < n
        invariant
            i <= n,
            n == items.len(),
            csv_items(*value) is Some,
            items == csv_items(*value)->Some_0,
            hv == strings_view(h@),
            csv_writer_delimiter(w) == delimiter,
            csv_rows_written(w) == csv_rows(hv, items).take(i + 1),
        decreases n - i,
    {
        let item = csv_item(value, i);
        let row = csv_row(&h, item);
        assert(csv_rows_written(w)[0] == hv);
        assert(strings_view(row@).len() == row@.len());
        match write_csv_row(&mut w, &row) {
            Ok(()) => {},
            Err(m) => {
                return Err(
                    ConversionError::EncodeError { file_name: file_name.to_owned(), detail: m },
                );
            },
        }
        assert(csv_rows_written(w) =~= csv_rows(hv, items).take(i + 2));
        i = i + 1;
    }
    assert(csv_rows(hv, items).take(n + 1) =~= csv_rows(hv, items));
    match finish_csv(w) {
        Ok(t) => Ok(t),
        Err(m) => Err(ConversionError::EncodeError { file_name: file_name.to_owned(), detail: m }),
    }
}

} // verus!
