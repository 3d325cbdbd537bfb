//! The backing file: a header row `id,title,is_completed`, then one record
//! per task. The csv crate splits and joins the records; the schema of a
//! record is defined and checked here.
use vstd::prelude::*;
use crate::text::{chars_of, decimal, format_u32, parse_decimal, parse_u32, lemma_decimal_round_trip};
use crate::todo::{Todo, TodoSpec, todos_view};

verus! {

/// The records that `csv::Reader` reads from `text`, in order; `None` for a
/// record that it could not read.
pub uninterp spec fn csv_rows(text: Seq<u8>) -> Seq<Option<Seq<Seq<char>>>>;

/// The text that `csv::Writer` writes for `rows`.
pub uninterp spec fn csv_text(rows: Seq<Seq<Seq<char>>>) -> Seq<u8>;

/// Relies on `csv::Reader::records`, reading every row as a record (no header
/// row of its own) and refusing a record whose field count differs from the
/// first one's.
#[verifier::external_body]
fn read_csv(text: &[u8]) -> (r: Vec<Option<Vec<String>>>)
    ensures
        r.deep_view() == csv_rows(text@),
{
    let mut rdr = csv::ReaderBuilder::new().has_headers(false).from_reader(text);
    rdr.records().map(|rec| rec.ok().map(|rec| rec.iter().map(|f| f.to_string()).collect()))
        .collect()
}

/// All rows have the same number of fields.
pub open spec fn uniform(rows: Seq<Seq<Seq<char>>>) -> bool {
    forall|i: int| 0 <= i < rows.len() ==> #[trigger] rows[i].len() == rows[0].len()
}

/// Rows that `csv::Reader` reads back as written: of one length, at least two
/// fields each (a lone empty field is written specially), and the text does
/// not open with a byte order mark (the reader strips one).
pub open spec fn reads_back(rows: Seq<Seq<Seq<char>>>) -> bool {
    &&& uniform(rows)
    &&& rows.len() > 0 ==> rows[0].len() >= 2
    &&& rows.len() > 0 ==> !(rows[0][0].len() > 0 && rows[0][0][0] == '\u{feff}')
}

/// Relies on `csv::Writer::write_record` and `csv::Writer::into_inner`,
/// writing `rows` in order into memory: writing into a `Vec` fails only on
/// records of unequal length, and with the default settings (fields that hold
/// a delimiter, quote or line break are quoted, quotes doubled) the reader of
/// `read_csv` gives back the same records.
#[verifier::external_body]
fn write_csv(rows: &Vec<Vec<String>>) -> (r: Option<Vec<u8>>)
    ensures
        r matches Some(b) ==> b@ == csv_text(rows.deep_view()),
        uniform(rows.deep_view()) ==> r is Some,
        r matches Some(b) ==> (reads_back(rows.deep_view()) ==> csv_rows(b@)
            == rows.deep_view().map_values(|x: Seq<Seq<char>>| Some(x))),
{
    let mut wtr = csv::Writer::from_writer(Vec::new());
    for row in rows {
        if wtr.write_record(row).is_err() {
            return None;
        }
    }
    wtr.into_inner().ok()
}

pub open spec fn id_name() -> Seq<char> {
    seq!['i', 'd']
}

pub open spec fn title_name() -> Seq<char> {
    seq!['t', 'i', 't', 'l', 'e']
}

pub open spec fn completed_name() -> Seq<char> {
    seq!['i', 's', '_', 'c', 'o', 'm', 'p', 'l', 'e', 't', 'e', 'd']
}

/// The header row of the backing file.
pub open spec fn header() -> Seq<Seq<char>> {
    seq![id_name(), title_name(), completed_name()]
}

/// How a completion flag is written.
pub open spec fn flag_text(b: bool) -> Seq<char> {
    if b {
        seq!['t', 'r', 'u', 'e']
    } else {
        seq!['f', 'a', 'l', 's', 'e']
    }
}

/// How a completion flag is read: `true` or `false`, nothing else.
pub open spec fn parse_flag(s: Seq<char>) -> Option<bool> {
    if s == flag_text(true) {
        Some(true)
    } else if s == flag_text(false) {
        Some(false)
    } else {
        None
    }
}

/// The record of one task.
pub open spec fn record_of(t: TodoSpec) -> Seq<Seq<char>> {
    seq![decimal(t.id as nat), t.title, flag_text(t.is_completed)]
}

/// The task that a record holds, if it is well formed.
pub open spec fn todo_of_record(r: Seq<Seq<char>>) -> Option<TodoSpec> {
    if r.len() == 3 && parse_decimal(r[0]) is Some && parse_flag(r[2]) is Some {
        Some(TodoSpec { id: parse_decimal(r[0])->0, title: r[1], is_completed: parse_flag(r[2])->0 })
    } else {
        None
    }
}

/// All the rows of the file for a list of tasks: the header, then one record each.
pub open spec fn table_of(ts: Seq<TodoSpec>) -> Seq<Seq<Seq<char>>> {
    seq![header()] + ts.map_values(|t: TodoSpec| record_of(t))
}

/// The tasks of the well-formed records among `rows`, in order; the others
/// are skipped.
pub open spec fn kept(rows: Seq<Option<Seq<Seq<char>>>>) -> Seq<TodoSpec>
    decreases rows.len(),
{
    if rows.len() == 0 {
        Seq::empty()
    } else {
        let rest = kept(rows.drop_last());
        match rows.last() {
            Some(r) => match todo_of_record(r) {
                Some(t) => rest.push(t),
                None => rest,
            },
            None => rest,
        }
    }
}

/// The tasks that a file's rows hold: none unless the first row is the
/// header; else those of the well-formed records after it.
pub open spec fn todos_of_rows(rows: Seq<Option<Seq<Seq<char>>>>) -> Seq<TodoSpec> {
    if rows.len() > 0 && rows[0] == Some(header()) {
        kept(rows.drop_first())
    } else {
        Seq::empty()
    }
}

proof fn lemma_record_round_trip(t: TodoSpec)
    ensures
        todo_of_record(record_of(t)) == Some(t),
{
    lemma_decimal_round_trip(t.id as nat);
    assert(flag_text(true) != flag_text(false)) by {
        assert(flag_text(true).len() != flag_text(false).len());
    }
    let r = record_of(t);
    assert(r[0] == decimal(t.id as nat));
    assert(parse_decimal(r[0]) == Some(t.id));
}

proof fn lemma_kept_records(ts: Seq<TodoSpec>)
    ensures
        kept(ts.map_values(|t: TodoSpec| Some(record_of(t)))) == ts,
    decreases ts.len(),
{
    if ts.len() > 0 {
        let rows = ts.map_values(|t: TodoSpec| Some(record_of(t)));
        assert(rows.drop_last() =~= ts.drop_last().map_values(|t: TodoSpec| Some(record_of(t))));
        lemma_kept_records(ts.drop_last());
        lemma_record_round_trip(ts.last());
        assert(ts.drop_last().push(ts.last()) =~= ts);
    }
}

/// Reading back the rows written for a list of tasks gives the same list,
/// for every list, the empty one included.
pub proof fn lemma_round_trip(ts: Seq<TodoSpec>)
    ensures
        todos_of_rows(table_of(ts).map_values(|r: Seq<Seq<char>>| Some(r))) == ts,
{
    let rows = table_of(ts).map_values(|r: Seq<Seq<char>>| Some(r));
    assert(rows.drop_first() =~= ts.map_values(|t: TodoSpec| Some(record_of(t))));
    lemma_kept_records(ts);
}

/// An owned copy of `lit`.
fn text_of(lit: &str) -> (r: String)
    ensures
        r@ == lit@,
{
    lit.to_owned()
}

fn header_row() -> (r: Vec<String>)
    ensures
        r@.len() == 3,
        r.deep_view() == header(),
{
    proof {
        reveal_strlit("id");
        reveal_strlit("title");
        reveal_strlit("is_completed");
        assert("id"@ =~= id_name());
        assert("title"@ =~= title_name());
        assert("is_completed"@ =~= completed_name());
    }
    let r = vec![text_of("id"), text_of("title"), text_of("is_completed")];
    assert(r.deep_view() =~= header());
    r
}

fn flag_string(b: bool) -> (r: String)
    ensures
        r@ == flag_text(b),
{
    proof {
        reveal_strlit("true");
        reveal_strlit("false");
        assert("true"@ =~= flag_text(true));
        assert("false"@ =~= flag_text(false));
    }
    if b {
        text_of("true")
    } else {
        text_of("false")
    }
}

fn read_flag(s: &String) -> (r: Option<bool>)
    ensures
        r == parse_flag(s@),
{
    if *s == flag_string(true) {
        Some(true)
    } else if *s == flag_string(false) {
        Some(false)
    } else {
        None
    }
}

fn record_row(t: &Todo) -> (r: Vec<String>)
    ensures
        r.deep_view() == record_of(t@),
{
    let r = vec![format_u32(t.id), t.title.clone(), flag_string(t.is_completed)];
    assert(r.deep_view() =~= record_of(t@));
    r
}

/// The task that a record holds, or `None` where the record is malformed.
pub fn todo_from_record(rec: &Vec<String>) -> (r: Option<Todo>)
    ensures
        r matches Some(t) ==> todo_of_record(rec.deep_view()) == Some(t@),
        r is None ==> todo_of_record(rec.deep_view()) is None,
{
    if rec.len() != 3 {
        return None;
    }
    let ghost dv = rec.deep_view();
    assert(dv[0] == rec@[0]@ && dv[1] == rec@[1]@ && dv[2] == rec@[2]@);
    let digits = chars_of(rec[0].as_str());
    match (parse_u32(&digits), read_flag(&rec[2])) {
        (Some(id), Some(done)) => Some(Todo { id, title: rec[1].clone(), is_completed: done }),
        _ => None,
    }
}

/// The tasks that the rows of a backing file hold. A record that does not
/// parse is skipped; rows that do not open with the header hold no tasks.
pub fn todos_from_rows(rows: &Vec<Option<Vec<String>>>) -> (r: Vec<Todo>)
    ensures
        todos_view(r@) == todos_of_rows(rows.deep_view()),
{
    let ghost dv = rows.deep_view();
    let mut out: Vec<Todo> = Vec::new();
    if rows.len() == 0 {
        return out;
    }
    let head_ok = match &rows[0] {
        Some(h) => {
            let expected = header_row();
            let ok = h.len() == 3 && h[0] == expected[0] && h[1] == expected[1] && h[2] == expected[2];
            proof {
                let hv = h.deep_view();
                let ev = expected.deep_view();
                assert(hv.len() == h@.len());
                if hv == header() {
                    assert(hv[0] == h@[0]@ && hv[1] == h@[1]@ && hv[2] == h@[2]@);
                    assert(ev[0] == expected@[0]@ && ev[1] == expected@[1]@ && ev[2] == expected@[2]@);
                }
                if ok {
                    assert(hv =~= ev);
                }
            }
            ok
        },
        None => false,
    };
    if !head_ok {
        return out;
    }
    let mut i: usize = 1;
    while i < rows.len()
        invariant
            1 <= i <= rows.len(),
            dv == rows.deep_view(),
            dv[0] == Some(header()),
            todos_view(out@) == kept(dv.subrange(1, i as int)),
        decreases rows.len() - i,
    {
        let ghost before = out@;
        let ghost part = dv.subrange(1, i as int + 1);
        assert(part.drop_last() =~= dv.subrange(1, i as int));
        assert(part.last() == dv[i as int]);
        match &rows[i] {
            Some(rec) => {
                match todo_from_record(rec) {
                    Some(t) => {
                        out.push(t);
                        assert(todos_view(out@) =~= todos_view(before).push(t@));
                    },
                    None => {},
                }
            },
            None => {},
        }
        i = i + 1;
    }
    assert(dv.subrange(1, dv.len() as int) =~= dv.drop_first());
    out
}

/// The tasks stored in the text of a backing file.
pub fn decode_todos(text: &[u8]) -> (r: Vec<Todo>)
    ensures
        todos_view(r@) == todos_of_rows(csv_rows(text@)),
{
    let rows = read_csv(text);
    todos_from_rows(&rows)
}

/// The rows of the backing file for `items`: the header, then one record per task.
pub fn table_rows(items: &Vec<Todo>) -> (r: Vec<Vec<String>>)
    ensures
        r.deep_view() == table_of(todos_view(items@)),
{
    let ghost table = table_of(todos_view(items@));
    let mut rows: Vec<Vec<String>> = Vec::new();
    rows.push(header_row());
    let mut i: usize = 0;
    while i < items.len()
        invariant
            i <= items.len(),
            table == table_of(todos_view(items@)),
            rows.deep_view() == table.take(i as int + 1),
        decreases items.len() - i,
    {
        let row = record_row(&items[i]);
        let ghost before = rows.deep_view();
        rows.push(row);
        assert(rows.deep_view() =~= table.take(i as int + 2)) by {
            assert(rows.deep_view() =~= before.push(row.deep_view()));
            assert(table[i as int + 1] == record_of(items@[i as int]@));
        }
        i = i + 1;
    }
    assert(table.take(i as int + 1) =~= table);
    rows
}

proof fn lemma_table_reads_back(ts: Seq<TodoSpec>)
    ensures
        reads_back(table_of(ts)),
{
    let t = table_of(ts);
    assert forall|i: int| 0 <= i < t.len() implies #[trigger] t[i].len() == t[0].len() by {
        if i > 0 {
            assert(t[i] == record_of(ts[i - 1]));
        }
    }
    assert(t[0] == header());
}

/// The text of the backing file for `items`. It is always written, and
/// reading it back gives the same list.
pub fn encode_todos(items: &Vec<Todo>) -> (r: Option<Vec<u8>>)
    ensures
        r is Some,
        r matches Some(b) ==> b@ == csv_text(table_of(todos_view(items@))),
        r matches Some(b) ==> todos_of_rows(csv_rows(b@)) == todos_view(items@),
{
    let rows = table_rows(items);
    proof {
        lemma_table_reads_back(todos_view(items@));
        lemma_round_trip(todos_view(items@));
    }
    write_csv(&rows)
}

} // verus!
