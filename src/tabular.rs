//! The track table: tab-separated text with a header row naming the columns.
use vstd::prelude::*;
use crate::numeral::{parse_u32_cell, u32_cell_value};
use crate::track_metadata::{empty_segment, TableFields, TrackMetadata, TrackView};

verus! {

/// What the csv reader makes of tab-separated bytes, record by record: the
/// fields of each record, or `None` for a record it could not read.
pub uninterp spec fn tab_records(data: Seq<u8>) -> Seq<Option<Seq<Seq<char>>>>;

pub open spec fn record_view(r: Option<Vec<String>>) -> Option<Seq<Seq<char>>> {
    match r {
        Some(v) => Some(v@.map_values(|s: String| s@)),
        None => None,
    }
}

pub open spec fn records_view(rs: Seq<Option<Vec<String>>>) -> Seq<Option<Seq<Seq<char>>>> {
    rs.map_values(|r: Option<Vec<String>>| record_view(r))
}

/// Relies on csv's `Reader::records` (tab delimiter, no header handling, fixed
/// field count): the records depend on the bytes alone.
#[verifier::external_body]
fn read_tab_records(data: &[u8]) -> (r: Vec<Option<Vec<String>>>)
    ensures
        records_view(r@) == tab_records(data@),
{
    csv::ReaderBuilder::new()
        .has_headers(false)
        .delimiter(b'\t')
        .from_reader(data)
        .records()
        .map(|rec| rec.ok().map(|rec| rec.iter().map(|f| f.to_string()).collect()))
        .collect()
}

/// How often `name` stands in the header.
pub open spec fn occurrences(header: Seq<Seq<char>>, name: Seq<char>) -> nat
    decreases header.len(),
{
    if header.len() == 0 {
        0
    } else {
        occurrences(header.drop_last(), name) + if header.last() == name { 1nat } else { 0nat }
    }
}

/// Where `name` last stands in the header, or -1.
pub open spec fn last_index(header: Seq<Seq<char>>, name: Seq<char>) -> int
    decreases header.len(),
{
    if header.len() == 0 {
        -1
    } else if header.last() == name {
        header.len() - 1
    } else {
        last_index(header.drop_last(), name)
    }
}

/// The column of a field: its name must stand exactly once in the header.
pub open spec fn column(header: Seq<Seq<char>>, name: Seq<char>) -> Option<int> {
    if occurrences(header, name) == 1 {
        Some(last_index(header, name))
    } else {
        None
    }
}

/// The columns of the ten fields of a row, in the order of `column_names`.
pub open spec fn column_names() -> Seq<Seq<char>> {
    seq![
        "#"@, "Track Title"@, "Artist"@, "BPM"@, "Key"@, "Time"@, "Message"@,
        "Date Added"@, "Genre"@, "My Tag"@,
    ]
}

pub open spec fn columns_found(header: Seq<Seq<char>>) -> bool {
    forall|k: int| 0 <= k < 10 ==> (#[trigger] column(header, column_names()[k])).is_some()
}

pub open spec fn col(header: Seq<Seq<char>>, k: int) -> int {
    column(header, column_names()[k]).unwrap()
}

/// A data row as a track, where every column is in it and the id parses.
pub open spec fn row_track(header: Seq<Seq<char>>, row: Seq<Seq<char>>) -> Option<TrackView> {
    if (forall|k: int| 0 <= k < 10 ==> #[trigger] col(header, k) < row.len())
        && u32_cell_value(row[col(header, 0)]).is_some() {
        Some(TrackView {
            id: u32_cell_value(row[col(header, 0)]).unwrap() as u32,
            title: row[col(header, 1)],
            artist: row[col(header, 2)],
            bpm: row[col(header, 3)],
            key: row[col(header, 4)],
            time: row[col(header, 5)],
            message: row[col(header, 6)],
            date_added: row[col(header, 7)],
            genre: row[col(header, 8)],
            my_tag: row[col(header, 9)],
            segment: empty_segment(),
        })
    } else {
        None
    }
}

/// The tracks of the data rows `rows`, skipping those that do not read as one.
pub open spec fn rows_tracks(header: Seq<Seq<char>>, rows: Seq<Option<Seq<Seq<char>>>>) -> Seq<TrackView>
    decreases rows.len(),
{
    if rows.len() == 0 {
        Seq::empty()
    } else {
        let before = rows_tracks(header, rows.drop_last());
        match rows.last() {
            Some(row) => match row_track(header, row) {
                Some(t) => before.push(t),
                None => before,
            },
            None => before,
        }
    }
}

/// The tracks of a table: the first record is the header; a table whose
/// header is unreadable, or lacks a field's column, yields no track.
pub open spec fn table_tracks(records: Seq<Option<Seq<Seq<char>>>>) -> Seq<TrackView> {
    if records.len() == 0 || records[0].is_none() || !columns_found(records[0].unwrap()) {
        Seq::empty()
    } else {
        rows_tracks(records[0].unwrap(), records.subrange(1, records.len() as int))
    }
}

pub open spec fn track_views(ts: Seq<TrackMetadata>) -> Seq<TrackView> {
    ts.map_values(|t: TrackMetadata| t@)
}

/// Finds the column that `name` heads, where it heads exactly one.
pub fn find_column(header: &Vec<String>, name: &str) -> (r: Option<usize>)
    ensures
        r.is_some() == column(header@.map_values(|s: String| s@), name@).is_some(),
        r.is_some() ==> r.unwrap() as int == column(header@.map_values(|s: String| s@), name@).unwrap(),
{
    let ghost h = header@.map_values(|s: String| s@);
    let target = String::from_str(name);
    let mut count: usize = 0;
    let mut at: usize = 0;
    let mut i: usize = 0;
    while i < header.len()
        invariant
            i <= header.len(),
            h == header@.map_values(|s: String| s@),
            target@ == name@,
            count as nat == occurrences(h.subrange(0, i as int), name@),
            count <= i,
            count > 0 ==> at as int == last_index(h.subrange(0, i as int), name@),
            count == 0 ==> last_index(h.subrange(0, i as int), name@) == -1,
        decreases header.len() - i,
    {
        assert(h.subrange(0, i + 1).drop_last() =~= h.subrange(0, i as int));
        assert(h.subrange(0, i + 1).last() == header@[i as int]@);
        if header[i] == target {
            count = count + 1;
            at = i;
        }
        i = i + 1;
    }
    assert(h.subrange(0, header.len() as int) =~= h);
    if count == 1 {
        Some(at)
    } else {
        None
    }
}

/// The tracks of a table's records: the first record names the columns, each
/// later one that reads as a track becomes one, in order.
pub fn tracks_from_records(records: &Vec<Option<Vec<String>>>) -> (r: Vec<TrackMetadata>)
    ensures
        track_views(r@) == table_tracks(records_view(records@)),
{
    let ghost rv = records_view(records@);
    if records.len() == 0 {
        return Vec::new();
    }
    let header = match &records[0] {
        Some(h) => h,
        None => {
            return Vec::new();
        },
    };
    let ghost h = header@.map_values(|s: String| s@);
    assert(rv[0] == Some(h));
    let names: [&str; 10] = [
        "#", "Track Title", "Artist", "BPM", "Key", "Time", "Message", "Date Added", "Genre",
        "My Tag",
    ];
    let mut cols: Vec<usize> = Vec::new();
    let mut k: usize = 0;
    while k < 10
        invariant
            k <= 10,
            cols@.len() == k,
            h == header@.map_values(|s: String| s@),
            rv == records_view(records@),
            rv.len() == records@.len(),
            records@.len() > 0,
            rv[0] == Some(h),
            forall|j: int| 0 <= j < 10 ==> names@[j]@ == #[trigger] column_names()[j],
            forall|j: int| 0 <= j < k ==> column(h, column_names()[j]) == Some(#[trigger] cols@[j] as int),
        decreases 10 - k,
    {
        match find_column(header, names[k]) {
            Some(c) => {
                cols.push(c);
            },
            None => {
                assert(!columns_found(h)) by {
                    assert(column(h, column_names()[k as int]).is_none());
                }
                let empty: Vec<TrackMetadata> = Vec::new();
                assert(track_views(empty@) =~= Seq::<TrackView>::empty());
                return empty;
            },
        }
        k = k + 1;
    }
    assert(columns_found(h)) by {
        assert forall|j: int| 0 <= j < 10 implies (#[trigger] column(h, column_names()[j])).is_some() by {
            assert(column(h, column_names()[j]) == Some(cols@[j] as int));
        }
    }
    let ghost rows = rv.subrange(1, rv.len() as int);
    let mut out: Vec<TrackMetadata> = Vec::new();
    let mut i: usize = 1;
    while i < records.len()
        invariant
            1 <= i <= records.len(),
            rv == records_view(records@),
            rows == rv.subrange(1, rv.len() as int),
            h == header@.map_values(|s: String| s@),
            columns_found(h),
            cols@.len() == 10,
            forall|j: int| 0 <= j < 10 ==> #[trigger] col(h, j) == cols@[j] as int,
            track_views(out@) == rows_tracks(h, rows.subrange(0, i - 1)),
        decreases records.len() - i,
    {
        assert(rows.subrange(0, i as int).drop_last() =~= rows.subrange(0, i - 1));
        assert(rows.subrange(0, i as int).last() == rv[i as int]);
        match &records[i] {
            None => {},
            Some(row) => {
                let ghost rw = row@.map_values(|s: String| s@);
                assert(rv[i as int] == Some(rw));
                let mut fits = true;
                let mut j: usize = 0;
                while j < 10
                    invariant
                        j <= 10,
                        cols@.len() == 10,
                        rw == row@.map_values(|s: String| s@),
                        fits == (forall|m: int| 0 <= m < j ==> #[trigger] cols@[m] < rw.len()),
                    decreases 10 - j,
                {
                    if cols[j] >= row.len() {
                        fits = false;
                    }
                    j = j + 1;
                }
                if fits {
                    assert(forall|m: int| 0 <= m < 10 ==> #[trigger] col(h, m) < rw.len()) by {
                        assert forall|m: int| 0 <= m < 10 implies #[trigger] col(h, m) < rw.len() by {
                            assert(cols@[m] < rw.len());
                        }
                    }
                    match parse_u32_cell(row[cols[0]].as_str()) {
                        Some(id) => {
                            let t = TrackMetadata::new(
                                id,
                                TableFields {
                                    title: row[cols[1]].clone(),
                                    artist: row[cols[2]].clone(),
                                    bpm: row[cols[3]].clone(),
                                    key: row[cols[4]].clone(),
                                    time: row[cols[5]].clone(),
                                    message: row[cols[6]].clone(),
                                    date_added: row[cols[7]].clone(),
                                    genre: row[cols[8]].clone(),
                                    my_tag: row[cols[9]].clone(),
                                },
                            );
                            assert(row_track(h, rw) == Some(t@));
                            out.push(t);
                            assert(track_views(out@) =~= rows_tracks(h, rows.subrange(0, i as int)));
                        },
                        None => {},
                    }
                } else {
                    assert(!(forall|m: int| 0 <= m < 10 ==> #[trigger] col(h, m) < rw.len()));
                }
            },
        }
        assert(track_views(out@) =~= rows_tracks(h, rows.subrange(0, i as int)));
        i = i + 1;
    }
    assert(rows.subrange(0, rows.len() as int) =~= rows);
    out
}

/// How many data records a table holds: all records but the header.
pub open spec fn data_records(records: Seq<Option<Seq<Seq<char>>>>) -> nat {
    if records.len() == 0 { 0 } else { (records.len() - 1) as nat }
}

/// The tracks of a tab-separated table with a header row, and how many data
/// records it holds, read or not.
pub fn read_table(data: &[u8]) -> (r: (Vec<TrackMetadata>, usize))
    ensures
        track_views(r.0@) == table_tracks(tab_records(data@)),
        r.1 as nat == data_records(tab_records(data@)),
{
    let records = read_tab_records(data);
    let n: usize = if records.len() == 0 { 0 } else { records.len() - 1 };
    (tracks_from_records(&records), n)
}

/// The tracks of a tab-separated table with a header row.
pub fn parse_table(data: &[u8]) -> (r: Vec<TrackMetadata>)
    ensures
        track_views(r@) == table_tracks(tab_records(data@)),
{
    read_table(data).0
}

} // verus!
