//! The tabularizer: from a JSON document to a header and rows of cells.
//!
//! An array whose first element is an object becomes one row for each
//! element that is an object; a single object becomes one row. The columns
//! are the requested ones or, if none are requested, the keys of the first
//! object in their own order. A cell holds the JSON text of the value under
//! its column's key, or nothing where the object has no such key.

use crate::json::{
    entry_keys, json_text, lookup, map_entries, object_get, object_keys, strings_view, value_text,
    JsonDocument, JsonTree,
};
use vstd::prelude::*;

verus! {

/// Header, rows and the rows shown in a preview, as executable data.
pub struct Table {
    pub header: Vec<String>,
    pub rows: Vec<Vec<String>>,
    pub preview: Vec<Vec<String>>,
}

/// Header, rows and preview rows as sequences of character sequences.
pub struct TableView {
    pub header: Seq<Seq<char>>,
    pub rows: Seq<Seq<Seq<char>>>,
    pub preview: Seq<Seq<Seq<char>>>,
}

/// The views of a vector of rows.
pub open spec fn rows_view(rows: Seq<Vec<String>>) -> Seq<Seq<Seq<char>>> {
    rows.map_values(|row: Vec<String>| strings_view(row@))
}

impl View for Table {
    type V = TableView;

    open spec fn view(&self) -> TableView {
        TableView {
            header: strings_view(self.header@),
            rows: rows_view(self.rows@),
            preview: rows_view(self.preview@),
        }
    }
}

/// The table without columns or rows.
pub open spec fn empty_table() -> TableView {
    TableView { header: Seq::empty(), rows: Seq::empty(), preview: Seq::empty() }
}

/// Whether a value is an object.
pub open spec fn is_object(tree: JsonTree) -> bool {
    tree is Object
}

/// The entries of an object; no entries for any other value.
pub open spec fn entries_of(tree: JsonTree) -> Seq<(Seq<char>, JsonTree)> {
    match tree {
        JsonTree::Object(entries) => entries,
        _ => Seq::empty(),
    }
}

/// Whether a document has a shape that can be tabularized: an object, or an
/// array whose first element is an object.
pub open spec fn is_tabular(document: JsonTree) -> bool {
    match document {
        JsonTree::Array(items) => items.len() > 0 && is_object(items[0]),
        JsonTree::Object(_) => true,
        _ => false,
    }
}

/// The columns of a table built from an object with these entries: the
/// requested ones if there are any, else the object's keys.
pub open spec fn header_of(
    entries: Seq<(Seq<char>, JsonTree)>,
    requested: Seq<Seq<char>>,
) -> Seq<Seq<char>> {
    if requested.len() > 0 {
        requested
    } else {
        entry_keys(entries)
    }
}

/// The cell under `column` for an object with these entries.
pub open spec fn cell_of(entries: Seq<(Seq<char>, JsonTree)>, column: Seq<char>) -> Seq<char> {
    match lookup(entries, column) {
        Some(value) => json_text(value),
        None => Seq::empty(),
    }
}

/// The row of an object: one cell for each column of the header.
pub open spec fn row_of(entries: Seq<(Seq<char>, JsonTree)>, header: Seq<Seq<char>>) -> Seq<
    Seq<char>,
> {
    header.map_values(|column: Seq<char>| cell_of(entries, column))
}

/// The elements of an array that are objects, in order.
pub open spec fn object_items(items: Seq<JsonTree>) -> Seq<JsonTree> {
    items.filter(|item: JsonTree| is_object(item))
}

/// One row for each element that is an object; other elements give none.
pub open spec fn rows_of(items: Seq<JsonTree>, header: Seq<Seq<char>>) -> Seq<Seq<Seq<char>>> {
    object_items(items).map_values(|item: JsonTree| row_of(entries_of(item), header))
}

/// How many leading elements of an array can have their rows in the preview.
pub open spec fn preview_span(items: Seq<JsonTree>, limit: nat) -> int {
    if limit < items.len() {
        limit as int
    } else {
        items.len() as int
    }
}

/// The table of a document.
///
/// The preview holds the rows of the first `limit` elements: for a single
/// object its one row, unless the limit is zero.
pub open spec fn table_of(document: JsonTree, requested: Seq<Seq<char>>, limit: nat) -> TableView {
    match document {
        JsonTree::Array(items) => {
            if items.len() > 0 && is_object(items[0]) {
                let header = header_of(entries_of(items[0]), requested);
                TableView {
                    header,
                    rows: rows_of(items, header),
                    preview: rows_of(items.take(preview_span(items, limit)), header),
                }
            } else {
                empty_table()
            }
        },
        JsonTree::Object(entries) => {
            let header = header_of(entries, requested);
            TableView {
                header,
                rows: seq![row_of(entries, header)],
                preview: if limit > 0 {
                    seq![row_of(entries, header)]
                } else {
                    Seq::empty()
                },
            }
        },
        _ => empty_table(),
    }
}

/// Appending an element appends its row if it is an object, and nothing
/// otherwise.
pub proof fn lemma_rows_of_push(items: Seq<JsonTree>, item: JsonTree, header: Seq<Seq<char>>)
    ensures
        rows_of(items.push(item), header) == if is_object(item) {
            rows_of(items, header).push(row_of(entries_of(item), header))
        } else {
            rows_of(items, header)
        },
{
    items.lemma_filter_push(item, |item: JsonTree| is_object(item));
    if is_object(item) {
        assert(rows_of(items.push(item), header) =~= rows_of(items, header).push(
            row_of(entries_of(item), header),
        ));
    }
}

/// The objects that the rows of a document come from, in row order.
pub open spec fn row_sources(document: JsonTree) -> Seq<Seq<(Seq<char>, JsonTree)>> {
    match document {
        JsonTree::Array(items) => {
            if items.len() > 0 && is_object(items[0]) {
                object_items(items).map_values(|item: JsonTree| entries_of(item))
            } else {
                Seq::empty()
            }
        },
        JsonTree::Object(entries) => seq![entries],
        _ => Seq::empty(),
    }
}

/// Whether every row, and every preview row, has one cell for each column.
pub open spec fn is_rectangular(table: TableView) -> bool {
    &&& forall|r: int| 0 <= r < table.rows.len() ==> (#[trigger] table.rows[r]).len() == table.header.len()
    &&& forall|r: int|
        0 <= r < table.preview.len() ==> (#[trigger] table.preview[r]).len() == table.header.len()
}

/// The rows of a leading part of an array are a leading part of the rows of
/// the whole array.
pub proof fn lemma_rows_of_take(items: Seq<JsonTree>, count: int, header: Seq<Seq<char>>)
    requires
        0 <= count <= items.len(),
    ensures
        rows_of(items.take(count), header).len() <= count,
        rows_of(items.take(count), header).len() <= rows_of(items, header).len(),
        rows_of(items.take(count), header) == rows_of(items, header).take(
            rows_of(items.take(count), header).len() as int,
        ),
    decreases items.len() - count,
{
    items.take(count).lemma_filter_len(|item: JsonTree| is_object(item));
    if count == items.len() {
        assert(items.take(count) =~= items);
        assert(rows_of(items, header).take(rows_of(items, header).len() as int) =~= rows_of(
            items,
            header,
        ));
    } else {
        lemma_rows_of_take(items, count + 1, header);
        assert(items.take(count + 1) =~= items.take(count).push(items[count]));
        lemma_rows_of_push(items.take(count), items[count], header);
        let shorter = rows_of(items.take(count), header);
        let longer = rows_of(items.take(count + 1), header);
        assert(shorter =~= longer.take(shorter.len() as int));
        assert(shorter =~= rows_of(items, header).take(shorter.len() as int));
    }
}

/// With no requested columns, the header of an array that starts with an
/// object is the key list of that first object, in the object's own order,
/// and the table has exactly one row for each element that is an object.
pub proof fn law_inferred_header_and_row_count(items: Seq<JsonTree>, limit: nat)
    requires
        items.len() > 0,
        is_object(items[0]),
    ensures
        table_of(JsonTree::Array(items), Seq::empty(), limit).header == entry_keys(
            entries_of(items[0]),
        ),
        table_of(JsonTree::Array(items), Seq::empty(), limit).rows.len() == object_items(
            items,
        ).len(),
{
}

/// Requested columns are the header as given, in the order given, whatever
/// keys the objects have.
pub proof fn law_requested_columns_are_the_header(
    document: JsonTree,
    requested: Seq<Seq<char>>,
    limit: nat,
)
    requires
        is_tabular(document),
        requested.len() > 0,
    ensures
        table_of(document, requested, limit).header == requested,
{
}

/// Row `r` of a table is the row of the `r`-th source object: under each
/// column stands the JSON text of the value that the object has for that
/// key.
pub proof fn law_rows_follow_sources(
    document: JsonTree,
    requested: Seq<Seq<char>>,
    limit: nat,
    r: int,
)
    requires
        0 <= r < table_of(document, requested, limit).rows.len(),
    ensures
        table_of(document, requested, limit).rows.len() == row_sources(document).len(),
        table_of(document, requested, limit).rows[r] == row_of(
            row_sources(document)[r],
            table_of(document, requested, limit).header,
        ),
{
}

/// In every row, the cell of a column whose key the row's source object
/// lacks is the empty string.
pub proof fn law_missing_key_gives_empty_cell(
    document: JsonTree,
    requested: Seq<Seq<char>>,
    limit: nat,
    r: int,
    c: int,
)
    requires
        0 <= r < table_of(document, requested, limit).rows.len(),
        0 <= c < table_of(document, requested, limit).header.len(),
        lookup(row_sources(document)[r], table_of(document, requested, limit).header[c]) is None,
    ensures
        table_of(document, requested, limit).rows[r][c] == Seq::<char>::empty(),
{
    law_rows_follow_sources(document, requested, limit, r);
}

/// Every row of a table has one cell for each column of its header.
pub proof fn law_tables_are_rectangular(document: JsonTree, requested: Seq<Seq<char>>, limit: nat)
    ensures
        is_rectangular(table_of(document, requested, limit)),
{
}

/// The preview cap bounds the preview only: the rows do not depend on it,
/// the preview is a leading part of the rows, and the preview has at most
/// `limit` rows.
pub proof fn law_preview_is_a_capped_prefix(
    document: JsonTree,
    requested: Seq<Seq<char>>,
    limit: nat,
    other_limit: nat,
)
    ensures
        table_of(document, requested, limit).rows == table_of(
            document,
            requested,
            other_limit,
        ).rows,
        table_of(document, requested, limit).preview.len() <= table_of(
            document,
            requested,
            limit,
        ).rows.len(),
        table_of(document, requested, limit).preview == table_of(
            document,
            requested,
            limit,
        ).rows.take(table_of(document, requested, limit).preview.len() as int),
        table_of(document, requested, limit).preview.len() <= limit,
{
    let table = table_of(document, requested, limit);
    match document {
        JsonTree::Array(items) => {
            if items.len() > 0 && is_object(items[0]) {
                lemma_rows_of_take(items, preview_span(items, limit), table.header);
            } else {
                assert(table.preview =~= table.rows.take(0));
            }
        },
        JsonTree::Object(_) => {
            if limit > 0 {
                assert(table.preview =~= table.rows.take(1));
            } else {
                assert(table.preview =~= table.rows.take(0));
            }
        },
        _ => {
            assert(table.preview =~= table.rows.take(0));
        },
    }
}

/// A document that cannot be tabularized gives the empty table.
pub proof fn law_unsupported_shapes_give_no_rows(
    document: JsonTree,
    requested: Seq<Seq<char>>,
    limit: nat,
)
    requires
        !is_tabular(document),
    ensures
        table_of(document, requested, limit) == empty_table(),
{
}

/// The elements that a document offers for conversion: the elements of an
/// array that starts with an object, or a single object itself.
pub open spec fn items_of(document: JsonTree) -> Seq<JsonTree> {
    match document {
        JsonTree::Array(items) => {
            if items.len() > 0 && is_object(items[0]) {
                items
            } else {
                Seq::empty()
            }
        },
        JsonTree::Object(_) => seq![document],
        _ => Seq::empty(),
    }
}

/// The header of a document's table.
pub open spec fn header_for(document: JsonTree, requested: Seq<Seq<char>>) -> Seq<Seq<char>> {
    if is_tabular(document) {
        header_of(entries_of(items_of(document)[0]), requested)
    } else {
        Seq::empty()
    }
}

/// Whether the row of the element at `index` shows in the preview.
pub open spec fn is_shown(index: nat, limit: nat) -> bool {
    index < limit
}

/// How many of the first `done` elements can have their rows in the preview.
pub open spec fn shown_count(limit: nat, done: nat) -> int {
    if done <= limit {
        done as int
    } else {
        limit as int
    }
}

/// No elements give no rows.
pub proof fn lemma_rows_of_nothing(header: Seq<Seq<char>>)
    ensures
        rows_of(Seq::empty(), header) == Seq::<Seq<Seq<char>>>::empty(),
{
    reveal(Seq::filter);
    assert(rows_of(Seq::empty(), header) =~= Seq::empty());
}

/// The table once the first `done` elements of a document are converted.
pub open spec fn table_through(
    document: JsonTree,
    requested: Seq<Seq<char>>,
    limit: nat,
    done: nat,
) -> TableView {
    let header = header_for(document, requested);
    let items = items_of(document);
    TableView {
        header,
        rows: rows_of(items.take(done as int), header),
        preview: rows_of(items.take(shown_count(limit, done)), header),
    }
}

/// Before any element is converted the table has its header and no rows.
pub proof fn lemma_table_through_none(document: JsonTree, requested: Seq<Seq<char>>, limit: nat)
    ensures
        table_through(document, requested, limit, 0) == (TableView {
            header: header_for(document, requested),
            rows: Seq::empty(),
            preview: Seq::empty(),
        }),
{
    assert(items_of(document).take(0) =~= Seq::empty());
    lemma_rows_of_nothing(header_for(document, requested));
}

/// Converting one more element appends its row, if it is an object, to the
/// rows, and to the preview if the element shows there.
pub proof fn lemma_table_through_next(
    document: JsonTree,
    requested: Seq<Seq<char>>,
    limit: nat,
    done: nat,
)
    requires
        done < items_of(document).len(),
    ensures
        ({
            let before = table_through(document, requested, limit, done);
            let after = table_through(document, requested, limit, done + 1);
            let item = items_of(document)[done as int];
            let row = row_of(entries_of(item), before.header);
            &&& after.header == before.header
            &&& after.rows == if is_object(item) {
                before.rows.push(row)
            } else {
                before.rows
            }
            &&& after.preview == if is_object(item) && is_shown(done, limit) {
                before.preview.push(row)
            } else {
                before.preview
            }
        }),
{
    let header = header_for(document, requested);
    let items = items_of(document);
    let item = items[done as int];
    assert(items.take(done as int + 1) =~= items.take(done as int).push(item));
    lemma_rows_of_push(items.take(done as int), item, header);
    if is_shown(done, limit) {
        assert(shown_count(limit, done) == done);
        assert(shown_count(limit, done + 1) == done + 1);
    } else {
        assert(shown_count(limit, done) == shown_count(limit, done + 1));
    }
}

/// Once every element is converted the table is the document's table.
pub proof fn lemma_table_through_all(document: JsonTree, requested: Seq<Seq<char>>, limit: nat)
    ensures
        table_through(document, requested, limit, items_of(document).len()) == table_of(
            document,
            requested,
            limit,
        ),
{
    let header = header_for(document, requested);
    let items = items_of(document);
    let whole = table_through(document, requested, limit, items.len());
    let table = table_of(document, requested, limit);
    assert(items.take(items.len() as int) =~= items);
    assert(shown_count(limit, items.len()) == preview_span(items, limit));
    lemma_rows_of_nothing(header);
    match document {
        JsonTree::Object(entries) => {
            assert(items =~= Seq::empty().push(document));
            lemma_rows_of_push(Seq::empty(), document, header);
            assert(items.take(0) =~= Seq::empty());
            assert(whole.rows =~= table.rows);
            assert(whole.preview =~= table.preview);
        },
        _ => {
            assert(items.take(0) =~= Seq::empty());
        },
    }
}

/// A copy of a vector of strings.
fn copy_strings(strings: &Vec<String>) -> (copy: Vec<String>)
    ensures
        strings_view(copy@) == strings_view(strings@),
{
    let mut copy: Vec<String> = Vec::new();
    let mut i: usize = 0;
    while i < strings.len()
        invariant
            i <= strings.len(),
            strings_view(copy@) == strings_view(strings@).take(i as int),
        decreases strings.len() - i,
    {
        let ghost before = strings_view(copy@);
        let text = strings[i].clone();
        copy.push(text);
        i = i + 1;
        assert(strings_view(copy@) =~= before.push(text@));
        assert(before.push(text@) =~= strings_view(strings@).take(i as int));
    }
    assert(strings_view(strings@).take(i as int) =~= strings_view(strings@));
    copy
}

/// The header for an object: the requested columns if there are any, else
/// the object's keys.
fn choose_header(
    map: &serde_json::Map<String, serde_json::Value>,
    requested_columns: &Vec<String>,
) -> (header: Vec<String>)
    ensures
        strings_view(header@) == header_of(map_entries(*map), strings_view(requested_columns@)),
        strings_view(requested_columns@).no_duplicates() ==> strings_view(header@).no_duplicates(),
{
    if requested_columns.len() > 0 {
        copy_strings(requested_columns)
    } else {
        object_keys(map)
    }
}

/// The row of an object: for each column the JSON text of the value under
/// that key, or the empty string where the object has no such key.
fn build_row(map: &serde_json::Map<String, serde_json::Value>, header: &Vec<String>) -> (row: Vec<
    String,
>)
    ensures
        strings_view(row@) == row_of(map_entries(*map), strings_view(header@)),
{
    let ghost target = row_of(map_entries(*map), strings_view(header@));
    let mut row: Vec<String> = Vec::new();
    let mut i: usize = 0;
    while i < header.len()
        invariant
            i <= header.len(),
            target == row_of(map_entries(*map), strings_view(header@)),
            strings_view(row@) == target.take(i as int),
        decreases header.len() - i,
    {
        let cell = match object_get(map, header[i].as_str()) {
            Some(value) => value_text(value),
            None => String::new(),
        };
        let ghost before = strings_view(row@);
        let ghost text = cell@;
        row.push(cell);
        i = i + 1;
        assert(strings_view(row@) =~= before.push(text));
        assert(before.push(text) =~= target.take(i as int));
    }
    assert(target.take(i as int) =~= target);
    row
}

/// Whether `document` has a shape that can be tabularized.
pub fn supports(document: &JsonDocument) -> (supported: bool)
    ensures
        supported == is_tabular(document@),
{
    let value = document.value();
    match value.as_array() {
        Some(items) => items.len() > 0 && items[0].as_object().is_some(),
        None => value.as_object().is_some(),
    }
}

/// How many elements `document` offers for conversion.
pub fn item_count(document: &JsonDocument) -> (count: usize)
    ensures
        count == items_of(document@).len(),
{
    let value = document.value();
    match value.as_array() {
        Some(items) => {
            if items.len() > 0 && items[0].as_object().is_some() {
                items.len()
            } else {
                0
            }
        },
        None => {
            if value.as_object().is_some() {
                1
            } else {
                0
            }
        },
    }
}

impl Table {
    /// The table without columns or rows.
    pub fn empty() -> (table: Table)
        ensures
            table@ == empty_table(),
    {
        let table = Table { header: Vec::new(), rows: Vec::new(), preview: Vec::new() };
        assert(table@.header =~= Seq::empty());
        assert(table@.rows =~= Seq::empty());
        assert(table@.preview =~= Seq::empty());
        table
    }

    /// The table of `document` before any element is converted: its header,
    /// and no rows yet.
    pub fn begin(document: &JsonDocument, requested_columns: &Vec<String>) -> (table: Table)
        ensures
            table@.header == header_for(document@, strings_view(requested_columns@)),
            table@.rows == Seq::<Seq<Seq<char>>>::empty(),
            table@.preview == Seq::<Seq<Seq<char>>>::empty(),
            strings_view(requested_columns@).no_duplicates() ==> table@.header.no_duplicates(),
    {
        let value = document.value();
        let mut table = Table::empty();
        match value.as_array() {
            Some(items) => {
                if items.len() > 0 {
                    match items[0].as_object() {
                        Some(first) => {
                            table.header = choose_header(first, requested_columns);
                        },
                        None => {},
                    }
                }
            },
            None => match value.as_object() {
                Some(map) => {
                    table.header = choose_header(map, requested_columns);
                },
                None => {},
            },
        }
        table
    }

    /// Converts the element at `index`: if it is an object, its row is added
    /// to the rows, and to the preview if `index` is below the cap. Any other
    /// element adds nothing.
    pub fn add_item(
        &mut self,
        document: &JsonDocument,
        index: usize,
        row_limit_for_preview: usize,
    )
        requires
            index < items_of(document@).len(),
        ensures
            ({
                let item = items_of(document@)[index as int];
                let row = row_of(entries_of(item), old(self)@.header);
                &&& final(self)@.header == old(self)@.header
                &&& final(self)@.rows == if is_object(item) {
                    old(self)@.rows.push(row)
                } else {
                    old(self)@.rows
                }
                &&& final(self)@.preview == if is_object(item) && is_shown(
                    index as nat,
                    row_limit_for_preview as nat,
                ) {
                    old(self)@.preview.push(row)
                } else {
                    old(self)@.preview
                }
            }),
    {
        let value = document.value();
        let ghost item = items_of(document@)[index as int];
        let ghost target = row_of(entries_of(item), self@.header);
        let ghost rows_before = self@.rows;
        let ghost preview_before = self@.preview;
        match value.as_array() {
            Some(items) => {
                match items[index].as_object() {
                    Some(map) => {
                        let row = build_row(map, &self.header);
                        if index < row_limit_for_preview {
                            let shown = copy_strings(&row);
                            self.preview.push(shown);
                            assert(self@.preview =~= preview_before.push(target));
                        }
                        self.rows.push(row);
                        assert(self@.rows =~= rows_before.push(target));
                    },
                    None => {},
                }
            },
            None => match value.as_object() {
                Some(map) => {
                    let row = build_row(map, &self.header);
                    if index < row_limit_for_preview {
                        let shown = copy_strings(&row);
                        self.preview.push(shown);
                        assert(self@.preview =~= preview_before.push(target));
                    }
                    self.rows.push(row);
                    assert(self@.rows =~= rows_before.push(target));
                },
                None => {},
            },
        }
    }
}

/// Flattens `document` into a table.
///
/// With no requested columns the header is the key list of the first
/// object. A requested column that no object has still appears in the
/// header, with empty cells. A document of any other shape than an object or
/// an array that starts with an object gives the empty table. No column
/// occurs twice in the header, unless one was requested twice.
pub fn tabularize(
    document: &JsonDocument,
    requested_columns: &Vec<String>,
    row_limit_for_preview: usize,
) -> (table: Table)
    ensures
        table@ == table_of(
            document@,
            strings_view(requested_columns@),
            row_limit_for_preview as nat,
        ),
        strings_view(requested_columns@).no_duplicates() ==> table@.header.no_duplicates(),
{
    let ghost requested = strings_view(requested_columns@);
    let ghost limit = row_limit_for_preview as nat;
    let count = item_count(document);
    let mut table = Table::begin(document, requested_columns);
    let mut index: usize = 0;
    proof {
        lemma_table_through_none(document@, requested, limit);
    }
    while index < count
        invariant
            index <= count,
            count == items_of(document@).len(),
            requested == strings_view(requested_columns@),
            limit == row_limit_for_preview as nat,
            table@ == table_through(document@, requested, limit, index as nat),
            requested.no_duplicates() ==> table@.header.no_duplicates(),
        decreases count - index,
    {
        proof {
            lemma_table_through_next(document@, requested, limit, index as nat);
        }
        table.add_item(document, index, row_limit_for_preview);
        index = index + 1;
    }
    proof {
        lemma_table_through_all(document@, requested, limit);
    }
    table
}

} // verus!
