//! Reading CSV bytes back, as a yardstick for the serializer.
//!
//! The reader is a state machine over bytes and exists in ghost code
//! only: fields end at the delimiter, records at a line break, a field that
//! starts with a quote runs to the next quote that is not doubled, and empty
//! lines are skipped. The law at the end of this module says that it reads
//! back exactly the cells that the serializer was given.

use crate::config::{delimiter_byte_of, ConversionConfig, QuotePolicy};
use crate::serializer::{
    cells_bytes, csv_bytes, double_quotes, field_bytes, is_blank, is_special, joined_fields,
    lemma_blank_means_empty_line, needs_quotes, record_bytes, rows_bytes, CARRIAGE_RETURN,
    LINE_FEED, QUOTE,
};
use vstd::prelude::*;

verus! {

/// Where the reader stands within a field.
pub enum ReadMode {
    /// At the start of a field.
    FieldStart,
    /// Inside a field that did not start with a quote.
    Bare,
    /// Inside a quoted field.
    Quoted,
    /// Just after a quote inside a quoted field: the field ends here, unless
    /// another quote follows.
    QuoteSeen,
}

/// What the reader has read so far.
pub struct ReadState {
    /// The records that have ended.
    pub records: Seq<Seq<Seq<u8>>>,
    /// The fields of the current record that have ended.
    pub fields: Seq<Seq<u8>>,
    /// The bytes of the current field.
    pub field: Seq<u8>,
    pub mode: ReadMode,
}

/// The state before any byte is read.
pub open spec fn initial_state() -> ReadState {
    ReadState {
        records: Seq::empty(),
        fields: Seq::empty(),
        field: Seq::empty(),
        mode: ReadMode::FieldStart,
    }
}

/// The state at the start of a record, after `records` have been read.
pub open spec fn at_record_start(records: Seq<Seq<Seq<u8>>>) -> ReadState {
    ReadState {
        records,
        fields: Seq::empty(),
        field: Seq::empty(),
        mode: ReadMode::FieldStart,
    }
}

pub open spec fn is_line_break(byte: u8) -> bool {
    byte == LINE_FEED || byte == CARRIAGE_RETURN
}

/// The current field ends and the next one starts.
pub open spec fn end_field(state: ReadState) -> ReadState {
    ReadState {
        records: state.records,
        fields: state.fields.push(state.field),
        field: Seq::empty(),
        mode: ReadMode::FieldStart,
    }
}

/// The current field and the current record end.
pub open spec fn end_record(state: ReadState) -> ReadState {
    ReadState {
        records: state.records.push(state.fields.push(state.field)),
        fields: Seq::empty(),
        field: Seq::empty(),
        mode: ReadMode::FieldStart,
    }
}

/// The current field takes one more byte and goes on in `mode`.
pub open spec fn take_byte(state: ReadState, byte: u8, mode: ReadMode) -> ReadState {
    ReadState {
        records: state.records,
        fields: state.fields,
        field: state.field.push(byte),
        mode,
    }
}

/// The state after one more byte.
pub open spec fn read_byte(state: ReadState, byte: u8, delimiter: u8) -> ReadState {
    match state.mode {
        ReadMode::FieldStart => {
            if byte == QUOTE {
                ReadState { mode: ReadMode::Quoted, ..state }
            } else if byte == delimiter {
                end_field(state)
            } else if is_line_break(byte) {
                if state.fields.len() == 0 {
                    state
                } else {
                    end_record(state)
                }
            } else {
                take_byte(state, byte, ReadMode::Bare)
            }
        },
        ReadMode::Bare => {
            if byte == delimiter {
                end_field(state)
            } else if is_line_break(byte) {
                end_record(state)
            } else {
                take_byte(state, byte, ReadMode::Bare)
            }
        },
        ReadMode::Quoted => {
            if byte == QUOTE {
                ReadState { mode: ReadMode::QuoteSeen, ..state }
            } else {
                take_byte(state, byte, ReadMode::Quoted)
            }
        },
        ReadMode::QuoteSeen => {
            if byte == QUOTE {
                take_byte(state, byte, ReadMode::Quoted)
            } else if byte == delimiter {
                end_field(state)
            } else if is_line_break(byte) {
                end_record(state)
            } else {
                take_byte(state, byte, ReadMode::Bare)
            }
        },
    }
}

/// The state after a sequence of bytes.
pub open spec fn read_bytes(state: ReadState, bytes: Seq<u8>, delimiter: u8) -> ReadState
    decreases bytes.len(),
{
    if bytes.len() == 0 {
        state
    } else {
        read_bytes(read_byte(state, bytes[0], delimiter), bytes.drop_first(), delimiter)
    }
}

/// The records read once the input has ended: a record that no line break
/// ended counts too.
pub open spec fn records_at_end(state: ReadState) -> Seq<Seq<Seq<u8>>> {
    if state.mode is FieldStart && state.fields.len() == 0 {
        state.records
    } else {
        end_record(state).records
    }
}

/// The records of a CSV text, each a sequence of fields.
pub open spec fn read_csv(bytes: Seq<u8>, delimiter: u8) -> Seq<Seq<Seq<u8>>> {
    records_at_end(read_bytes(initial_state(), bytes, delimiter))
}

/// Whether a cell can be read back as written under `policy`: always when
/// cells are quoted where needed, and under the never-quote policy only if
/// the cell holds no delimiter, quote or line break.
pub open spec fn is_readable(cell: Seq<u8>, delimiter: u8, policy: QuotePolicy) -> bool {
    policy == QuotePolicy::WhenNeeded || !needs_quotes(cell, delimiter)
}

/// Whether a row has at least one cell and every cell can be read back.
pub open spec fn has_readable_cells(cells: Seq<Seq<u8>>, delimiter: u8, policy: QuotePolicy)
    -> bool {
    &&& cells.len() > 0
    &&& forall|c: int| 0 <= c < cells.len() ==> is_readable(#[trigger] cells[c], delimiter, policy)
}

/// Whether a row can be read back: it has at least one cell, every cell can
/// be read back and, under the never-quote policy, the row is not one empty
/// cell, which is written as an empty line.
pub open spec fn is_readable_row(cells: Seq<Seq<u8>>, delimiter: u8, policy: QuotePolicy) -> bool {
    &&& has_readable_cells(cells, delimiter, policy)
    &&& policy == QuotePolicy::Never ==> !is_blank(cells)
}

/// The UTF-8 bytes of every cell of every row.
pub open spec fn rows_cells_bytes(rows: Seq<Seq<Seq<char>>>) -> Seq<Seq<Seq<u8>>> {
    rows.map_values(|row: Seq<Seq<char>>| cells_bytes(row))
}

/// Reading two byte sequences one after the other is reading them joined.
pub proof fn lemma_read_bytes_concat(state: ReadState, left: Seq<u8>, right: Seq<u8>, delimiter: u8)
    ensures
        read_bytes(state, left + right, delimiter) == read_bytes(
            read_bytes(state, left, delimiter),
            right,
            delimiter,
        ),
    decreases left.len(),
{
    if left.len() == 0 {
        assert(left + right =~= right);
    } else {
        assert((left + right).drop_first() =~= left.drop_first() + right);
        lemma_read_bytes_concat(
            read_byte(state, left[0], delimiter),
            left.drop_first(),
            right,
            delimiter,
        );
    }
}

/// Reading one byte is one step of the machine.
pub proof fn lemma_read_one(state: ReadState, byte: u8, delimiter: u8)
    ensures
        read_bytes(state, seq![byte], delimiter) == read_byte(state, byte, delimiter),
{
    assert(seq![byte].drop_first() =~= Seq::<u8>::empty());
    assert(read_bytes(read_byte(state, byte, delimiter), seq![byte].drop_first(), delimiter)
        == read_byte(state, byte, delimiter));
}

/// Inside a bare field, bytes that are not special are taken as they are.
proof fn lemma_read_bare(state: ReadState, cell: Seq<u8>, delimiter: u8)
    requires
        state.mode is Bare,
        !needs_quotes(cell, delimiter),
    ensures
        read_bytes(state, cell, delimiter) == (ReadState {
            field: state.field + cell,
            ..state
        }),
    decreases cell.len(),
{
    if cell.len() == 0 {
        assert(state.field + cell =~= state.field);
    } else {
        assert(!is_special(cell[0], delimiter));
        let next = read_byte(state, cell[0], delimiter);
        assert forall|i: int| 0 <= i < cell.drop_first().len() implies !is_special(
            #[trigger] cell.drop_first()[i],
            delimiter,
        ) by {
            assert(cell.drop_first()[i] == cell[i + 1]);
        }
        lemma_read_bare(next, cell.drop_first(), delimiter);
        assert(next.field + cell.drop_first() =~= state.field + cell);
    }
}

/// Inside a quoted field, a cell with its quotes doubled is read as the
/// cell.
proof fn lemma_read_quoted(state: ReadState, cell: Seq<u8>, delimiter: u8)
    requires
        state.mode is Quoted,
    ensures
        read_bytes(state, double_quotes(cell), delimiter) == (ReadState {
            field: state.field + cell,
            ..state
        }),
    decreases cell.len(),
{
    if cell.len() == 0 {
        assert(state.field + cell =~= state.field);
    } else {
        let rest = double_quotes(cell.drop_first());
        if cell[0] == QUOTE {
            let seen = read_byte(state, QUOTE, delimiter);
            let next = read_byte(seen, QUOTE, delimiter);
            assert(double_quotes(cell) =~= seq![QUOTE] + (seq![QUOTE] + rest));
            lemma_read_bytes_concat(state, seq![QUOTE], seq![QUOTE] + rest, delimiter);
            lemma_read_one(state, QUOTE, delimiter);
            lemma_read_bytes_concat(seen, seq![QUOTE], rest, delimiter);
            lemma_read_one(seen, QUOTE, delimiter);
            lemma_read_quoted(next, cell.drop_first(), delimiter);
            assert(next.field + cell.drop_first() =~= state.field + cell);
        } else {
            let next = read_byte(state, cell[0], delimiter);
            assert(double_quotes(cell) =~= seq![cell[0]] + rest);
            lemma_read_bytes_concat(state, seq![cell[0]], rest, delimiter);
            lemma_read_one(state, cell[0], delimiter);
            lemma_read_quoted(next, cell.drop_first(), delimiter);
            assert(next.field + cell.drop_first() =~= state.field + cell);
        }
    }
}

/// The state in which a written cell leaves the reader, before the byte
/// that ends the field.
pub open spec fn after_cell(state: ReadState, cell: Seq<u8>, delimiter: u8, policy: QuotePolicy)
    -> ReadState {
    if policy == QuotePolicy::WhenNeeded && needs_quotes(cell, delimiter) {
        ReadState { field: cell, mode: ReadMode::QuoteSeen, ..state }
    } else if cell.len() == 0 {
        state
    } else {
        ReadState { field: cell, mode: ReadMode::Bare, ..state }
    }
}

/// A written cell, read from the start of a field, leaves the reader
/// holding that cell.
proof fn lemma_read_cell(state: ReadState, cell: Seq<u8>, delimiter: u8, policy: QuotePolicy)
    requires
        state.mode is FieldStart,
        state.field.len() == 0,
        is_readable(cell, delimiter, policy),
        delimiter != QUOTE,
    ensures
        read_bytes(state, field_bytes(cell, delimiter, policy), delimiter) == after_cell(
            state,
            cell,
            delimiter,
            policy,
        ),
{
    assert(state.field =~= Seq::empty());
    if policy == QuotePolicy::WhenNeeded && needs_quotes(cell, delimiter) {
        let opened = read_byte(state, QUOTE, delimiter);
        let filled = ReadState { field: opened.field + cell, ..opened };
        assert(field_bytes(cell, delimiter, policy) =~= seq![QUOTE] + (double_quotes(cell)
            + seq![QUOTE]));
        lemma_read_bytes_concat(
            state,
            seq![QUOTE],
            double_quotes(cell) + seq![QUOTE],
            delimiter,
        );
        lemma_read_one(state, QUOTE, delimiter);
        lemma_read_bytes_concat(opened, double_quotes(cell), seq![QUOTE], delimiter);
        lemma_read_quoted(opened, cell, delimiter);
        lemma_read_one(filled, QUOTE, delimiter);
        assert(opened.field + cell =~= cell);
    } else if cell.len() > 0 {
        assert(!is_special(cell[0], delimiter));
        let started = read_byte(state, cell[0], delimiter);
        assert forall|i: int| 0 <= i < cell.drop_first().len() implies !is_special(
            #[trigger] cell.drop_first()[i],
            delimiter,
        ) by {
            assert(cell.drop_first()[i] == cell[i + 1]);
        }
        lemma_read_bare(started, cell.drop_first(), delimiter);
        assert(started.field + cell.drop_first() =~= cell);
    }
}

/// The written fields of a row, read from the start of a record, leave the
/// reader holding all fields but the last as ended, and the last as the
/// current field.
proof fn lemma_read_joined(
    state: ReadState,
    cells: Seq<Seq<u8>>,
    delimiter: u8,
    policy: QuotePolicy,
)
    requires
        state.mode is FieldStart,
        state.field.len() == 0,
        has_readable_cells(cells, delimiter, policy),
        delimiter != QUOTE,
        !is_line_break(delimiter),
    ensures
        read_bytes(state, joined_fields(cells, delimiter, policy), delimiter) == after_cell(
            ReadState { fields: state.fields + cells.drop_last(), ..state },
            cells.last(),
            delimiter,
            policy,
        ),
    decreases cells.len(),
{
    let first = field_bytes(cells[0], delimiter, policy);
    lemma_read_cell(state, cells[0], delimiter, policy);
    assert(state.field =~= Seq::<u8>::empty());
    if cells[0].len() == 0 {
        assert(cells[0] =~= Seq::<u8>::empty());
    }
    if cells.len() == 1 {
        assert(cells.drop_last() =~= Seq::empty());
        assert(state.fields + cells.drop_last() =~= state.fields);
    } else {
        let rest = cells.drop_first();
        let tail = joined_fields(rest, delimiter, policy);
        let held = after_cell(state, cells[0], delimiter, policy);
        let next = read_byte(held, delimiter, delimiter);
        assert(joined_fields(cells, delimiter, policy) =~= first + (seq![delimiter] + tail));
        lemma_read_bytes_concat(state, first, seq![delimiter] + tail, delimiter);
        lemma_read_bytes_concat(held, seq![delimiter], tail, delimiter);
        lemma_read_one(held, delimiter, delimiter);
        assert(next =~~= ReadState {
            fields: state.fields.push(cells[0]),
            field: Seq::empty(),
            mode: ReadMode::FieldStart,
            ..state
        });
        assert forall|c: int| 0 <= c < rest.len() implies is_readable(
            #[trigger] rest[c],
            delimiter,
            policy,
        ) by {
            assert(rest[c] == cells[c + 1]);
        }
        lemma_read_joined(next, rest, delimiter, policy);
        assert(next.fields + rest.drop_last() =~= state.fields + cells.drop_last());
        assert(rest.last() == cells.last());
    }
}

/// A written record, read from the start of a record, adds exactly its
/// cells to the records read.
proof fn lemma_read_record(
    records: Seq<Seq<Seq<u8>>>,
    cells: Seq<Seq<u8>>,
    delimiter: u8,
    policy: QuotePolicy,
)
    requires
        is_readable_row(cells, delimiter, policy),
        delimiter != QUOTE,
        !is_line_break(delimiter),
    ensures
        read_bytes(
            at_record_start(records),
            record_bytes(cells, delimiter, policy),
            delimiter,
        ) == at_record_start(records.push(cells)),
{
    let state = at_record_start(records);
    let line = joined_fields(cells, delimiter, policy);
    lemma_blank_means_empty_line(cells, delimiter, policy);
    if line.len() == 0 {
        let opened = read_byte(state, QUOTE, delimiter);
        let closed = read_byte(opened, QUOTE, delimiter);
        assert(record_bytes(cells, delimiter, policy) =~= seq![QUOTE] + (seq![QUOTE]
            + seq![LINE_FEED]));
        lemma_read_bytes_concat(state, seq![QUOTE], seq![QUOTE] + seq![LINE_FEED], delimiter);
        lemma_read_one(state, QUOTE, delimiter);
        lemma_read_bytes_concat(opened, seq![QUOTE], seq![LINE_FEED], delimiter);
        lemma_read_one(opened, QUOTE, delimiter);
        lemma_read_one(closed, LINE_FEED, delimiter);
        assert(Seq::<Seq<u8>>::empty().push(Seq::<u8>::empty()) =~~= cells);
    } else {
        lemma_read_joined(state, cells, delimiter, policy);
        let held = after_cell(
            ReadState { fields: state.fields + cells.drop_last(), ..state },
            cells.last(),
            delimiter,
            policy,
        );
        assert(record_bytes(cells, delimiter, policy) =~= line + seq![LINE_FEED]);
        lemma_read_bytes_concat(state, line, seq![LINE_FEED], delimiter);
        lemma_read_one(held, LINE_FEED, delimiter);
        if cells.len() == 1 {
            assert(cells[0].len() > 0);
        }
        if cells.last().len() == 0 {
            assert(cells.last() =~= Seq::<u8>::empty());
        }
        assert(state.fields + cells.drop_last() =~= cells.drop_last());
        assert(cells.drop_last().push(cells.last()) =~= cells);
    }
}

/// Written rows, read from the start of a record, add exactly their cells
/// to the records read.
proof fn lemma_read_rows(
    records: Seq<Seq<Seq<u8>>>,
    rows: Seq<Seq<Seq<char>>>,
    delimiter: u8,
    policy: QuotePolicy,
)
    requires
        forall|r: int|
            0 <= r < rows.len() ==> is_readable_row(
                cells_bytes(#[trigger] rows[r]),
                delimiter,
                policy,
            ),
        delimiter != QUOTE,
        !is_line_break(delimiter),
    ensures
        read_bytes(at_record_start(records), rows_bytes(rows, delimiter, policy), delimiter)
            == at_record_start(records + rows_cells_bytes(rows)),
    decreases rows.len(),
{
    if rows.len() == 0 {
        assert(records + rows_cells_bytes(rows) =~= records);
    } else {
        let first = record_bytes(cells_bytes(rows[0]), delimiter, policy);
        let rest = rows.drop_first();
        lemma_read_record(records, cells_bytes(rows[0]), delimiter, policy);
        lemma_read_bytes_concat(
            at_record_start(records),
            first,
            rows_bytes(rest, delimiter, policy),
            delimiter,
        );
        assert forall|r: int| 0 <= r < rest.len() implies is_readable_row(
            cells_bytes(#[trigger] rest[r]),
            delimiter,
            policy,
        ) by {
            assert(rest[r] == rows[r + 1]);
        }
        lemma_read_rows(records.push(cells_bytes(rows[0])), rest, delimiter, policy);
        assert(records.push(cells_bytes(rows[0])) + rows_cells_bytes(rest) =~= records
            + rows_cells_bytes(rows));
    }
}

/// Round trip: reading the CSV bytes of a header and rows gives back the
/// header, if it was written, and then every row, cell for cell.
///
/// It holds for a delimiter that is neither a quote nor a line break, for
/// rows (and a header) of at least one column, and either under the
/// quote-when-needed policy or for cells without delimiter, quote and line
/// break in rows that are not a single empty cell.
pub proof fn law_reading_gives_back_the_rows(
    header: Seq<Seq<char>>,
    rows: Seq<Seq<Seq<char>>>,
    config: ConversionConfig,
)
    requires
        delimiter_byte_of(config.delimiter) != QUOTE,
        !is_line_break(delimiter_byte_of(config.delimiter)),
        config.include_header ==> is_readable_row(
            cells_bytes(header),
            delimiter_byte_of(config.delimiter),
            config.quote_policy,
        ),
        forall|r: int|
            0 <= r < rows.len() ==> is_readable_row(
                cells_bytes(#[trigger] rows[r]),
                delimiter_byte_of(config.delimiter),
                config.quote_policy,
            ),
    ensures
        read_csv(csv_bytes(header, rows, config), delimiter_byte_of(config.delimiter)) == if config.include_header {
            seq![cells_bytes(header)] + rows_cells_bytes(rows)
        } else {
            rows_cells_bytes(rows)
        },
        read_csv(csv_bytes(header, rows, config), delimiter_byte_of(config.delimiter)).len()
            == rows.len() + if config.include_header {
            1nat
        } else {
            0nat
        },
{
    let delimiter = delimiter_byte_of(config.delimiter);
    let policy = config.quote_policy;
    let body = rows_bytes(rows, delimiter, policy);
    let start = at_record_start(Seq::empty());
    assert(start == initial_state());
    if config.include_header {
        let head = record_bytes(cells_bytes(header), delimiter, policy);
        lemma_read_record(Seq::empty(), cells_bytes(header), delimiter, policy);
        lemma_read_bytes_concat(start, head, body, delimiter);
        lemma_read_rows(seq![cells_bytes(header)], rows, delimiter, policy);
        assert(Seq::<Seq<Seq<u8>>>::empty().push(cells_bytes(header)) =~= seq![
            cells_bytes(header),
        ]);
    } else {
        assert(csv_bytes(header, rows, config) =~= body);
        lemma_read_rows(Seq::empty(), rows, delimiter, policy);
        assert(Seq::<Seq<Seq<u8>>>::empty() + rows_cells_bytes(rows) =~= rows_cells_bytes(rows));
    }
}

} // verus!
