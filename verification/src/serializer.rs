//! The serializer: header and rows to CSV text.
//!
//! A record is its fields, each rendered by the quoting policy, with the
//! delimiter byte between them and one line feed after the last. Every row
//! must have one cell for each column of the header. Records are written by
//! the `csv` crate, one at a time, but for the empty line that a blank
//! record is under the never-quote policy; this module states what a
//! record's bytes are, joins the records and turns the bytes into text.

use crate::config::{delimiter_byte_of, ConversionConfig, QuotePolicy};
use crate::error::{ConversionError, ErrorView};
use crate::json::strings_view;
use crate::table::rows_view;
use vstd::prelude::*;
use vstd::utf8::*;

verus! {

/// The quote byte, `"`.
pub const QUOTE: u8 = 0x22;

/// The line feed that ends every record.
pub const LINE_FEED: u8 = 0x0A;

/// The carriage return.
pub const CARRIAGE_RETURN: u8 = 0x0D;

/// Whether a byte forces quotes around the field that holds it.
pub open spec fn is_special(byte: u8, delimiter: u8) -> bool {
    byte == delimiter || byte == QUOTE || byte == CARRIAGE_RETURN || byte == LINE_FEED
}

/// Whether a field holds the delimiter, a quote or a line break.
pub open spec fn needs_quotes(field: Seq<u8>, delimiter: u8) -> bool {
    exists|i: int| 0 <= i < field.len() && is_special(#[trigger] field[i], delimiter)
}

/// The field with every quote byte written twice.
pub open spec fn double_quotes(field: Seq<u8>) -> Seq<u8>
    decreases field.len(),
{
    if field.len() == 0 {
        Seq::empty()
    } else if field[0] == QUOTE {
        seq![QUOTE, QUOTE] + double_quotes(field.drop_first())
    } else {
        seq![field[0]] + double_quotes(field.drop_first())
    }
}

/// The bytes written for one field.
pub open spec fn field_bytes(field: Seq<u8>, delimiter: u8, policy: QuotePolicy) -> Seq<u8> {
    if policy == QuotePolicy::WhenNeeded && needs_quotes(field, delimiter) {
        seq![QUOTE] + double_quotes(field) + seq![QUOTE]
    } else {
        field
    }
}

/// The rendered fields of a record with the delimiter between them.
pub open spec fn joined_fields(fields: Seq<Seq<u8>>, delimiter: u8, policy: QuotePolicy) -> Seq<u8>
    decreases fields.len(),
{
    if fields.len() == 0 {
        Seq::empty()
    } else if fields.len() == 1 {
        field_bytes(fields[0], delimiter, policy)
    } else {
        field_bytes(fields[0], delimiter, policy) + seq![delimiter] + joined_fields(
            fields.drop_first(),
            delimiter,
            policy,
        )
    }
}

/// Whether a record has no byte to write before its line feed: it has no
/// field, or one empty field.
pub open spec fn is_blank(fields: Seq<Seq<u8>>) -> bool {
    fields.len() == 0 || (fields.len() == 1 && fields[0].len() == 0)
}

/// The bytes of one record, line feed included.
///
/// Under the quote-when-needed policy a record that would otherwise be an
/// empty line (no field, or one empty field) is written as a pair of
/// quotes, so that a reader does not skip it. Under the never-quote policy
/// nothing is ever added: such a record is the line feed alone.
pub open spec fn record_bytes(fields: Seq<Seq<u8>>, delimiter: u8, policy: QuotePolicy) -> Seq<u8> {
    let line = joined_fields(fields, delimiter, policy);
    if line.len() == 0 && policy == QuotePolicy::WhenNeeded {
        seq![QUOTE, QUOTE, LINE_FEED]
    } else {
        line.push(LINE_FEED)
    }
}

/// The bytes of one record as the `csv` writer writes it: as `record_bytes`,
/// but with the pair of quotes for an empty line under either policy.
pub open spec fn written_record_bytes(
    fields: Seq<Seq<u8>>,
    delimiter: u8,
    policy: QuotePolicy,
) -> Seq<u8> {
    let line = joined_fields(fields, delimiter, policy);
    if line.len() == 0 {
        seq![QUOTE, QUOTE, LINE_FEED]
    } else {
        line.push(LINE_FEED)
    }
}

/// The UTF-8 bytes of each cell of a row.
pub open spec fn cells_bytes(cells: Seq<Seq<char>>) -> Seq<Seq<u8>> {
    cells.map_values(|cell: Seq<char>| encode_utf8(cell))
}

/// The bytes of a sequence of rows, one record for each.
pub open spec fn rows_bytes(rows: Seq<Seq<Seq<char>>>, delimiter: u8, policy: QuotePolicy) -> Seq<u8>
    decreases rows.len(),
{
    if rows.len() == 0 {
        Seq::empty()
    } else {
        record_bytes(cells_bytes(rows[0]), delimiter, policy) + rows_bytes(
            rows.drop_first(),
            delimiter,
            policy,
        )
    }
}

/// The bytes of a whole CSV text: the header's record if the settings ask
/// for it, then the rows' records.
pub open spec fn csv_bytes(
    header: Seq<Seq<char>>,
    rows: Seq<Seq<Seq<char>>>,
    config: ConversionConfig,
) -> Seq<u8> {
    let delimiter = delimiter_byte_of(config.delimiter);
    let head = if config.include_header {
        record_bytes(cells_bytes(header), delimiter, config.quote_policy)
    } else {
        Seq::empty()
    };
    head + rows_bytes(rows, delimiter, config.quote_policy)
}

/// Whether `text` is the CSV text of header and rows under `config`: its
/// UTF-8 form is exactly the CSV bytes.
pub open spec fn is_csv_text(
    text: Seq<char>,
    header: Seq<Seq<char>>,
    rows: Seq<Seq<Seq<char>>>,
    config: ConversionConfig,
) -> bool {
    encode_utf8(text) == csv_bytes(header, rows, config)
}

/// Whether every row has one cell for each column of the header.
pub open spec fn fits_header(header: Seq<Seq<char>>, rows: Seq<Seq<Seq<char>>>) -> bool {
    forall|r: int| 0 <= r < rows.len() ==> (#[trigger] rows[r]).len() == header.len()
}

/// What serializing gives: the text that the CSV bytes encode, or a
/// serialization error if some row does not fit the header or the bytes are
/// not UTF-8.
pub open spec fn serialized(
    header: Seq<Seq<char>>,
    rows: Seq<Seq<Seq<char>>>,
    config: ConversionConfig,
) -> Result<Seq<char>, ErrorView> {
    let bytes = csv_bytes(header, rows, config);
    if fits_header(header, rows) && valid_utf8(bytes) {
        Ok(decode_utf8(bytes))
    } else {
        Err(ErrorView::Serialize)
    }
}

/// A text without characters has no bytes, and only such a text.
pub proof fn lemma_empty_text_has_no_bytes(text: Seq<char>)
    ensures
        text.len() == 0 <==> encode_utf8(text).len() == 0,
{
    if text.len() > 0 {
        assert(encode_scalar(text[0] as u32).len() > 0);
    }
}

/// The records of `rows` followed by one more are the bytes of `rows`
/// followed by the bytes of that record.
pub proof fn lemma_rows_bytes_push(
    rows: Seq<Seq<Seq<char>>>,
    row: Seq<Seq<char>>,
    delimiter: u8,
    policy: QuotePolicy,
)
    ensures
        rows_bytes(rows.push(row), delimiter, policy) == rows_bytes(rows, delimiter, policy)
            + record_bytes(cells_bytes(row), delimiter, policy),
    decreases rows.len(),
{
    if rows.len() == 0 {
        let rest = rows.push(row).drop_first();
        assert(rest =~= Seq::empty());
        assert(rows_bytes(rest, delimiter, policy) =~= Seq::empty());
        assert(rows_bytes(rows.push(row), delimiter, policy) =~= record_bytes(
            cells_bytes(row),
            delimiter,
            policy,
        ));
        assert(rows_bytes(rows, delimiter, policy) + record_bytes(
            cells_bytes(row),
            delimiter,
            policy,
        ) =~= record_bytes(cells_bytes(row), delimiter, policy));
    } else {
        assert(rows.push(row).drop_first() =~= rows.drop_first().push(row));
        lemma_rows_bytes_push(rows.drop_first(), row, delimiter, policy);
        assert(rows_bytes(rows.push(row), delimiter, policy) =~= rows_bytes(rows, delimiter, policy)
            + record_bytes(cells_bytes(row), delimiter, policy));
    }
}

/// The fields as given, with the delimiter between them and no quoting.
pub open spec fn plain_line(fields: Seq<Seq<u8>>, delimiter: u8) -> Seq<u8>
    decreases fields.len(),
{
    if fields.len() == 0 {
        Seq::empty()
    } else if fields.len() == 1 {
        fields[0]
    } else {
        fields[0] + seq![delimiter] + plain_line(fields.drop_first(), delimiter)
    }
}

/// A record has no byte to write exactly when it is blank.
pub proof fn lemma_blank_means_empty_line(fields: Seq<Seq<u8>>, delimiter: u8, policy: QuotePolicy)
    ensures
        is_blank(fields) <==> joined_fields(fields, delimiter, policy).len() == 0,
{
    if fields.len() == 1 && fields[0].len() > 0 {
        assert(field_bytes(fields[0], delimiter, policy).len() > 0);
    }
}

/// Serializing is a function of header, rows and settings: two texts that
/// are both the CSV text of the same input are the same text.
pub proof fn law_csv_text_is_unique(
    first: Seq<char>,
    second: Seq<char>,
    header: Seq<Seq<char>>,
    rows: Seq<Seq<Seq<char>>>,
    config: ConversionConfig,
)
    requires
        is_csv_text(first, header, rows, config),
        is_csv_text(second, header, rows, config),
    ensures
        first == second,
{
    encode_utf8_decode_utf8(first);
    encode_utf8_decode_utf8(second);
}

/// Doubling quotes goes byte by byte: a quote becomes two quotes, any other
/// byte stays, and the order is kept.
pub proof fn law_double_quotes_concat(left: Seq<u8>, right: Seq<u8>)
    ensures
        double_quotes(left + right) == double_quotes(left) + double_quotes(right),
        double_quotes(seq![QUOTE]) == seq![QUOTE, QUOTE],
        forall|byte: u8| byte != QUOTE ==> double_quotes(seq![byte]) == seq![byte],
    decreases left.len(),
{
    assert(double_quotes(seq![QUOTE]) =~= seq![QUOTE, QUOTE]) by {
        assert(seq![QUOTE].drop_first() =~= Seq::<u8>::empty());
        assert(double_quotes(seq![QUOTE].drop_first()) =~= Seq::<u8>::empty());
    }
    assert forall|byte: u8| byte != QUOTE implies double_quotes(seq![byte]) == seq![byte] by {
        assert(seq![byte].drop_first() =~= Seq::<u8>::empty());
        assert(double_quotes(seq![byte].drop_first()) =~= Seq::<u8>::empty());
        assert(double_quotes(seq![byte]) =~= seq![byte]);
    }
    if left.len() == 0 {
        assert(left + right =~= right);
        assert(double_quotes(left) + double_quotes(right) =~= double_quotes(right));
    } else {
        assert((left + right).drop_first() =~= left.drop_first() + right);
        law_double_quotes_concat(left.drop_first(), right);
        assert(double_quotes(left + right) =~= double_quotes(left) + double_quotes(right));
    }
}

/// Under the quote-when-needed policy, a cell that holds the delimiter, a
/// quote or a line break is written between two quotes, with each of its
/// own quotes doubled.
pub proof fn law_special_cell_is_quoted(cell: Seq<u8>, delimiter: u8, at: int)
    requires
        0 <= at < cell.len(),
        is_special(cell[at], delimiter),
    ensures
        field_bytes(cell, delimiter, QuotePolicy::WhenNeeded) == seq![QUOTE] + double_quotes(cell)
            + seq![QUOTE],
{
}

/// Under the quote-when-needed policy, a cell without delimiter, quote or
/// line break is written as it is.
pub proof fn law_plain_cell_is_bare(cell: Seq<u8>, delimiter: u8)
    requires
        forall|at: int| 0 <= at < cell.len() ==> !is_special(#[trigger] cell[at], delimiter),
    ensures
        field_bytes(cell, delimiter, QuotePolicy::WhenNeeded) == cell,
{
}

/// Under the never-quote policy the fields of a record are joined as they
/// are.
pub proof fn lemma_never_policy_joins_plainly(fields: Seq<Seq<u8>>, delimiter: u8)
    ensures
        joined_fields(fields, delimiter, QuotePolicy::Never) == plain_line(fields, delimiter),
    decreases fields.len(),
{
    if fields.len() > 1 {
        lemma_never_policy_joins_plainly(fields.drop_first(), delimiter);
    }
}

/// Under the never-quote policy no cell is wrapped or changed, whatever it
/// holds: every record is its cells as given, the delimiter between them,
/// and a line feed.
pub proof fn law_never_policy_adds_no_quotes(fields: Seq<Seq<u8>>, delimiter: u8)
    ensures
        record_bytes(fields, delimiter, QuotePolicy::Never) == plain_line(fields, delimiter).push(
            LINE_FEED,
        ),
{
    lemma_never_policy_joins_plainly(fields, delimiter);
}

/// A record with no byte to write is a pair of quotes and a line feed under
/// the quote-when-needed policy, and the line feed alone under the
/// never-quote policy.
pub proof fn law_blank_record(fields: Seq<Seq<u8>>, delimiter: u8)
    requires
        is_blank(fields),
    ensures
        record_bytes(fields, delimiter, QuotePolicy::WhenNeeded) == seq![
            QUOTE,
            QUOTE,
            LINE_FEED,
        ],
        record_bytes(fields, delimiter, QuotePolicy::Never) == seq![LINE_FEED],
{
    lemma_blank_means_empty_line(fields, delimiter, QuotePolicy::WhenNeeded);
    lemma_blank_means_empty_line(fields, delimiter, QuotePolicy::Never);
    assert(joined_fields(fields, delimiter, QuotePolicy::Never).push(LINE_FEED) =~= seq![
        LINE_FEED,
    ]);
}

/// Every record ends with exactly one line feed written after its fields,
/// the header's record like any other.
pub proof fn law_record_ends_with_line_feed(
    fields: Seq<Seq<u8>>,
    delimiter: u8,
    policy: QuotePolicy,
)
    ensures
        record_bytes(fields, delimiter, policy).len() > 0,
        record_bytes(fields, delimiter, policy).last() == LINE_FEED,
        record_bytes(fields, delimiter, policy).drop_last() == if is_blank(fields) && policy
            == QuotePolicy::WhenNeeded {
            seq![QUOTE, QUOTE]
        } else {
            joined_fields(fields, delimiter, policy)
        },
{
    let line = joined_fields(fields, delimiter, policy);
    lemma_blank_means_empty_line(fields, delimiter, policy);
    assert(seq![QUOTE, QUOTE, LINE_FEED].drop_last() =~= seq![QUOTE, QUOTE]);
    assert(line.push(LINE_FEED).drop_last() =~= line);
}

/// A field without quotes is its own doubling.
proof fn lemma_double_quotes_without_quotes(field: Seq<u8>)
    requires
        forall|i: int| 0 <= i < field.len() ==> #[trigger] field[i] != QUOTE,
    ensures
        double_quotes(field) == field,
    decreases field.len(),
{
    if field.len() > 0 {
        assert forall|i: int| 0 <= i < field.drop_first().len() implies #[trigger] field.drop_first()[i]
            != QUOTE by {
            assert(field.drop_first()[i] == field[i + 1]);
        }
        lemma_double_quotes_without_quotes(field.drop_first());
        assert(double_quotes(field) =~= field);
    }
}

/// A single ASCII byte is valid UTF-8.
proof fn lemma_ascii_byte_is_utf8(byte: u8)
    requires
        byte < 0x80,
    ensures
        valid_utf8(seq![byte]),
{
    reveal_with_fuel(valid_utf8, 2);
    assert((byte & 0x7F) as u32 <= 0x7F) by (bit_vector);
    assert(pop_first_scalar(seq![byte]) =~= Seq::<u8>::empty());
}

/// The first scalar of valid UTF-8 is valid UTF-8 by itself.
proof fn lemma_first_scalar_is_utf8(bytes: Seq<u8>)
    requires
        valid_utf8(bytes),
        bytes.len() > 0,
    ensures
        valid_utf8(take_first_scalar(bytes)),
        valid_utf8(pop_first_scalar(bytes)),
        pop_first_scalar(bytes).len() < bytes.len(),
        take_first_scalar(bytes).len() == 1 ==> take_first_scalar(bytes)[0] < 0x80,
        take_first_scalar(bytes).len() != 1 ==> forall|i: int|
            0 <= i < take_first_scalar(bytes).len() ==> #[trigger] take_first_scalar(bytes)[i]
                >= 0x80,
{
    reveal_with_fuel(valid_utf8, 2);
    let head = take_first_scalar(bytes);
    assert(pop_first_scalar(head) =~= Seq::<u8>::empty());
}

/// Doubling the quotes of valid UTF-8 gives valid UTF-8.
proof fn lemma_double_quotes_keeps_utf8(field: Seq<u8>)
    requires
        valid_utf8(field),
    ensures
        valid_utf8(double_quotes(field)),
    decreases field.len(),
{
    if field.len() > 0 {
        let head = take_first_scalar(field);
        let tail = pop_first_scalar(field);
        assert(field =~= head + tail);
        lemma_first_scalar_is_utf8(field);
        lemma_double_quotes_keeps_utf8(tail);
        law_double_quotes_concat(head, tail);
        if head.len() == 1 {
            if head[0] == QUOTE {
                assert(head =~= seq![QUOTE]);
                lemma_ascii_byte_is_utf8(QUOTE);
                valid_utf8_concat(seq![QUOTE], seq![QUOTE]);
                assert(seq![QUOTE] + seq![QUOTE] =~= seq![QUOTE, QUOTE]);
            } else {
                lemma_double_quotes_without_quotes(head);
            }
        } else {
            lemma_double_quotes_without_quotes(head);
        }
        valid_utf8_concat(double_quotes(head), double_quotes(tail));
    }
}

/// A rendered field of valid UTF-8 is valid UTF-8.
proof fn lemma_field_bytes_are_utf8(field: Seq<u8>, delimiter: u8, policy: QuotePolicy)
    requires
        valid_utf8(field),
    ensures
        valid_utf8(field_bytes(field, delimiter, policy)),
{
    if policy == QuotePolicy::WhenNeeded && needs_quotes(field, delimiter) {
        lemma_ascii_byte_is_utf8(QUOTE);
        lemma_double_quotes_keeps_utf8(field);
        valid_utf8_concat(seq![QUOTE], double_quotes(field));
        valid_utf8_concat(seq![QUOTE] + double_quotes(field), seq![QUOTE]);
    }
}

/// The joined fields of a record are valid UTF-8 if the cells are and the
/// delimiter is ASCII.
proof fn lemma_joined_fields_are_utf8(fields: Seq<Seq<u8>>, delimiter: u8, policy: QuotePolicy)
    requires
        delimiter < 0x80,
        forall|i: int| 0 <= i < fields.len() ==> valid_utf8(#[trigger] fields[i]),
    ensures
        valid_utf8(joined_fields(fields, delimiter, policy)),
    decreases fields.len(),
{
    if fields.len() > 0 {
        lemma_field_bytes_are_utf8(fields[0], delimiter, policy);
        if fields.len() > 1 {
            let rest = fields.drop_first();
            assert forall|i: int| 0 <= i < rest.len() implies valid_utf8(#[trigger] rest[i]) by {
                assert(rest[i] == fields[i + 1]);
            }
            lemma_joined_fields_are_utf8(rest, delimiter, policy);
            lemma_ascii_byte_is_utf8(delimiter);
            valid_utf8_concat(field_bytes(fields[0], delimiter, policy), seq![delimiter]);
            valid_utf8_concat(
                field_bytes(fields[0], delimiter, policy) + seq![delimiter],
                joined_fields(rest, delimiter, policy),
            );
        }
    }
}

/// The record of a row of text cells is valid UTF-8 if the delimiter is
/// ASCII.
proof fn lemma_record_is_utf8(cells: Seq<Seq<char>>, delimiter: u8, policy: QuotePolicy)
    requires
        delimiter < 0x80,
    ensures
        valid_utf8(record_bytes(cells_bytes(cells), delimiter, policy)),
{
    let fields = cells_bytes(cells);
    assert forall|i: int| 0 <= i < fields.len() implies valid_utf8(#[trigger] fields[i]) by {
        encode_utf8_valid_utf8(cells[i]);
    }
    lemma_joined_fields_are_utf8(fields, delimiter, policy);
    let line = joined_fields(fields, delimiter, policy);
    lemma_ascii_byte_is_utf8(QUOTE);
    lemma_ascii_byte_is_utf8(LINE_FEED);
    valid_utf8_concat(seq![QUOTE], seq![QUOTE]);
    valid_utf8_concat(seq![QUOTE] + seq![QUOTE], seq![LINE_FEED]);
    assert(seq![QUOTE] + seq![QUOTE] + seq![LINE_FEED] =~= seq![QUOTE, QUOTE, LINE_FEED]);
    valid_utf8_concat(line, seq![LINE_FEED]);
    assert(line + seq![LINE_FEED] =~= line.push(LINE_FEED));
}

/// The records of rows of text cells are valid UTF-8 if the delimiter is
/// ASCII.
proof fn lemma_rows_are_utf8(rows: Seq<Seq<Seq<char>>>, delimiter: u8, policy: QuotePolicy)
    requires
        delimiter < 0x80,
    ensures
        valid_utf8(rows_bytes(rows, delimiter, policy)),
    decreases rows.len(),
{
    if rows.len() > 0 {
        lemma_record_is_utf8(rows[0], delimiter, policy);
        lemma_rows_are_utf8(rows.drop_first(), delimiter, policy);
        valid_utf8_concat(
            record_bytes(cells_bytes(rows[0]), delimiter, policy),
            rows_bytes(rows.drop_first(), delimiter, policy),
        );
    }
}

/// With an ASCII delimiter the CSV bytes are always UTF-8 text, whatever
/// the cells hold.
pub proof fn law_ascii_delimiter_gives_utf8(
    header: Seq<Seq<char>>,
    rows: Seq<Seq<Seq<char>>>,
    config: ConversionConfig,
)
    requires
        (config.delimiter as u32) < 0x80,
    ensures
        valid_utf8(csv_bytes(header, rows, config)),
{
    let delimiter = delimiter_byte_of(config.delimiter);
    assert(delimiter < 0x80) by {
        let scalar = config.delimiter as u32;
        assert(scalar < 0x80 ==> ((scalar & 0x7F) as u8) < 0x80) by (bit_vector);
    }
    lemma_rows_are_utf8(rows, delimiter, config.quote_policy);
    if config.include_header {
        lemma_record_is_utf8(header, delimiter, config.quote_policy);
        valid_utf8_concat(
            record_bytes(cells_bytes(header), delimiter, config.quote_policy),
            rows_bytes(rows, delimiter, config.quote_policy),
        );
    } else {
        assert(csv_bytes(header, rows, config) =~= rows_bytes(
            rows,
            delimiter,
            config.quote_policy,
        ));
    }
}

/// `csv::Error`, what the record writer reports when it fails.
#[verifier::external_type_specification]
#[verifier::external_body]
pub struct ExCsvError(csv::Error);

/// `std::string::FromUtf8Error`, given for bytes that are not UTF-8.
#[verifier::external_type_specification]
#[verifier::external_body]
pub struct ExFromUtf8Error(std::string::FromUtf8Error);

/// One record as the `csv` crate writes it: a `csv::Writer` over an empty
/// byte vector, built with the given delimiter and with quote style
/// `Necessary` or `Never`, takes the fields through `write_record` and gives
/// the bytes back through `into_inner`.
///
/// The contract states the bytes written: fields that need quotes are
/// quoted with their quotes doubled (style `Necessary` only), the delimiter
/// stands between fields, a line feed ends the record, and a record with no
/// byte before the line feed gets a pair of quotes under either style. It
/// also states that the write succeeds: the writer's only checks are that a
/// record is as long as the first one written, which this record is, and
/// that the sink takes the bytes, which a byte vector always does.
#[verifier::external_body]
fn write_record(fields: &Vec<String>, delimiter: u8, policy: QuotePolicy) -> (r: Result<
    Vec<u8>,
    csv::Error,
>)
    ensures
        r is Ok,
        r matches Ok(bytes) ==> bytes@ == written_record_bytes(
            cells_bytes(strings_view(fields@)),
            delimiter,
            policy,
        ),
{
    let style = match policy {
        QuotePolicy::WhenNeeded => csv::QuoteStyle::Necessary,
        QuotePolicy::Never => csv::QuoteStyle::Never,
    };
    let mut writer = csv::WriterBuilder::new().delimiter(delimiter).quote_style(style).from_writer(
        Vec::new(),
    );
    writer.write_record(fields)?;
    writer.into_inner().map_err(|error| csv::Error::from(error.into_error()))
}

/// `String::from_utf8` succeeds exactly on valid UTF-8, and the text it
/// gives is the one that the bytes encode.
pub assume_specification[ String::from_utf8 ](bytes: Vec<u8>) -> (r: Result<
    String,
    std::string::FromUtf8Error,
>)
    ensures
        match r {
            Ok(text) => valid_utf8(bytes@) && text@ == decode_utf8(bytes@),
            Err(_) => !valid_utf8(bytes@),
        },
;

/// Turns CSV bytes into text. Fails exactly when the bytes are not UTF-8.
pub fn text_of_bytes(bytes: Vec<u8>) -> (r: Result<String, ConversionError>)
    ensures
        match r {
            Ok(text) => valid_utf8(bytes@) && encode_utf8(text@) == bytes@,
            Err(error) => error@ == ErrorView::Serialize && !valid_utf8(bytes@),
        },
{
    let ghost given = bytes@;
    match String::from_utf8(bytes) {
        Ok(text) => {
            proof {
                decode_utf8_encode_utf8(given);
            }
            Ok(text)
        },
        Err(_) => Err(ConversionError::Serialize),
    }
}

/// Appends the bytes of one written record to `out`, or reports that the
/// writer failed.
pub fn append_record(out: &mut Vec<u8>, written: Result<Vec<u8>, csv::Error>) -> (r: Result<
    (),
    ConversionError,
>)
    ensures
        match (r, written) {
            (Ok(_), Ok(bytes)) => final(out)@ == old(out)@ + bytes@,
            (Err(error), Err(_)) => error@ == ErrorView::Serialize && final(out)@ == old(out)@,
            _ => false,
        },
{
    match written {
        Ok(mut bytes) => {
            out.append(&mut bytes);
            Ok(())
        },
        Err(_) => Err(ConversionError::Serialize),
    }
}

/// Whether a row has no byte to write: no cell, or one empty cell.
fn is_blank_row(fields: &Vec<String>) -> (blank: bool)
    ensures
        blank == is_blank(cells_bytes(strings_view(fields@))),
{
    if fields.len() == 0 {
        true
    } else if fields.len() == 1 {
        proof {
            lemma_empty_text_has_no_bytes(fields[0]@);
        }
        fields[0].as_str().is_empty()
    } else {
        false
    }
}

/// The bytes of one record. Under the never-quote policy a blank record is
/// written here, as the line feed alone; every other record is the `csv`
/// writer's.
fn render_record(fields: &Vec<String>, delimiter: u8, policy: QuotePolicy) -> (r: Result<
    Vec<u8>,
    csv::Error,
>)
    ensures
        r is Ok,
        r matches Ok(bytes) ==> bytes@ == record_bytes(
            cells_bytes(strings_view(fields@)),
            delimiter,
            policy,
        ),
{
    proof {
        lemma_blank_means_empty_line(cells_bytes(strings_view(fields@)), delimiter, policy);
    }
    match policy {
        QuotePolicy::Never => {
            if is_blank_row(fields) {
                let mut bytes: Vec<u8> = Vec::new();
                bytes.push(LINE_FEED);
                assert(bytes@ =~= joined_fields(
                    cells_bytes(strings_view(fields@)),
                    delimiter,
                    policy,
                ).push(LINE_FEED));
                Ok(bytes)
            } else {
                write_record(fields, delimiter, policy)
            }
        },
        QuotePolicy::WhenNeeded => write_record(fields, delimiter, policy),
    }
}

/// Whether every row has one cell for each column of the header.
fn rows_fit(header: &Vec<String>, rows: &Vec<Vec<String>>) -> (fit: bool)
    ensures
        fit == fits_header(strings_view(header@), rows_view(rows@)),
{
    let mut i: usize = 0;
    while i < rows.len()
        invariant
            i <= rows.len(),
            forall|r: int|
                0 <= r < i ==> (#[trigger] rows_view(rows@)[r]).len() == strings_view(
                    header@,
                ).len(),
        decreases rows.len() - i,
    {
        if rows[i].len() != header.len() {
            assert(rows_view(rows@)[i as int].len() != strings_view(header@).len());
            return false;
        }
        i = i + 1;
    }
    true
}

/// Renders header and rows as CSV text.
///
/// The header is written first if the settings ask for it. The result is
/// exactly `serialized`: the text whose UTF-8 form is `csv_bytes`, or
/// `ConversionError::Serialize` if some row does not have one cell for each
/// column or if the bytes are not UTF-8. With an ASCII delimiter the bytes
/// are always UTF-8.
pub fn serialize(header: &Vec<String>, rows: &Vec<Vec<String>>, config: &ConversionConfig) -> (r:
    Result<String, ConversionError>)
    ensures
        match r {
            Ok(text) => serialized(strings_view(header@), rows_view(rows@), *config) == Ok::<
                Seq<char>,
                ErrorView,
            >(text@),
            Err(error) => serialized(strings_view(header@), rows_view(rows@), *config) == Err::<
                Seq<char>,
                ErrorView,
            >(error@),
        },
        r matches Ok(text) ==> is_csv_text(text@, strings_view(header@), rows_view(rows@), *config),
        (config.delimiter as u32) < 0x80 && fits_header(strings_view(header@), rows_view(rows@))
            ==> r is Ok,
{
    proof {
        if (config.delimiter as u32) < 0x80 {
            law_ascii_delimiter_gives_utf8(strings_view(header@), rows_view(rows@), *config);
        }
    }
    if !rows_fit(header, rows) {
        return Err(ConversionError::Serialize);
    }
    let delimiter = config.delimiter_byte();
    let policy = config.quote_policy;
    let ghost all = rows_view(rows@);
    let mut out: Vec<u8> = Vec::new();
    if config.include_header {
        let written = render_record(header, delimiter, policy);
        match append_record(&mut out, written) {
            Ok(_) => {},
            Err(error) => {
                return Err(error);
            },
        }
    }
    let ghost head = out@;
    let mut i: usize = 0;
    assert(all.take(0) =~= Seq::empty());
    assert(out@ =~= head + rows_bytes(all.take(0), delimiter, policy));
    while i < rows.len()
        invariant
            i <= rows.len(),
            all == rows_view(rows@),
            out@ == head + rows_bytes(all.take(i as int), delimiter, policy),
        decreases rows.len() - i,
    {
        let written = render_record(&rows[i], delimiter, policy);
        proof {
            assert(all.take(i + 1) =~= all.take(i as int).push(all[i as int]));
            lemma_rows_bytes_push(all.take(i as int), all[i as int], delimiter, policy);
        }
        match append_record(&mut out, written) {
            Ok(_) => {},
            Err(error) => {
                return Err(error);
            },
        }
        i = i + 1;
        assert(out@ =~= head + rows_bytes(all.take(i as int), delimiter, policy));
    }
    assert(all.take(i as int) =~= all);
    assert(out@ == csv_bytes(strings_view(header@), rows_view(rows@), *config));
    let ghost bytes = out@;
    proof {
        if valid_utf8(bytes) {
            decode_utf8_encode_utf8(bytes);
            encode_utf8_decode_utf8(decode_utf8(bytes));
        }
    }
    match text_of_bytes(out) {
        Ok(text) => {
            proof {
                encode_utf8_decode_utf8(text@);
            }
            Ok(text)
        },
        Err(error) => Err(error),
    }
}

} // verus!
