//! A whole conversion in one call: load, tabularize, serialize.

use crate::config::ConversionConfig;
use crate::error::{ConversionError, ErrorView};
use crate::json::{load, parsed_json, strings_view};
use crate::serializer::{fits_header, serialize, serialized};
use crate::table::{
    is_tabular, law_tables_are_rectangular, supports, table_of, tabularize, Table, TableView,
};
use vstd::prelude::*;

verus! {

/// What a conversion produces: the table and its CSV text.
pub struct Conversion {
    pub table: Table,
    pub csv: String,
}

/// What converting a source text gives: the table of the document that the
/// text parses to and the CSV text of that table's header and rows, or the
/// first error on the way.
pub open spec fn converted(
    source: Seq<char>,
    requested: Seq<Seq<char>>,
    config: ConversionConfig,
) -> Result<(TableView, Seq<char>), ErrorView> {
    match parsed_json(source) {
        Err(reason) => Err(ErrorView::Parse(reason)),
        Ok(document) => {
            if !is_tabular(document) {
                Err(ErrorView::UnsupportedStructure)
            } else {
                let table = table_of(document, requested, config.row_cap_for_preview as nat);
                match serialized(table.header, table.rows, config) {
                    Ok(text) => Ok((table, text)),
                    Err(error) => Err(error),
                }
            }
        },
    }
}

/// With an ASCII delimiter every source that parses to an object, or to an
/// array that starts with an object, is converted.
pub proof fn law_ascii_delimiter_converts(
    source: Seq<char>,
    requested: Seq<Seq<char>>,
    config: ConversionConfig,
)
    requires
        (config.delimiter as u32) < 0x80,
    ensures
        converted(source, requested, config) is Ok <==> (parsed_json(source) is Ok && is_tabular(
            parsed_json(source)->Ok_0,
        )),
{
    if parsed_json(source) is Ok && is_tabular(parsed_json(source)->Ok_0) {
        let table = table_of(
            parsed_json(source)->Ok_0,
            requested,
            config.row_cap_for_preview as nat,
        );
        law_tables_are_rectangular(
            parsed_json(source)->Ok_0,
            requested,
            config.row_cap_for_preview as nat,
        );
        assert(fits_header(table.header, table.rows));
        crate::serializer::law_ascii_delimiter_gives_utf8(table.header, table.rows, config);
    }
}

/// Converts JSON text to a table and its CSV text.
///
/// Text that is not JSON gives `Parse` with the parser's description. A
/// document that is neither an object nor an array that starts with an
/// object gives `UnsupportedStructure`. Otherwise the result is the table
/// of the parsed document with its CSV text, or `Serialize` if the CSV bytes
/// are not UTF-8, as can only happen with a delimiter outside ASCII. An
/// error leaves nothing behind: no table and no partial text.
pub fn convert(source: &str, requested_columns: &Vec<String>, config: &ConversionConfig) -> (r:
    Result<Conversion, ConversionError>)
    ensures
        match r {
            Ok(conversion) => converted(source@, strings_view(requested_columns@), *config) == Ok::<
                (TableView, Seq<char>),
                ErrorView,
            >((conversion.table@, conversion.csv@)),
            Err(error) => converted(source@, strings_view(requested_columns@), *config) == Err::<
                (TableView, Seq<char>),
                ErrorView,
            >(error@),
        },
{
    match load(source) {
        Err(error) => Err(error),
        Ok(document) => {
            if !supports(&document) {
                return Err(ConversionError::UnsupportedStructure);
            }
            let table = tabularize(&document, requested_columns, config.row_cap_for_preview);
            match serialize(&table.header, &table.rows, config) {
                Ok(csv) => Ok(Conversion { table, csv }),
                Err(error) => Err(error),
            }
        },
    }
}

} // verus!
