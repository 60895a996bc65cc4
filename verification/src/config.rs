//! The settings of one conversion.

use vstd::prelude::*;
use vstd::utf8::*;

verus! {

/// When the serializer puts a field in quotes.
#[derive(Debug, Clone, Copy, PartialEq, Eq)]
pub enum QuotePolicy {
    /// A field is quoted when it holds the delimiter, a quote or a line
    /// break.
    WhenNeeded,
    /// No field is quoted, whatever it holds.
    Never,
}

/// The settings of one conversion. They do not change while it runs.
#[derive(Debug, Clone, Copy, PartialEq, Eq)]
pub struct ConversionConfig {
    /// The character between two fields of a record.
    pub delimiter: char,
    pub quote_policy: QuotePolicy,
    /// Whether the header is written as the first record.
    pub include_header: bool,
    /// How many leading elements of an array may show in the preview.
    pub row_cap_for_preview: usize,
}

/// The settings in use when nothing else is chosen.
pub open spec fn default_config() -> ConversionConfig {
    ConversionConfig {
        delimiter: ',',
        quote_policy: QuotePolicy::WhenNeeded,
        include_header: true,
        row_cap_for_preview: 100,
    }
}

impl Default for ConversionConfig {
    fn default() -> (config: ConversionConfig)
        ensures
            config == default_config(),
    {
        ConversionConfig {
            delimiter: ',',
            quote_policy: QuotePolicy::WhenNeeded,
            include_header: true,
            row_cap_for_preview: 100,
        }
    }
}

/// The policy that the "quote fields" switch stands for.
pub open spec fn policy_of(quote_fields: bool) -> QuotePolicy {
    if quote_fields {
        QuotePolicy::WhenNeeded
    } else {
        QuotePolicy::Never
    }
}

impl QuotePolicy {
    /// The policy for a "quote fields" switch: on quotes where needed, off
    /// never quotes.
    pub fn from_switch(quote_fields: bool) -> (policy: QuotePolicy)
        ensures
            policy == policy_of(quote_fields),
    {
        if quote_fields {
            QuotePolicy::WhenNeeded
        } else {
            QuotePolicy::Never
        }
    }
}

/// The byte that separates fields: the first byte of the delimiter's UTF-8
/// form. For an ASCII delimiter that is the character itself.
pub open spec fn delimiter_byte_of(delimiter: char) -> u8 {
    encode_scalar(delimiter as u32)[0]
}

proof fn lemma_leading_bytes(scalar: u32)
    by (bit_vector)
    ensures
        scalar < 0x80 ==> (scalar & 0x7F) == scalar,
        ((scalar >> 6) & 0x1F) < 0x20,
        ((scalar >> 12) & 0x0F) < 0x10,
        ((scalar >> 18) & 0x07) < 0x08,
{
}

impl ConversionConfig {
    /// The byte that separates the fields of a record.
    pub fn delimiter_byte(&self) -> (byte: u8)
        ensures
            byte == delimiter_byte_of(self.delimiter),
            (self.delimiter as u32) < 0x80 ==> byte == self.delimiter as u32,
    {
        let scalar = self.delimiter as u32;
        proof {
            lemma_leading_bytes(scalar);
            char_is_scalar(self.delimiter);
        }
        if scalar < 0x80 {
            scalar as u8
        } else if scalar < 0x800 {
            0xC0u8 | (((scalar >> 6) & 0x1F) as u8)
        } else if scalar < 0x10000 {
            0xE0u8 | (((scalar >> 12) & 0x0F) as u8)
        } else {
            0xF0u8 | (((scalar >> 18) & 0x07) as u8)
        }
    }
}

} // verus!
