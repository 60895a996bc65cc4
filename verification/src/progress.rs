//! How far a conversion has come.
//!
//! The fraction complete is held in thousandths, so that it is exact:
//! 0 at the start, 200 when parsing begins, 400 when converting begins, from
//! there up to 900 in proportion to the elements converted, 900 when
//! finalizing begins and 1000 when the conversion is done. A failure keeps
//! the fraction where it was and puts the error's text in the status.

use crate::error::{message_of, ConversionError, ErrorView};
use vstd::arithmetic::div_mod::{lemma_div_is_ordered, lemma_div_multiples_vanish};
use vstd::prelude::*;
use vstd::string::*;

verus! {

/// The whole, in thousandths.
pub const WHOLE: u16 = 1000;

/// The fraction at which parsing begins.
pub const AT_PARSING: u16 = 200;

/// The fraction at which converting begins.
pub const AT_CONVERTING: u16 = 400;

/// The fraction at which finalizing begins.
pub const AT_FINALIZING: u16 = 900;

/// Status, fraction complete and activity of a conversion.
#[derive(Debug, Clone, PartialEq, Eq)]
pub struct ConversionProgress {
    /// What the conversion is doing, or how it ended.
    pub status: String,
    /// The fraction complete, in thousandths.
    pub permille: u16,
    /// Whether the conversion is still running.
    pub in_progress: bool,
}

/// A progress record as a mathematical value.
pub struct ProgressView {
    pub status: Seq<char>,
    pub permille: int,
    pub in_progress: bool,
}

impl View for ConversionProgress {
    type V = ProgressView;

    open spec fn view(&self) -> ProgressView {
        ProgressView {
            status: self.status@,
            permille: self.permille as int,
            in_progress: self.in_progress,
        }
    }
}

/// The fraction, in thousandths, once `processed` of `total` elements are
/// converted: 400 plus the share of 500 that has been earned, rounded down.
/// With nothing to convert, or nothing left, it is 900.
pub open spec fn row_permille_of(processed: nat, total: nat) -> int {
    if total == 0 || processed >= total {
        AT_FINALIZING as int
    } else {
        AT_CONVERTING + (500 * (processed as int)) / (total as int)
    }
}

/// The record of a conversion that has not been started.
pub open spec fn idle_view() -> ProgressView {
    ProgressView { status: Seq::empty(), permille: 0, in_progress: false }
}

/// The record at the start of a conversion.
pub open spec fn started_view() -> ProgressView {
    ProgressView { status: "Starting conversion..."@, permille: 0, in_progress: true }
}

/// The record when parsing begins.
pub open spec fn parsing_view() -> ProgressView {
    ProgressView { status: "Parsing JSON..."@, permille: AT_PARSING as int, in_progress: true }
}

/// The record while elements are converted.
pub open spec fn converting_view(processed: nat, total: nat) -> ProgressView {
    ProgressView {
        status: "Converting to CSV..."@,
        permille: row_permille_of(processed, total),
        in_progress: true,
    }
}

/// The record when finalizing begins.
pub open spec fn finalizing_view() -> ProgressView {
    ProgressView { status: "Finalizing..."@, permille: AT_FINALIZING as int, in_progress: true }
}

/// The record of a conversion that succeeded.
pub open spec fn completed_view() -> ProgressView {
    ProgressView {
        status: "Conversion completed successfully"@,
        permille: WHOLE as int,
        in_progress: false,
    }
}

/// The record of a conversion that failed when it had come to `permille`.
pub open spec fn failed_view(permille: int, error: ErrorView) -> ProgressView {
    ProgressView { status: message_of(error), permille, in_progress: false }
}

/// The fraction never runs backwards while elements are converted, and stays
/// between the fraction at which converting begins and the one at which
/// finalizing begins.
pub proof fn law_row_permille_is_monotonic(processed: nat, later: nat, total: nat)
    requires
        processed <= later,
    ensures
        AT_CONVERTING <= row_permille_of(processed, total) <= row_permille_of(later, total)
            <= AT_FINALIZING,
        row_permille_of(0, total) == if total == 0 {
            AT_FINALIZING as int
        } else {
            AT_CONVERTING as int
        },
        later >= total ==> row_permille_of(later, total) == AT_FINALIZING,
{
    if total > 0 {
        let t = total as int;
        let p = processed as int;
        let q = later as int;
        lemma_div_multiples_vanish(500, t);
        assert((500 * t) / t == 500) by {
            assert(500 * t == t * 500) by (nonlinear_arith);
        }
        if processed < total {
            lemma_div_is_ordered(0, 500 * p, t);
            lemma_div_is_ordered(500 * p, 500 * t, t);
            assert(0int / t == 0) by {
                lemma_div_multiples_vanish(0, t);
                assert(t * 0 == 0) by (nonlinear_arith);
            }
        }
        if later < total {
            lemma_div_is_ordered(500 * p, 500 * q, t);
            lemma_div_is_ordered(500 * q, 500 * t, t);
        }
    }
}

/// The milestones come in order: start, parsing, converting, finalizing,
/// done.
pub proof fn law_milestones_are_ordered(processed: nat, total: nat)
    ensures
        started_view().permille <= parsing_view().permille <= converting_view(
            processed,
            total,
        ).permille <= finalizing_view().permille <= completed_view().permille,
        completed_view().permille == WHOLE,
{
    law_row_permille_is_monotonic(processed, processed, total);
}

/// The fraction, in thousandths, once `processed` of `total` elements are
/// converted.
pub fn row_permille(processed: usize, total: usize) -> (permille: u16)
    ensures
        permille == row_permille_of(processed as nat, total as nat),
        AT_CONVERTING <= permille <= AT_FINALIZING,
{
    proof {
        law_row_permille_is_monotonic(processed as nat, processed as nat, total as nat);
    }
    if total == 0 || processed >= total {
        AT_FINALIZING
    } else {
        let earned: u128 = (500u128 * (processed as u128)) / (total as u128);
        AT_CONVERTING + (earned as u16)
    }
}

impl ConversionProgress {
    /// The record of a conversion that has not been started.
    pub fn idle() -> (progress: ConversionProgress)
        ensures
            progress@ == idle_view(),
    {
        ConversionProgress { status: String::new(), permille: 0, in_progress: false }
    }

    /// The record at the start of a conversion.
    pub fn started() -> (progress: ConversionProgress)
        ensures
            progress@ == started_view(),
    {
        ConversionProgress {
            status: String::from_str("Starting conversion..."),
            permille: 0,
            in_progress: true,
        }
    }

    /// The record when parsing begins.
    pub fn parsing() -> (progress: ConversionProgress)
        ensures
            progress@ == parsing_view(),
    {
        ConversionProgress {
            status: String::from_str("Parsing JSON..."),
            permille: AT_PARSING,
            in_progress: true,
        }
    }

    /// The record once `processed` of `total` elements are converted.
    pub fn converting(processed: usize, total: usize) -> (progress: ConversionProgress)
        ensures
            progress@ == converting_view(processed as nat, total as nat),
    {
        ConversionProgress {
            status: String::from_str("Converting to CSV..."),
            permille: row_permille(processed, total),
            in_progress: true,
        }
    }

    /// The record when finalizing begins.
    pub fn finalizing() -> (progress: ConversionProgress)
        ensures
            progress@ == finalizing_view(),
    {
        ConversionProgress {
            status: String::from_str("Finalizing..."),
            permille: AT_FINALIZING,
            in_progress: true,
        }
    }

    /// The record of a conversion that succeeded.
    pub fn completed() -> (progress: ConversionProgress)
        ensures
            progress@ == completed_view(),
    {
        ConversionProgress {
            status: String::from_str("Conversion completed successfully"),
            permille: WHOLE,
            in_progress: false,
        }
    }

    /// The record after `error` stopped the conversion at this point: the
    /// status is the error's text, the fraction stays, and the conversion is
    /// no longer running.
    pub fn failed(&self, error: &ConversionError) -> (progress: ConversionProgress)
        ensures
            progress@ == failed_view(self@.permille, error@),
    {
        ConversionProgress { status: error.message(), permille: self.permille, in_progress: false }
    }
}

} // verus!
