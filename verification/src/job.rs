//! One conversion from JSON text to CSV text, in steps.
//!
//! A [`ConversionJob`] runs loader, tabularizer and serializer in sequence.
//! Each call of [`ConversionJob::advance`] does one piece of work and leaves
//! a progress record that says what comes next, so that whoever drives the
//! job can show the record between two steps. A job is consistent at every
//! moment: [`is_consistent`] is an invariant of the type. The first error ends the
//! job: no later step does any work, and no CSV text is produced.

use crate::config::ConversionConfig;
use crate::error::{ConversionError, ErrorView};
use crate::json::{load, parsed_json, strings_view, JsonDocument, JsonTree};
use crate::progress::{
    completed_view, converting_view, failed_view, finalizing_view, law_row_permille_is_monotonic,
    parsing_view, started_view, ConversionProgress, ProgressView, AT_FINALIZING, AT_PARSING,
};
use crate::conversion::converted;
use crate::serializer::{is_csv_text, serialize, serialized};
use crate::table::{
    empty_table, is_tabular, item_count, items_of, lemma_table_through_all,
    lemma_table_through_next, lemma_table_through_none, supports, table_of, table_through, Table,
    TableView,
};
use vstd::prelude::*;
use vstd::utf8::*;

verus! {

/// What the next step of a job will do, or how the job ended.
#[derive(Debug, Clone, Copy, PartialEq, Eq)]
pub enum JobStage {
    /// Nothing has been done yet.
    Pending,
    /// The next step parses the source.
    Parsing,
    /// The next step converts one element of the document.
    Converting,
    /// The next step renders the table as CSV text.
    Finalizing,
    /// The job has produced its CSV text.
    Done,
    /// The job has stopped on an error.
    Failed,
}

/// One conversion: its inputs, how far it has come and what it has
/// produced.
pub struct ConversionJob {
    source: String,
    requested_columns: Vec<String>,
    config: ConversionConfig,
    stage: JobStage,
    document: Option<JsonDocument>,
    done: usize,
    table: Table,
    csv: Option<String>,
    failure: Option<ConversionError>,
    progress: ConversionProgress,
}

/// A job as a mathematical value.
pub struct JobView {
    pub source: Seq<char>,
    pub requested: Seq<Seq<char>>,
    pub config: ConversionConfig,
    pub stage: JobStage,
    /// The parsed document, once there is one.
    pub document: Option<JsonTree>,
    /// How many elements of the document have been converted.
    pub done: nat,
    pub table: TableView,
    /// The CSV text, once the job is done.
    pub csv: Option<Seq<char>>,
    /// The error, once the job has failed.
    pub failure: Option<ErrorView>,
    pub progress: ProgressView,
}

impl View for ConversionJob {
    type V = JobView;

    closed spec fn view(&self) -> JobView {
        JobView {
            source: self.source@,
            requested: strings_view(self.requested_columns@),
            config: self.config,
            stage: self.stage,
            document: match self.document {
                Some(document) => Some(document@),
                None => None,
            },
            done: self.done as nat,
            table: self.table@,
            csv: match self.csv {
                Some(text) => Some(text@),
                None => None,
            },
            failure: match self.failure {
                Some(error) => Some(error@),
                None => None,
            },
            progress: self.progress@,
        }
    }
}

/// The cap on the preview that a job's settings give.
pub open spec fn cap_of(job: JobView) -> nat {
    job.config.row_cap_for_preview as nat
}

/// Whether a job has ended, in success or failure.
pub open spec fn is_over(job: JobView) -> bool {
    job.stage == JobStage::Done || job.stage == JobStage::Failed
}

/// Whether the job holds the document that its source parses to, and that
/// document can be tabularized.
pub open spec fn holds_document(job: JobView) -> bool {
    &&& job.document is Some
    &&& parsed_json(job.source) == Ok::<JsonTree, Seq<char>>(job.document->Some_0)
    &&& is_tabular(job.document->Some_0)
}

/// Whether the job holds no document and no table: nothing has been parsed
/// yet, or the source did not give a document that can be tabularized.
pub open spec fn holds_nothing(job: JobView) -> bool {
    &&& job.document is None
    &&& job.done == 0
    &&& job.table == empty_table()
}

/// What holds of a job at every moment: each stage fixes what the job
/// holds and what its progress record says. A job that failed before it had
/// a table holds the empty table; one that failed in serializing holds the
/// document's table.
pub open spec fn is_consistent(job: JobView) -> bool {
    match job.stage {
        JobStage::Pending => {
            &&& job.document is None
            &&& job.done == 0
            &&& job.table == empty_table()
            &&& job.csv is None
            &&& job.failure is None
            &&& job.progress == started_view()
        },
        JobStage::Parsing => {
            &&& job.document is None
            &&& job.done == 0
            &&& job.table == empty_table()
            &&& job.csv is None
            &&& job.failure is None
            &&& job.progress == parsing_view()
        },
        JobStage::Converting => {
            &&& holds_document(job)
            &&& job.done < items_of(job.document->Some_0).len()
            &&& job.table == table_through(
                job.document->Some_0,
                job.requested,
                cap_of(job),
                job.done,
            )
            &&& job.csv is None
            &&& job.failure is None
            &&& job.progress == converting_view(job.done, items_of(job.document->Some_0).len())
        },
        JobStage::Finalizing => {
            &&& holds_document(job)
            &&& job.done == items_of(job.document->Some_0).len()
            &&& job.table == table_of(job.document->Some_0, job.requested, cap_of(job))
            &&& job.csv is None
            &&& job.failure is None
            &&& job.progress == finalizing_view()
        },
        JobStage::Done => {
            &&& holds_document(job)
            &&& job.done == items_of(job.document->Some_0).len()
            &&& job.table == table_of(job.document->Some_0, job.requested, cap_of(job))
            &&& job.csv is Some
            &&& serialized(job.table.header, job.table.rows, job.config) == Ok::<
                Seq<char>,
                ErrorView,
            >(job.csv->Some_0)
            &&& job.failure is None
            &&& job.progress == completed_view()
        },
        JobStage::Failed => {
            &&& job.csv is None
            &&& job.failure is Some
            &&& match job.failure->Some_0 {
                ErrorView::Parse(reason) => {
                    &&& parsed_json(job.source) == Err::<JsonTree, Seq<char>>(reason)
                    &&& holds_nothing(job)
                    &&& job.progress == failed_view(AT_PARSING as int, job.failure->Some_0)
                },
                ErrorView::UnsupportedStructure => {
                    &&& parsed_json(job.source) is Ok
                    &&& !is_tabular(parsed_json(job.source)->Ok_0)
                    &&& holds_nothing(job)
                    &&& job.progress == failed_view(AT_PARSING as int, job.failure->Some_0)
                },
                ErrorView::Serialize => {
                    &&& holds_document(job)
                    &&& job.done == items_of(job.document->Some_0).len()
                    &&& job.table == table_of(job.document->Some_0, job.requested, cap_of(job))
                    &&& serialized(job.table.header, job.table.rows, job.config) is Err
                    &&& job.progress == failed_view(AT_FINALIZING as int, job.failure->Some_0)
                },
            }
        },
    }
}

/// Whether `after` is what one step makes of `before`.
///
/// Together with consistency this fixes the whole of `after`: a step has
/// one outcome.
pub open spec fn follows(before: JobView, after: JobView) -> bool {
    &&& after.source == before.source
    &&& after.requested == before.requested
    &&& after.config == before.config
    &&& match before.stage {
        JobStage::Pending => after.stage == JobStage::Parsing,
        JobStage::Parsing => match parsed_json(before.source) {
            Ok(tree) => {
                if !is_tabular(tree) {
                    &&& after.stage == JobStage::Failed
                    &&& after.failure == Some(ErrorView::UnsupportedStructure)
                    &&& after.progress.permille == before.progress.permille
                } else {
                    &&& after.stage == JobStage::Converting
                    &&& after.done == 0
                }
            },
            Err(reason) => {
                &&& after.stage == JobStage::Failed
                &&& after.failure == Some(ErrorView::Parse(reason))
                &&& after.progress.permille == before.progress.permille
            },
        },
        JobStage::Converting => {
            &&& after.document == before.document
            &&& after.done == before.done + 1
            &&& after.stage == if after.done < items_of(before.document->Some_0).len() {
                JobStage::Converting
            } else {
                JobStage::Finalizing
            }
        },
        JobStage::Finalizing => {
            &&& after.document == before.document
            &&& after.table == before.table
            &&& match serialized(before.table.header, before.table.rows, before.config) {
                Ok(text) => after.stage == JobStage::Done && after.csv == Some(text),
                Err(error) => {
                    &&& after.stage == JobStage::Failed
                    &&& after.failure == Some(error)
                    &&& after.progress.permille == before.progress.permille
                },
            }
        },
        JobStage::Done => after == before,
        JobStage::Failed => after == before,
    }
}

/// An upper bound on the steps that a job still takes.
pub open spec fn steps_left(job: JobView) -> nat {
    let count = match parsed_json(job.source) {
        Ok(tree) => items_of(tree).len(),
        Err(_) => 0,
    };
    match job.stage {
        JobStage::Pending => count + 3,
        JobStage::Parsing => count + 2,
        JobStage::Converting => ((count - job.done) + 1) as nat,
        JobStage::Finalizing => 1,
        JobStage::Done => 0,
        JobStage::Failed => 0,
    }
}

/// The fraction complete never runs backwards from one step to the next,
/// and the job is marked as running exactly until it has ended.
pub proof fn law_progress_is_monotonic(before: JobView, after: JobView)
    requires
        is_consistent(before),
        is_consistent(after),
        follows(before, after),
    ensures
        before.progress.permille <= after.progress.permille,
        0 <= after.progress.permille <= 1000,
        after.progress.in_progress == !is_over(after),
{
    match before.stage {
        JobStage::Parsing => {
            if after.stage == JobStage::Converting {
                law_row_permille_is_monotonic(0, 0, items_of(after.document->Some_0).len());
            }
        },
        JobStage::Converting => {
            let total = items_of(before.document->Some_0).len();
            law_row_permille_is_monotonic(before.done, after.done, total);
        },
        _ => {},
    }
    if after.stage == JobStage::Converting {
        law_row_permille_is_monotonic(
            after.done,
            after.done,
            items_of(after.document->Some_0).len(),
        );
    }
}

/// Every step of a job that has not ended brings it closer to its end.
pub proof fn law_steps_run_out(before: JobView, after: JobView)
    requires
        is_consistent(before),
        is_consistent(after),
        follows(before, after),
        !is_over(before),
    ensures
        steps_left(after) < steps_left(before),
{
}

/// A job that is done holds the table of the document that its source
/// parses to, and the CSV text of that table's header and rows.
pub proof fn law_done_job_holds_the_conversion(job: JobView)
    requires
        is_consistent(job),
        job.stage == JobStage::Done,
    ensures
        parsed_json(job.source) is Ok,
        job.table == table_of(parsed_json(job.source)->Ok_0, job.requested, cap_of(job)),
        job.csv is Some,
        is_csv_text(job.csv->Some_0, job.table.header, job.table.rows, job.config),
        job.progress == completed_view(),
{
    decode_utf8_encode_utf8(
        crate::serializer::csv_bytes(job.table.header, job.table.rows, job.config),
    );
}

/// A job that has ended has done what one call of `convert` does: it is done
/// with the same table and text, or it has failed with the same error. So
/// the outcome of a job is a function of its source, its requested columns
/// and its settings.
pub proof fn law_finished_job_is_the_conversion(job: JobView)
    requires
        is_consistent(job),
        is_over(job),
    ensures
        match converted(job.source, job.requested, job.config) {
            Ok(produced) => {
                &&& job.stage == JobStage::Done
                &&& job.table == produced.0
                &&& job.csv == Some(produced.1)
                &&& job.progress == completed_view()
            },
            Err(error) => {
                &&& job.stage == JobStage::Failed
                &&& job.failure == Some(error)
                &&& job.csv is None
                &&& job.progress.status == crate::error::message_of(error)
                &&& !job.progress.in_progress
            },
        },
{
}

/// A job that has failed has produced no CSV text; its status is the text
/// of its error, and it is no longer marked as running.
pub proof fn law_failed_job_has_no_output(job: JobView)
    requires
        is_consistent(job),
        job.stage == JobStage::Failed,
    ensures
        job.csv is None,
        job.failure is Some,
        job.progress.status == crate::error::message_of(job.failure->Some_0),
        !job.progress.in_progress,
{
}

impl ConversionJob {
    /// Every job is consistent, whoever holds it.
    #[verifier::type_invariant]
    closed spec fn is_sound(&self) -> bool {
        is_consistent(self@)
    }

    /// A job that is yet to start: nothing parsed, nothing produced.
    pub fn new(source: String, requested_columns: Vec<String>, config: ConversionConfig) -> (job:
        ConversionJob)
        ensures
            is_consistent(job@),
            job@.stage == JobStage::Pending,
            job@.source == source@,
            job@.requested == strings_view(requested_columns@),
            job@.config == config,
    {
        let table = Table::empty();
        let progress = ConversionProgress::started();
        ConversionJob {
            source,
            requested_columns,
            config,
            stage: JobStage::Pending,
            document: None,
            done: 0,
            table,
            csv: None,
            failure: None,
            progress,
        }
    }

    pub fn stage(&self) -> (stage: JobStage)
        ensures
            stage == self@.stage,
            is_consistent(self@),
    {
        proof {
            use_type_invariant(self);
        }
        self.stage
    }

    /// Whether the job has ended, in success or failure.
    pub fn is_finished(&self) -> (finished: bool)
        ensures
            finished == is_over(self@),
            is_consistent(self@),
    {
        proof {
            use_type_invariant(self);
        }
        match self.stage {
            JobStage::Done => true,
            JobStage::Failed => true,
            _ => false,
        }
    }

    /// The progress record, as the last step left it.
    pub fn progress(&self) -> (progress: &ConversionProgress)
        ensures
            progress@ == self@.progress,
    {
        &self.progress
    }

    /// The table as far as it has been built.
    pub fn table(&self) -> (table: &Table)
        ensures
            table@ == self@.table,
    {
        &self.table
    }

    /// The CSV text, if the job is done.
    pub fn csv(&self) -> (csv: Option<&String>)
        ensures
            match csv {
                Some(text) => self@.csv == Some(text@),
                None => self@.csv is None,
            },
    {
        self.csv.as_ref()
    }

    /// The error, if the job has failed.
    pub fn failure(&self) -> (failure: Option<&ConversionError>)
        ensures
            match failure {
                Some(error) => self@.failure == Some(error@),
                None => self@.failure is None,
            },
    {
        self.failure.as_ref()
    }

    /// Does the next piece of work and gives the job back. A job that has
    /// ended is given back as it is.
    pub fn advance(self) -> (next: ConversionJob)
        ensures
            is_consistent(self@),
            is_consistent(next@),
            follows(self@, next@),
    {
        proof {
            use_type_invariant(&self);
        }
        let ghost before = self@;
        let ConversionJob {
            source,
            requested_columns,
            config,
            stage,
            document,
            done,
            table,
            csv,
            failure,
            progress,
        } = self;
        match stage {
            JobStage::Pending => {
                let progress = ConversionProgress::parsing();
                ConversionJob {
                    source,
                    requested_columns,
                    config,
                    stage: JobStage::Parsing,
                    document,
                    done,
                    table,
                    csv,
                    failure,
                    progress,
                }
            },
            JobStage::Parsing => {
                match load(source.as_str()) {
                    Ok(parsed) => {
                        if supports(&parsed) {
                            let count = item_count(&parsed);
                            let table = Table::begin(&parsed, &requested_columns);
                            let progress = ConversionProgress::converting(0, count);
                            proof {
                                lemma_table_through_none(
                                    parsed@,
                                    before.requested,
                                    cap_of(before),
                                );
                            }
                            ConversionJob {
                                source,
                                requested_columns,
                                config,
                                stage: JobStage::Converting,
                                document: Some(parsed),
                                done: 0,
                                table,
                                csv,
                                failure,
                                progress,
                            }
                        } else {
                            let error = ConversionError::UnsupportedStructure;
                            let progress = progress.failed(&error);
                            ConversionJob {
                                source,
                                requested_columns,
                                config,
                                stage: JobStage::Failed,
                                document,
                                done,
                                table,
                                csv,
                                failure: Some(error),
                                progress,
                            }
                        }
                    },
                    Err(error) => {
                        let progress = progress.failed(&error);
                        ConversionJob {
                            source,
                            requested_columns,
                            config,
                            stage: JobStage::Failed,
                            document,
                            done,
                            table,
                            csv,
                            failure: Some(error),
                            progress,
                        }
                    },
                }
            },
            JobStage::Converting => {
                match document {
                    Some(parsed) => {
                        let count = item_count(&parsed);
                        proof {
                            lemma_table_through_next(
                                parsed@,
                                before.requested,
                                cap_of(before),
                                before.done,
                            );
                            lemma_table_through_all(parsed@, before.requested, cap_of(before));
                        }
                        let mut table = table;
                        table.add_item(&parsed, done, config.row_cap_for_preview);
                        let done = done + 1;
                        if done < count {
                            let progress = ConversionProgress::converting(done, count);
                            ConversionJob {
                                source,
                                requested_columns,
                                config,
                                stage: JobStage::Converting,
                                document: Some(parsed),
                                done,
                                table,
                                csv,
                                failure,
                                progress,
                            }
                        } else {
                            let progress = ConversionProgress::finalizing();
                            ConversionJob {
                                source,
                                requested_columns,
                                config,
                                stage: JobStage::Finalizing,
                                document: Some(parsed),
                                done,
                                table,
                                csv,
                                failure,
                                progress,
                            }
                        }
                    },
                    // A converting job always holds its document.
                    None => ConversionJob {
                        source,
                        requested_columns,
                        config,
                        stage,
                        document: None,
                        done,
                        table,
                        csv,
                        failure,
                        progress,
                    },
                }
            },
            JobStage::Finalizing => {
                match serialize(&table.header, &table.rows, &config) {
                    Ok(text) => {
                        let progress = ConversionProgress::completed();
                        ConversionJob {
                            source,
                            requested_columns,
                            config,
                            stage: JobStage::Done,
                            document,
                            done,
                            table,
                            csv: Some(text),
                            failure,
                            progress,
                        }
                    },
                    Err(error) => {
                        let progress = progress.failed(&error);
                        ConversionJob {
                            source,
                            requested_columns,
                            config,
                            stage: JobStage::Failed,
                            document,
                            done,
                            table,
                            csv,
                            failure: Some(error),
                            progress,
                        }
                    },
                }
            },
            JobStage::Done => ConversionJob {
                source,
                requested_columns,
                config,
                stage,
                document,
                done,
                table,
                csv,
                failure,
                progress,
            },
            JobStage::Failed => ConversionJob {
                source,
                requested_columns,
                config,
                stage,
                document,
                done,
                table,
                csv,
                failure,
                progress,
            },
        }
    }

    /// Takes every step that is left and gives the finished job back.
    pub fn run(self) -> (finished: ConversionJob)
        ensures
            is_consistent(finished@),
            is_over(finished@),
            finished@.source == self@.source,
            finished@.requested == self@.requested,
            finished@.config == self@.config,
            is_over(self@) ==> finished@ == self@,
            match converted(self@.source, self@.requested, self@.config) {
                Ok(produced) => {
                    &&& finished@.stage == JobStage::Done
                    &&& finished@.table == produced.0
                    &&& finished@.csv == Some(produced.1)
                },
                Err(error) => finished@.stage == JobStage::Failed && finished@.failure == Some(
                    error,
                ),
            },
    {
        let ghost given = self@;
        let mut job = self;
        while !job.is_finished()
            invariant
                job@.source == given.source,
                job@.requested == given.requested,
                job@.config == given.config,
                is_over(given) ==> job@ == given,
            decreases steps_left(job@),
        {
            let ghost before = job@;
            job = job.advance();
            proof {
                law_steps_run_out(before, job@);
            }
        }
        proof {
            law_finished_job_is_the_conversion(job@);
        }
        job
    }
}

} // verus!
