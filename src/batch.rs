use vstd::prelude::*;

use crate::visitor::{
    extract, nodes_view, records_view, spec_extract, ImportNode, ImportRecord, NodeView, RecordView,
};

verus! {

/// How far one file got through reading and parsing.
#[derive(Clone, Debug)]
pub enum FileOutcome {
    /// The file could not be read or decoded as text.
    ReadFailed,
    /// The text is not valid under the file's dialect.
    ParseFailed,
    /// The file parsed; `nodes` are its import nodes in source order.
    Parsed { source: String, nodes: Vec<ImportNode> },
}

/// One file of a batch, with what reading and parsing it gave.
#[derive(Clone, Debug)]
pub struct FileInput {
    pub path: String,
    pub outcome: FileOutcome,
}

/// How a batch hands out its records.
#[derive(Clone, Copy, Debug, PartialEq, Eq, Structural)]
pub enum Delivery {
    /// Each record goes to a sink as soon as its file has been visited.
    Incremental,
    /// All records come back together once every file is done.
    Aggregate,
}

pub enum OutcomeView {
    ReadFailed,
    ParseFailed,
    Parsed { source: Seq<char>, nodes: Seq<NodeView> },
}

pub struct FileView {
    pub path: Seq<char>,
    pub outcome: OutcomeView,
}

impl View for FileInput {
    type V = FileView;

    open spec fn view(&self) -> FileView {
        FileView {
            path: self.path@,
            outcome: match &self.outcome {
                FileOutcome::ReadFailed => OutcomeView::ReadFailed,
                FileOutcome::ParseFailed => OutcomeView::ParseFailed,
                FileOutcome::Parsed { source, nodes } => OutcomeView::Parsed {
                    source: source@,
                    nodes: nodes_view(nodes@),
                },
            },
        }
    }
}

pub open spec fn files_view(files: Seq<FileInput>) -> Seq<FileView> {
    files.map_values(|f: FileInput| f@)
}

/// The records one file yields: those of its import nodes when it parsed,
/// none when it could not be read or parsed.
pub open spec fn spec_file_records(f: FileView, capture_raw: bool) -> Seq<RecordView> {
    match f.outcome {
        OutcomeView::Parsed { source, nodes } => spec_extract(f.path, source, nodes, capture_raw),
        _ => Seq::empty(),
    }
}

/// The records of a batch: each file's records, one file after another.
pub open spec fn spec_batch(files: Seq<FileView>, capture_raw: bool) -> Seq<RecordView>
    decreases files.len(),
{
    if files.len() == 0 {
        Seq::empty()
    } else {
        spec_batch(files.drop_last(), capture_raw) + spec_file_records(files.last(), capture_raw)
    }
}

/// The records of one file, for either delivery: none where the file failed
/// to read or parse.
pub fn file_records(input: &FileInput, capture_raw: bool) -> (r: Vec<ImportRecord>)
    ensures
        records_view(r@) == spec_file_records(input@, capture_raw),
{
    match &input.outcome {
        FileOutcome::Parsed { source, nodes } => extract(&input.path, source.as_str(), nodes, capture_raw),
        _ => {
            let r: Vec<ImportRecord> = Vec::new();
            assert(records_view(r@) =~= Seq::empty());
            r
        },
    }
}

/// Gathers the records of every file of a batch into one collection, each
/// file's records together and in source order, files in the order given.
pub fn run_aggregate(files: &Vec<FileInput>, capture_raw: bool) -> (r: Vec<ImportRecord>)
    ensures
        records_view(r@) == spec_batch(files_view(files@), capture_raw),
{
    let mut out: Vec<ImportRecord> = Vec::new();
    let mut i: usize = 0;
    while i < files.len()
        invariant
            0 <= i <= files@.len(),
            records_view(out@) == spec_batch(files_view(files@).subrange(0, i as int), capture_raw),
        decreases files@.len() - i,
    {
        let ghost prev = out@;
        let mut recs = file_records(&files[i], capture_raw);
        let ghost part = recs@;
        out.append(&mut recs);
        proof {
            assert(files_view(files@).subrange(0, i + 1).drop_last() =~= files_view(files@).subrange(
                0,
                i as int,
            ));
            assert(files_view(files@).subrange(0, i + 1).last() == files@[i as int]@);
            assert(records_view(out@) =~= records_view(prev) + records_view(part));
        }
        i = i + 1;
    }
    proof {
        assert(files_view(files@).subrange(0, files@.len() as int) =~= files_view(files@));
    }
    out
}

} // verus!
