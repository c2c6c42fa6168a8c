use vstd::prelude::*;
use vstd::string::StringSliceAdditionalSpecFns;
use vstd::utf8::{
    decode_utf8, encode_utf8, encode_utf8_decode_utf8, encode_utf8_valid_utf8, is_char_boundary,
    is_char_boundary_iff_not_is_continuation_byte, is_char_boundary_start_end_of_seq, valid_utf8,
    valid_utf8_split,
};

verus! {

/// An import occurrence found in a syntax tree, in the closed set of shapes
/// that the extractor recognises. Re-exports (`export ... from "x"`) are not
/// import occurrences and have no shape here.
#[derive(Clone, Debug)]
pub enum ImportNode {
    /// `import ... from "x"`: the decoded specifier literal, and the byte range
    /// `[start, end)` of the whole declaration in the file's source.
    Static { specifier: String, start: usize, end: usize },
    /// `import(...)`: the decoded value of the first argument when that
    /// argument is a string literal, `None` when it is anything else or absent.
    Dynamic { literal: Option<String> },
}

/// One import found in one file.
#[derive(Clone, Debug)]
pub struct ImportRecord {
    /// The path of the file the import was found in.
    pub file: String,
    /// The module specifier, as the string literal decodes.
    pub specifier: String,
    /// The exact source text of the import declaration, when it was asked for.
    pub raw_text: Option<String>,
    /// The position of this record among the records of its file.
    pub order: usize,
}

/// What an `ImportRecord` holds, as plain values.
pub struct RecordView {
    pub file: Seq<char>,
    pub specifier: Seq<char>,
    pub raw_text: Option<Seq<char>>,
    pub order: nat,
}

impl View for ImportRecord {
    type V = RecordView;

    open spec fn view(&self) -> RecordView {
        RecordView {
            file: self.file@,
            specifier: self.specifier@,
            raw_text: match self.raw_text {
                Some(t) => Some(t@),
                None => None,
            },
            order: self.order as nat,
        }
    }
}

/// What an `ImportNode` holds, as plain values.
pub enum NodeView {
    Static { specifier: Seq<char>, start: nat, end: nat },
    Dynamic { literal: Option<Seq<char>> },
}

impl View for ImportNode {
    type V = NodeView;

    open spec fn view(&self) -> NodeView {
        match self {
            ImportNode::Static { specifier, start, end } => NodeView::Static {
                specifier: specifier@,
                start: *start as nat,
                end: *end as nat,
            },
            ImportNode::Dynamic { literal } => NodeView::Dynamic {
                literal: match literal {
                    Some(l) => Some(l@),
                    None => None,
                },
            },
        }
    }
}

pub open spec fn nodes_view(nodes: Seq<ImportNode>) -> Seq<NodeView> {
    nodes.map_values(|n: ImportNode| n@)
}

pub open spec fn records_view(records: Seq<ImportRecord>) -> Seq<RecordView> {
    records.map_values(|r: ImportRecord| r@)
}

/// The specifier that a node contributes: always one for a static import,
/// one for a dynamic import only when its argument is a string literal.
pub open spec fn node_specifier(n: NodeView) -> Option<Seq<char>> {
    match n {
        NodeView::Static { specifier, .. } => Some(specifier),
        NodeView::Dynamic { literal } => literal,
    }
}

/// The source text between byte offsets `start` and `end`, when both fall on
/// character boundaries in order within the source.
pub open spec fn source_slice(source: Seq<char>, start: nat, end: nat) -> Option<Seq<char>> {
    let b = encode_utf8(source);
    if start <= end && end <= b.len() && is_char_boundary(b, start as int) && is_char_boundary(
        b,
        end as int,
    ) {
        Some(decode_utf8(b.subrange(start as int, end as int)))
    } else {
        None
    }
}

/// The raw text a node's record carries: the declaration's source text for a
/// static import when capture is on, nothing otherwise.
pub open spec fn node_raw_text(source: Seq<char>, n: NodeView, capture_raw: bool) -> Option<
    Seq<char>,
> {
    match n {
        NodeView::Static { start, end, .. } => if capture_raw {
            source_slice(source, start, end)
        } else {
            None
        },
        NodeView::Dynamic { .. } => None,
    }
}

/// The records that the nodes of one file yield, in node order, each
/// numbered by its position among them.
pub open spec fn spec_extract(
    file: Seq<char>,
    source: Seq<char>,
    nodes: Seq<NodeView>,
    capture_raw: bool,
) -> Seq<RecordView>
    decreases nodes.len(),
{
    if nodes.len() == 0 {
        Seq::empty()
    } else {
        let prev = spec_extract(file, source, nodes.drop_last(), capture_raw);
        let n = nodes.last();
        match node_specifier(n) {
            Some(s) => prev.push(
                RecordView {
                    file,
                    specifier: s,
                    raw_text: node_raw_text(source, n, capture_raw),
                    order: prev.len(),
                },
            ),
            None => prev,
        }
    }
}

/// A character boundary of a valid text stays one in any prefix that ends
/// on a boundary at or after it.
proof fn lemma_boundary_in_prefix(b: Seq<u8>, end: int, start: int)
    requires
        valid_utf8(b),
        0 <= start <= end <= b.len(),
        is_char_boundary(b, start),
        is_char_boundary(b, end),
    ensures
        valid_utf8(b.subrange(0, end)),
        is_char_boundary(b.subrange(0, end), start),
{
    valid_utf8_split(b, end);
    let p = b.subrange(0, end);
    if start == 0 {
    } else if start == end {
        is_char_boundary_start_end_of_seq(p);
    } else {
        is_char_boundary_iff_not_is_continuation_byte(b, start);
        is_char_boundary_iff_not_is_continuation_byte(p, start);
        assert(p[start] == b[start]);
    }
}

/// The source text of bytes `[start, end)`, or `None` where that range does
/// not lie on character boundaries within the source.
pub fn slice_source(source: &str, start: usize, end: usize) -> (r: Option<String>)
    ensures
        r matches Some(t) ==> source_slice(source@, start as nat, end as nat) == Some(t@),
        r is None ==> source_slice(source@, start as nat, end as nat) is None,
{
    proof {
        encode_utf8_valid_utf8(source@);
    }
    if start > end || !source.is_char_boundary(start) || !source.is_char_boundary(end) {
        return None;
    }
    let (head, _) = source.split_at(end);
    proof {
        assert(head.spec_bytes() =~= source.spec_bytes().subrange(0, end as int));
        assert(is_char_boundary(head.spec_bytes(), start as int)) by {
            lemma_boundary_in_prefix(source.spec_bytes(), end as int, start as int);
        }
    }
    let (_, mid) = head.split_at(start);
    let t = mid.to_owned();
    proof {
        encode_utf8_decode_utf8(t@);
        assert(mid.spec_bytes() =~= source.spec_bytes().subrange(start as int, end as int));
    }
    Some(t)
}

/// The record a node yields, numbered `order`: one for a static import, one
/// for a dynamic import with a literal argument, none for any other dynamic
/// import.
pub fn record_for(
    file: &String,
    source: &str,
    node: &ImportNode,
    capture_raw: bool,
    order: usize,
) -> (r: Option<ImportRecord>)
    ensures
        r is None <==> node_specifier(node@) is None,
        r matches Some(rec) ==> rec@ == (RecordView {
            file: file@,
            specifier: node_specifier(node@)->0,
            raw_text: node_raw_text(source@, node@, capture_raw),
            order: order as nat,
        }),
{
    match node {
        ImportNode::Static { specifier, start, end } => {
            let raw_text = if capture_raw {
                slice_source(source, *start, *end)
            } else {
                None
            };
            Some(ImportRecord { file: file.clone(), specifier: specifier.clone(), raw_text, order })
        },
        ImportNode::Dynamic { literal } => match literal {
            Some(l) => Some(
                ImportRecord { file: file.clone(), specifier: l.clone(), raw_text: None, order },
            ),
            None => None,
        },
    }
}

/// Extracts the import records of one parsed file from its import nodes,
/// listed in source order: one record per static import and per dynamic
/// import with a literal argument, in that order, numbered from zero. With
/// `capture_raw`, a static import's record carries the declaration's text.
pub fn extract(file: &String, source: &str, nodes: &Vec<ImportNode>, capture_raw: bool) -> (r: Vec<
    ImportRecord,
>)
    ensures
        records_view(r@) == spec_extract(file@, source@, nodes_view(nodes@), capture_raw),
{
    let mut out: Vec<ImportRecord> = Vec::new();
    let mut i: usize = 0;
    while i < nodes.len()
        invariant
            0 <= i <= nodes@.len(),
            out@.len() <= i,
            records_view(out@) == spec_extract(
                file@,
                source@,
                nodes_view(nodes@).subrange(0, i as int),
                capture_raw,
            ),
        decreases nodes@.len() - i,
    {
        let ghost prev = out@;
        let rec = record_for(file, source, &nodes[i], capture_raw, out.len());
        proof {
            assert(nodes_view(nodes@).subrange(0, i + 1).drop_last() =~= nodes_view(nodes@).subrange(
                0,
                i as int,
            ));
            assert(nodes_view(nodes@).subrange(0, i + 1).last() == nodes@[i as int]@);
            assert(records_view(prev).len() == prev.len());
        }
        match rec {
            Some(rec) => {
                out.push(rec);
                proof {
                    assert(records_view(out@) =~= records_view(prev).push(rec@));
                }
            },
            None => {},
        }
        i = i + 1;
    }
    proof {
        assert(nodes_view(nodes@).subrange(0, nodes@.len() as int) =~= nodes_view(nodes@));
    }
    out
}

/// A record as a host receives it: the file, and the import's text, which is
/// the captured declaration text where there is one and the specifier
/// otherwise.
#[derive(Clone, Debug)]
pub struct ImportResult {
    pub file: String,
    pub import_expr: String,
}

impl ImportRecord {
    /// The host-facing form of this record.
    pub fn to_result(&self) -> (r: ImportResult)
        ensures
            r.file@ == self.file@,
            r.import_expr@ == match self.raw_text {
                Some(t) => t@,
                None => self.specifier@,
            },
    {
        let import_expr = match &self.raw_text {
            Some(t) => t.clone(),
            None => self.specifier.clone(),
        };
        ImportResult { file: self.file.clone(), import_expr }
    }
}

} // verus!
