use vstd::prelude::*;
use vstd::multiset::Multiset;
use vstd::seq_lib::{lemma_multiset_commutative, to_multiset_remove};

use crate::batch::{spec_batch, spec_file_records, FileView, OutcomeView};
use crate::visitor::{node_raw_text, spec_extract, NodeView, RecordView};

verus! {

/// What an incremental sink receives over a batch, whatever the interleaving
/// of files: every record of every file, as a multiset.
pub open spec fn spec_delivered(files: Seq<FileView>, capture_raw: bool) -> Multiset<RecordView>
    decreases files.len(),
{
    if files.len() == 0 {
        Multiset::empty()
    } else {
        spec_delivered(files.drop_last(), capture_raw).add(
            spec_file_records(files.last(), capture_raw).to_multiset(),
        )
    }
}

/// Static imports come out in source order: for a file whose import nodes
/// are all static declarations, the k-th record carries the k-th
/// declaration's specifier and is numbered k.
pub proof fn lemma_static_order(
    file: Seq<char>,
    source: Seq<char>,
    nodes: Seq<NodeView>,
    capture_raw: bool,
)
    requires
        forall|i: int| 0 <= i < nodes.len() ==> #[trigger] nodes[i] is Static,
    ensures
        spec_extract(file, source, nodes, capture_raw).len() == nodes.len(),
        forall|k: int|
            0 <= k < nodes.len() ==> {
                let r = #[trigger] spec_extract(file, source, nodes, capture_raw)[k];
                &&& r.specifier == nodes[k]->Static_specifier
                &&& r.order == k
            },
    decreases nodes.len(),
{
    if nodes.len() > 0 {
        let prefix = nodes.drop_last();
        assert forall|i: int| 0 <= i < prefix.len() implies #[trigger] prefix[i] is Static by {
            assert(prefix[i] == nodes[i]);
        }
        lemma_static_order(file, source, prefix, capture_raw);
        assert(nodes[nodes.len() - 1] is Static);
        assert forall|k: int| 0 <= k < nodes.len() - 1 implies nodes[k] == prefix[k] by {}
    }
}

/// A dynamic import yields a record exactly when its argument is a string
/// literal, and then with that literal as specifier and no raw text; any
/// other dynamic import yields nothing.
pub proof fn lemma_dynamic_literal_only(
    file: Seq<char>,
    source: Seq<char>,
    nodes: Seq<NodeView>,
    literal: Option<Seq<char>>,
    capture_raw: bool,
)
    ensures
        ({
            let before = spec_extract(file, source, nodes, capture_raw);
            let after = spec_extract(
                file,
                source,
                nodes.push(NodeView::Dynamic { literal }),
                capture_raw,
            );
            match literal {
                Some(s) => after == before.push(
                    RecordView { file, specifier: s, raw_text: None, order: before.len() },
                ),
                None => after == before,
            }
        }),
{
    let n = NodeView::Dynamic { literal };
    assert(nodes.push(n).drop_last() =~= nodes);
    assert(node_raw_text(source, n, capture_raw) is None);
}

/// The records of two batches placed one after the other are those of the
/// first followed by those of the second.
pub proof fn lemma_batch_concat(a: Seq<FileView>, b: Seq<FileView>, capture_raw: bool)
    ensures
        spec_batch(a + b, capture_raw) == spec_batch(a, capture_raw) + spec_batch(b, capture_raw),
    decreases b.len(),
{
    if b.len() == 0 {
        assert(a + b =~= a);
        assert(spec_batch(a, capture_raw) + spec_batch(b, capture_raw) =~= spec_batch(a, capture_raw));
    } else {
        assert((a + b).drop_last() =~= a + b.drop_last());
        assert((a + b).last() == b.last());
        lemma_batch_concat(a, b.drop_last(), capture_raw);
        assert(spec_batch(a + b, capture_raw) =~= spec_batch(a, capture_raw) + spec_batch(
            b,
            capture_raw,
        ));
    }
}

/// A file that could not be read or parsed, placed anywhere in a batch,
/// changes nothing: the batch yields exactly what the other files yield.
pub proof fn lemma_isolation(files: Seq<FileView>, i: int, failed: FileView, capture_raw: bool)
    requires
        0 <= i <= files.len(),
        !(failed.outcome is Parsed),
    ensures
        spec_batch(files.insert(i, failed), capture_raw) == spec_batch(files, capture_raw),
{
    let a = files.subrange(0, i);
    let b = files.subrange(i, files.len() as int);
    assert(files.insert(i, failed) =~= (a + seq![failed]) + b);
    assert(files =~= a + b);
    lemma_batch_concat(a + seq![failed], b, capture_raw);
    lemma_batch_concat(a, seq![failed], capture_raw);
    lemma_batch_concat(a, b, capture_raw);
    assert(seq![failed].drop_last() =~= Seq::<FileView>::empty());
    assert(seq![failed].last() == failed);
    assert(spec_batch(Seq::<FileView>::empty(), capture_raw) =~= Seq::<RecordView>::empty());
    assert(spec_file_records(failed, capture_raw) =~= Seq::<RecordView>::empty());
    assert(spec_batch(seq![failed], capture_raw) =~= Seq::<RecordView>::empty());
    assert(spec_batch(a, capture_raw) + Seq::<RecordView>::empty() =~= spec_batch(a, capture_raw));
}

/// Both delivery modes hand out the same records: the aggregate collection
/// holds, as a multiset, exactly what an incremental sink receives.
pub proof fn lemma_modes_agree(files: Seq<FileView>, capture_raw: bool)
    ensures
        spec_batch(files, capture_raw).to_multiset() == spec_delivered(files, capture_raw),
    decreases files.len(),
{
    broadcast use vstd::seq_lib::group_to_multiset_ensures;

    if files.len() == 0 {
        assert(spec_batch(files, capture_raw).to_multiset() =~= Multiset::empty());
    } else {
        lemma_modes_agree(files.drop_last(), capture_raw);
        lemma_multiset_commutative(
            spec_batch(files.drop_last(), capture_raw),
            spec_file_records(files.last(), capture_raw),
        );
    }
}

/// Taking one file out of a batch takes exactly its records out of what the
/// batch delivers.
proof fn lemma_delivered_remove(files: Seq<FileView>, j: int, capture_raw: bool)
    requires
        0 <= j < files.len(),
    ensures
        spec_delivered(files, capture_raw) == spec_delivered(files.remove(j), capture_raw).add(
            spec_file_records(files[j], capture_raw).to_multiset(),
        ),
    decreases files.len(),
{
    let last = files.len() - 1;
    if j == last {
        assert(files.remove(j) =~= files.drop_last());
    } else {
        let rest = files.drop_last();
        lemma_delivered_remove(rest, j, capture_raw);
        assert(files.remove(j).drop_last() =~= rest.remove(j));
        assert(files.remove(j).last() == files.last());
        let m_rest = spec_delivered(rest.remove(j), capture_raw);
        let m_j = spec_file_records(files[j], capture_raw).to_multiset();
        let m_last = spec_file_records(files.last(), capture_raw).to_multiset();
        assert(m_rest.add(m_j).add(m_last) =~= m_rest.add(m_last).add(m_j));
    }
}

/// Running a batch again over the same files, whatever order they complete
/// in, yields the same records up to the order between files.
pub proof fn lemma_rerun_same_records(a: Seq<FileView>, b: Seq<FileView>, capture_raw: bool)
    requires
        a.to_multiset() == b.to_multiset(),
    ensures
        spec_batch(a, capture_raw).to_multiset() == spec_batch(b, capture_raw).to_multiset(),
    decreases a.len(),
{
    lemma_modes_agree(a, capture_raw);
    lemma_modes_agree(b, capture_raw);
    lemma_delivered_permutation(a, b, capture_raw);
}

proof fn lemma_delivered_permutation(a: Seq<FileView>, b: Seq<FileView>, capture_raw: bool)
    requires
        a.to_multiset() == b.to_multiset(),
    ensures
        spec_delivered(a, capture_raw) == spec_delivered(b, capture_raw),
    decreases a.len(),
{
    broadcast use vstd::seq_lib::group_to_multiset_ensures;

    if a.len() == 0 {
        assert(b.to_multiset().len() == 0);
        assert(b.len() == 0);
    } else {
        let x = a.last();
        assert(a.drop_last().push(x) =~= a);
        assert(a.to_multiset().count(x) > 0);
        assert(b.contains(x));
        let j = choose|j: int| 0 <= j < b.len() && b[j] == x;
        to_multiset_remove(b, j);
        assert(a.drop_last().to_multiset() =~= b.remove(j).to_multiset());
        lemma_delivered_permutation(a.drop_last(), b.remove(j), capture_raw);
        lemma_delivered_remove(b, j, capture_raw);
    }
}

} // verus!
