//! The tag extractor: a read-only projection of a fixed list of
//! attributes from each file of a batch into one record per file;
//! files that are not DICOM objects are silently omitted.

use crate::classify::{is_dicom, spec_is_dicom};
use crate::model::DicomFile;
use crate::tags::Tag;
use vstd::prelude::*;

verus! {

/// The fixed projection: the fifteen attributes extracted from each file.
pub open spec fn spec_extraction_tags() -> Seq<Tag> {
    seq![
        Tag { group: 0x0008, element: 0x0008 },
        Tag { group: 0x0008, element: 0x0012 },
        Tag { group: 0x0008, element: 0x0020 },
        Tag { group: 0x0008, element: 0x0021 },
        Tag { group: 0x0008, element: 0x0022 },
        Tag { group: 0x0008, element: 0x0023 },
        Tag { group: 0x0008, element: 0x0050 },
        Tag { group: 0x0008, element: 0x0060 },
        Tag { group: 0x0008, element: 0x1010 },
        Tag { group: 0x0010, element: 0x0010 },
        Tag { group: 0x0010, element: 0x0020 },
        Tag { group: 0x0010, element: 0x0030 },
        Tag { group: 0x0020, element: 0x000E },
        Tag { group: 0x0020, element: 0x0010 },
        Tag { group: 0x0020, element: 0x0013 },
    ]
}

/// The projection as executable data, in list order.
pub fn extraction_tags() -> (r: Vec<Tag>)
    ensures
        r@ == spec_extraction_tags(),
{
    let mut v: Vec<Tag> = Vec::new();
    v.push(Tag::new(0x0008, 0x0008));
    v.push(Tag::new(0x0008, 0x0012));
    v.push(Tag::new(0x0008, 0x0020));
    v.push(Tag::new(0x0008, 0x0021));
    v.push(Tag::new(0x0008, 0x0022));
    v.push(Tag::new(0x0008, 0x0023));
    v.push(Tag::new(0x0008, 0x0050));
    v.push(Tag::new(0x0008, 0x0060));
    v.push(Tag::new(0x0008, 0x1010));
    v.push(Tag::new(0x0010, 0x0010));
    v.push(Tag::new(0x0010, 0x0020));
    v.push(Tag::new(0x0010, 0x0030));
    v.push(Tag::new(0x0020, 0x000E));
    v.push(Tag::new(0x0020, 0x0010));
    v.push(Tag::new(0x0020, 0x0013));
    proof {
        assert(v@ =~= spec_extraction_tags());
    }
    v
}

/// One extracted record: the source path and, for each projected
/// attribute present in the file, its tag and value, in projection order.
pub struct ExtractionRecord {
    pub path: String,
    pub entries: Vec<(Tag, String)>,
}

/// The entries a file yields for a list of tags: one `(tag, value)` pair
/// for each listed tag the file holds, in list order; absent tags
/// contribute nothing.
pub open spec fn spec_record_entries(file: DicomFile, tags: Seq<Tag>) -> Seq<(Tag, Seq<char>)>
    decreases tags.len(),
{
    if tags.len() == 0 {
        Seq::empty()
    } else {
        spec_record_entries(file, tags.drop_last()) + if file.spec_has(tags.last()) {
            seq![(tags.last(), file.spec_value(tags.last()))]
        } else {
            Seq::empty()
        }
    }
}

/// The executable entries agree with the mathematical ones pairwise.
pub open spec fn entries_match(es: Seq<(Tag, String)>, ss: Seq<(Tag, Seq<char>)>) -> bool {
    es.len() == ss.len() && forall|i: int|
        0 <= i < es.len() ==> (#[trigger] es[i]).0 == ss[i].0 && es[i].1@ == ss[i].1
}

/// Every extracted entry names an attribute the file actually holds, with
/// the file's own value: extraction never invents a key for an absent
/// attribute.
pub proof fn lemma_entries_only_present(file: DicomFile, tags: Seq<Tag>)
    ensures
        forall|j: int|
            0 <= j < spec_record_entries(file, tags).len() ==> {
                let entry = #[trigger] spec_record_entries(file, tags)[j];
                file.spec_has(entry.0) && entry.1 == file.spec_value(entry.0)
            },
    decreases tags.len(),
{
    if tags.len() > 0 {
        lemma_entries_only_present(file, tags.drop_last());
        let whole = spec_record_entries(file, tags);
        let sub = spec_record_entries(file, tags.drop_last());
        assert forall|j: int| 0 <= j < whole.len() implies {
            let entry = #[trigger] whole[j];
            file.spec_has(entry.0) && entry.1 == file.spec_value(entry.0)
        } by {
            if j < sub.len() {
                assert(whole[j] == sub[j]);
            } else {
                assert(file.spec_has(tags.last()));
                assert(whole[j] == (tags.last(), file.spec_value(tags.last())));
            }
        }
    }
}

/// Projects the listed attributes of one file into a record carrying
/// `path`: one entry per attribute present, in projection order, and no
/// entry at all for an absent attribute.
pub fn extract_record(file: &DicomFile, path: String) -> (r: ExtractionRecord)
    requires
        file.wf(),
    ensures
        r.path == path,
        entries_match(r.entries@, spec_record_entries(*file, spec_extraction_tags())),
{
    let tags = extraction_tags();
    let n = tags.len();
    let mut entries: Vec<(Tag, String)> = Vec::new();
    let mut i: usize = 0;
    while i < n
        invariant
            i <= n,
            n == spec_extraction_tags().len(),
            tags@ == spec_extraction_tags(),
            file.wf(),
            entries_match(entries@, spec_record_entries(*file, tags@.take(i as int))),
        decreases n - i,
    {
        proof {
            assert(tags@.take(i as int + 1).drop_last() =~= tags@.take(i as int));
            assert(tags@.take(i as int + 1).last() == tags@[i as int]);
        }
        match file.element_value(tags[i]) {
            Some(v) => {
                entries.push((tags[i], v));
            },
            None => {
            },
        }
        i += 1;
    }
    proof {
        assert(tags@.take(n as int) =~= tags@);
    }
    ExtractionRecord { path, entries }
}

/// The records a batch yields: one per input that is a DICOM object, in
/// input order; other inputs yield nothing.
pub open spec fn spec_extract_outputs(inputs: Seq<(String, DicomFile)>) -> Seq<
    (Seq<char>, Seq<(Tag, Seq<char>)>),
>
    decreases inputs.len(),
{
    if inputs.len() == 0 {
        Seq::empty()
    } else {
        spec_extract_outputs(inputs.drop_last()) + if spec_is_dicom(inputs.last().1) {
            seq![
                (
                    inputs.last().0@,
                    spec_record_entries(inputs.last().1, spec_extraction_tags()),
                ),
            ]
        } else {
            Seq::empty()
        }
    }
}

/// How many inputs of a batch are DICOM objects.
pub open spec fn spec_dicom_input_count(inputs: Seq<(String, DicomFile)>) -> nat
    decreases inputs.len(),
{
    if inputs.len() == 0 {
        0
    } else {
        spec_dicom_input_count(inputs.drop_last()) + if spec_is_dicom(inputs.last().1) {
            1nat
        } else {
            0nat
        }
    }
}

/// Extraction yields exactly one record per DICOM input.
pub proof fn lemma_extract_counts_dicom_inputs(inputs: Seq<(String, DicomFile)>)
    ensures
        spec_extract_outputs(inputs).len() == spec_dicom_input_count(inputs),
    decreases inputs.len(),
{
    if inputs.len() > 0 {
        lemma_extract_counts_dicom_inputs(inputs.drop_last());
    }
}

/// The executable records agree with the mathematical outputs pairwise.
pub open spec fn records_match(
    rs: Seq<ExtractionRecord>,
    ss: Seq<(Seq<char>, Seq<(Tag, Seq<char>)>)>,
) -> bool {
    rs.len() == ss.len() && forall|i: int|
        0 <= i < rs.len() ==> (#[trigger] rs[i]).path@ == ss[i].0 && entries_match(
            rs[i].entries@,
            ss[i].1,
        )
}

/// Projects the listed attributes of every DICOM input into one record
/// per file, in input order.  Inputs that are not DICOM objects are
/// silently omitted; no input is ever changed.
pub fn extract_records(inputs: Vec<(String, DicomFile)>) -> (r: Vec<ExtractionRecord>)
    requires
        forall|i: int| 0 <= i < inputs@.len() ==> (#[trigger] inputs@[i]).1.wf(),
    ensures
        records_match(r@, spec_extract_outputs(inputs@)),
{
    let ghost orig = inputs@;
    let mut remaining = inputs;
    let mut out: Vec<ExtractionRecord> = Vec::new();
    let mut done: usize = 0;
    let n_total = remaining.len();
    proof {
        assert(orig.len() == n_total);
    }
    while remaining.len() > 0
        invariant
            orig.len() <= usize::MAX,
            done + remaining.len() == orig.len(),
            remaining@ =~= orig.skip(done as int),
            records_match(out@, spec_extract_outputs(orig.take(done as int))),
            forall|i: int| 0 <= i < remaining@.len() ==> (#[trigger] remaining@[i]).1.wf(),
        decreases remaining.len(),
    {
        let (path, file) = remaining.remove(0);
        proof {
            assert((path, file) == orig[done as int]);
            assert(orig.take(done as int + 1).drop_last() =~= orig.take(done as int));
            assert(orig.take(done as int + 1).last() == orig[done as int]);
            assert(remaining@ =~= orig.skip(done as int + 1));
        }
        if is_dicom(&file) {
            let rec = extract_record(&file, path);
            out.push(rec);
        }
        done += 1;
    }
    proof {
        assert(orig.take(done as int) =~= orig);
    }
    out
}

} // verus!
