//! Per-file anonymization over the in-memory model, and the batch count:
//! how many of a collection of files anonymize successfully.
//!
//! The caller owns all input and output: it opens each candidate into a
//! `DicomFile`, injects the station name, and serializes the rewritten
//! attributes back out.  A file on which any check fails is handed back
//! untouched and not counted.

use crate::error::AnonymizeError;
use crate::classify::{is_dicom, spec_is_dicom};
use crate::identity::{derive_identity, spec_derive_err, spec_derived_of, DerivedIdentity,
    IdentitySeed, SeedView};
use crate::model::DicomFile;
use crate::rewrite::{anonymize_elements, spec_rewritten};
use crate::tags::Tag;
use crate::text::{dec_value, is_digit_seq};
use vstd::prelude::*;

verus! {

/// The seed values one file yields: the five source attributes, each
/// empty when absent.
pub open spec fn spec_seed_of(file: DicomFile) -> SeedView {
    SeedView {
        serial_number: file.spec_value_or_empty(Tag { group: 0x0018, element: 0x1000 }),
        study_date: file.spec_value_or_empty(Tag { group: 0x0008, element: 0x0020 }),
        study_time: file.spec_value_or_empty(Tag { group: 0x0008, element: 0x0030 }),
        study_uid: file.spec_value_or_empty(Tag { group: 0x0020, element: 0x000D }),
        birth_date: file.spec_value_or_empty(Tag { group: 0x0010, element: 0x0030 }),
    }
}

/// The error one file's anonymization reports, or `None` when it
/// succeeds: the classification test first, then the identity derivation.
pub open spec fn spec_anonymize_err(file: DicomFile) -> Option<AnonymizeError> {
    if !spec_is_dicom(file) {
        Some(AnonymizeError::NotDicom)
    } else {
        spec_derive_err(spec_seed_of(file))
    }
}

/// Anonymizes one file in place: tests that it is a DICOM object, derives the identity
/// from the file's own attributes and the injected `station_name`, and
/// rewrites the identifying attributes.  On any failure the file is
/// returned exactly as it was.
pub fn anonymize_file(file: &mut DicomFile, station_name: &str) -> (r: Result<
    DerivedIdentity,
    AnonymizeError,
>)
    requires
        old(file).wf(),
    ensures
        final(file).wf(),
        match r {
            Ok(id) => {
                &&& spec_anonymize_err(*old(file)) is None
                &&& id@ == spec_derived_of(spec_seed_of(*old(file)), station_name@)
                &&& spec_rewritten(*old(file), *final(file), id@)
            },
            Err(e) => spec_anonymize_err(*old(file)) == Some(e) && *final(file) == *old(file),
        },
{
    if !is_dicom(file) {
        return Err(AnonymizeError::NotDicom);
    }
    let seed = IdentitySeed {
        serial_number: file.element_value_or_empty(Tag::new(0x0018, 0x1000)),
        study_date: file.element_value_or_empty(Tag::new(0x0008, 0x0020)),
        study_time: file.element_value_or_empty(Tag::new(0x0008, 0x0030)),
        study_uid: file.element_value_or_empty(Tag::new(0x0020, 0x000D)),
        birth_date: file.element_value_or_empty(Tag::new(0x0010, 0x0030)),
    };
    proof {
        assert(seed@ == spec_seed_of(*file));
    }
    let id = match derive_identity(&seed, station_name) {
        Ok(id) => id,
        Err(e) => {
            return Err(e);
        },
    };
    anonymize_elements(file, &id);
    Ok(id)
}

/// The instance-number attribute of `file` is a non-empty digit string
/// whose value fits an unsigned 32-bit integer, so an output file name
/// can be built for it.
pub open spec fn spec_instance_ok(file: DicomFile) -> bool {
    let inst = file.spec_value_or_empty(Tag { group: 0x0020, element: 0x0013 });
    inst.len() > 0 && is_digit_seq(inst) && dec_value(inst) <= u32::MAX
}

/// One file counts as anonymized under the naming convention: every
/// anonymization check passes and its instance number yields a file name.
pub open spec fn spec_file_anonymizable(file: DicomFile) -> bool {
    spec_anonymize_err(file) is None && spec_instance_ok(file)
}

/// How many files of the collection count as anonymized.
pub open spec fn spec_success_count(files: Seq<DicomFile>) -> nat
    decreases files.len(),
{
    if files.len() == 0 {
        0
    } else {
        spec_success_count(files.drop_last()) + if spec_file_anonymizable(files.last()) {
            1nat
        } else {
            0nat
        }
    }
}

/// How one file of a processed batch relates to its previous state:
/// untouched when a check failed, rewritten with its own derived values
/// otherwise.
pub open spec fn spec_processed(pre: DicomFile, post: DicomFile, host: Seq<char>) -> bool {
    match spec_anonymize_err(pre) {
        Some(_) => post == pre,
        None => spec_rewritten(pre, post, spec_derived_of(spec_seed_of(pre), host)),
    }
}

/// Anonymizes every file of the batch in place under the naming
/// convention, and returns how many anonymized successfully.  Files that
/// fail a check are kept unchanged and not counted; no failure stops the
/// batch.
pub fn anonymize_all(files: &mut Vec<DicomFile>, station_name: &str) -> (count: usize)
    requires
        forall|i: int| 0 <= i < old(files)@.len() ==> (#[trigger] old(files)@[i]).wf(),
    ensures
        count == spec_success_count(old(files)@),
        final(files)@.len() == old(files)@.len(),
        forall|i: int|
            0 <= i < old(files)@.len() ==> spec_processed(
                old(files)@[i],
                #[trigger] final(files)@[i],
                station_name@,
            ),
{
    let ghost orig = files@;
    let n_total = files.len();
    proof {
        assert(orig.len() == n_total);
    }
    let mut remaining: Vec<DicomFile> = Vec::new();
    core::mem::swap(files, &mut remaining);
    let mut count: usize = 0;
    let mut done: usize = 0;
    while remaining.len() > 0
        invariant
            orig.len() <= usize::MAX,
            done == orig.len() - remaining.len(),
            done + remaining.len() == orig.len(),
            files@.len() == done,
            remaining@ =~= orig.skip(done as int),
            count == spec_success_count(orig.take(done as int)),
            count <= done,
            forall|i: int| 0 <= i < remaining@.len() ==> (#[trigger] remaining@[i]).wf(),
            forall|i: int|
                0 <= i < done ==> spec_processed(orig[i], #[trigger] files@[i], station_name@),
        decreases remaining.len(),
    {
        let mut f = remaining.remove(0);
        proof {
            assert(f == orig[done as int]);
        }
        let inst = f.element_value_or_empty(Tag::new(0x0020, 0x0013));
        let inst_ok = crate::text::parse_decimal(inst.as_str(), u32::MAX as u64).is_some();
        let r = anonymize_file(&mut f, station_name);
        let ok = r.is_ok() && inst_ok;
        if ok {
            count += 1;
        }
        files.push(f);
        proof {
            assert(orig.take(done as int + 1).drop_last() =~= orig.take(done as int));
            assert(orig.take(done as int + 1).last() == orig[done as int]);
            assert(remaining@ =~= orig.skip(done as int + 1));
        }
        done += 1;
    }
    proof {
        assert(orig.take(done as int) =~= orig);
    }
    count
}

} // verus!
