//! Classification of candidate files: an object is processable exactly
//! when its classification attribute (image type, group 0x0008, element
//! 0x0008) is present and non-empty.  Callers that fail to open a file at
//! all treat it as rejected before this test is ever consulted.

use crate::model::DicomFile;
use crate::tags::Tag;
use vstd::prelude::*;
use vstd::string::StrSliceExecFns;

verus! {

/// The classification attribute every processable object must carry.
pub open spec fn spec_image_type_tag() -> Tag {
    Tag { group: 0x0008, element: 0x0008 }
}

/// A processable DICOM object: the classification attribute is present
/// with a non-empty value.
pub open spec fn spec_is_dicom(file: DicomFile) -> bool {
    file.spec_value_or_empty(spec_image_type_tag()).len() > 0
}

/// Decides whether `file` is a processable DICOM object: true exactly
/// when the classification attribute is present and non-empty, false when
/// it is absent or empty.
pub fn is_dicom(file: &DicomFile) -> (r: bool)
    requires
        file.wf(),
    ensures
        r == spec_is_dicom(*file),
{
    let v = file.element_value_or_empty(Tag::new(0x0008, 0x0008));
    v.as_str().unicode_len() > 0
}

} // verus!
