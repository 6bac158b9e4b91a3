//! The tag rewriter: overwrites the fixed table of identifying attributes
//! with the derived pseudonymous values and deletes the fixed list of
//! identifying or free-text attributes outright.

use crate::identity::{DerivedIdentity, DerivedView};
use crate::model::DicomFile;
use crate::tags::{Element, Tag, Vr};
use vstd::prelude::*;

verus! {

/// The attributes the rewriter overwrites: each tag with its canonical
/// value representation and the derived value written into it.
pub open spec fn spec_replacements(id: DerivedView) -> Seq<(Tag, Vr, Seq<char>)> {
    seq![
        (Tag { group: 0x0008, element: 0x1010 }, Vr::Sh, id.station_name),
        (Tag { group: 0x0008, element: 0x0012 }, Vr::Da, id.new_study_date),
        (Tag { group: 0x0008, element: 0x0020 }, Vr::Da, id.new_study_date),
        (Tag { group: 0x0008, element: 0x0021 }, Vr::Da, id.new_study_date),
        (Tag { group: 0x0008, element: 0x0022 }, Vr::Da, id.new_study_date),
        (Tag { group: 0x0008, element: 0x0023 }, Vr::Da, id.new_study_date),
        (Tag { group: 0x0008, element: 0x0050 }, Vr::Sh, id.study_id),
        (Tag { group: 0x0010, element: 0x0010 }, Vr::Pn, id.patient_id),
        (Tag { group: 0x0010, element: 0x0020 }, Vr::Lo, id.patient_id),
        (Tag { group: 0x0010, element: 0x0030 }, Vr::Da, id.new_birth_date),
        (Tag { group: 0x0020, element: 0x0010 }, Vr::Sh, id.study_id),
    ]
}

/// The identifying and free-text attributes the rewriter deletes outright.
pub open spec fn spec_deleted_tags() -> Seq<Tag> {
    seq![
        Tag { group: 0x0008, element: 0x0080 },
        Tag { group: 0x0008, element: 0x0081 },
        Tag { group: 0x0008, element: 0x0090 },
        Tag { group: 0x0008, element: 0x0092 },
        Tag { group: 0x0008, element: 0x0094 },
        Tag { group: 0x0008, element: 0x1040 },
        Tag { group: 0x0008, element: 0x1048 },
        Tag { group: 0x0008, element: 0x1049 },
        Tag { group: 0x0008, element: 0x1050 },
        Tag { group: 0x0008, element: 0x1060 },
        Tag { group: 0x0008, element: 0x1070 },
        Tag { group: 0x0008, element: 0x1080 },
        Tag { group: 0x0010, element: 0x1000 },
        Tag { group: 0x0010, element: 0x1001 },
        Tag { group: 0x0010, element: 0x1090 },
        Tag { group: 0x0010, element: 0x2160 },
        Tag { group: 0x0010, element: 0x2180 },
        Tag { group: 0x0010, element: 0x21B0 },
        Tag { group: 0x0010, element: 0x4000 },
        Tag { group: 0x0032, element: 0x1032 },
        Tag { group: 0x0032, element: 0x1033 },
        Tag { group: 0x0032, element: 0x1060 },
        Tag { group: 0x0040, element: 0x0006 },
        Tag { group: 0x0040, element: 0x0241 },
        Tag { group: 0x0040, element: 0x0275 },
        Tag { group: 0x0040, element: 0x1001 },
        Tag { group: 0x0040, element: 0x2004 },
        Tag { group: 0x0040, element: 0xA730 },
    ]
}

/// `t` is one of the overwritten tags.
pub open spec fn is_replaced_tag(t: Tag) -> bool {
    exists|k: int| 0 <= k < 11 && (#[trigger] spec_replacements_tag(k)) == t
}

/// The tag in position `k` of the replacement table (the table's tags do
/// not depend on the derived values).
pub open spec fn spec_replacements_tag(k: int) -> Tag {
    spec_replacements(DerivedView {
        patient_id: arbitrary(),
        study_id: arbitrary(),
        new_study_date: arbitrary(),
        new_birth_date: arbitrary(),
        station_name: arbitrary(),
    })[k].0
}

/// `t` is one of the deleted tags.
pub open spec fn is_deleted_tag(t: Tag) -> bool {
    spec_deleted_tags().contains(t)
}

/// How a rewritten file relates to its previous state: every tabled
/// attribute carries its derived value, every listed attribute is gone,
/// and everything else is untouched.
pub open spec fn spec_rewritten(pre: DicomFile, post: DicomFile, id: DerivedView) -> bool {
    &&& post.wf()
    &&& forall|k: int|
        0 <= k < spec_replacements(id).len() ==> {
            let entry = #[trigger] spec_replacements(id)[k];
            post.spec_has(entry.0) && post.spec_vr(entry.0) == entry.1 && post.spec_value(entry.0)
                == entry.2
        }
    &&& forall|t: Tag| is_deleted_tag(t) ==> !(#[trigger] post.spec_has(t))
    &&& forall|t: Tag|
        !is_replaced_tag(t) && !is_deleted_tag(t) ==> (#[trigger] post.spec_has(t))
            == pre.spec_has(t) && (pre.spec_has(t) ==> post.spec_elem(t) == pre.spec_elem(t))
}

/// Overwrites the tabled attributes of `file` with the values of `id` and
/// deletes the listed identifying attributes.
#[verifier::rlimit(100)]
pub fn anonymize_elements(file: &mut DicomFile, id: &DerivedIdentity)
    requires
        old(file).wf(),
    ensures
        spec_rewritten(*old(file), *final(file), id@),
{
    file.put_element(
        Element { tag: Tag::new(0x0008, 0x1010), vr: Vr::Sh, value: id.station_name.clone() },
    );
    file.put_element(
        Element { tag: Tag::new(0x0008, 0x0012), vr: Vr::Da, value: id.new_study_date.clone() },
    );
    file.put_element(
        Element { tag: Tag::new(0x0008, 0x0020), vr: Vr::Da, value: id.new_study_date.clone() },
    );
    file.put_element(
        Element { tag: Tag::new(0x0008, 0x0021), vr: Vr::Da, value: id.new_study_date.clone() },
    );
    file.put_element(
        Element { tag: Tag::new(0x0008, 0x0022), vr: Vr::Da, value: id.new_study_date.clone() },
    );
    file.put_element(
        Element { tag: Tag::new(0x0008, 0x0023), vr: Vr::Da, value: id.new_study_date.clone() },
    );
    file.put_element(
        Element { tag: Tag::new(0x0008, 0x0050), vr: Vr::Sh, value: id.study_id.clone() },
    );
    file.put_element(
        Element { tag: Tag::new(0x0010, 0x0010), vr: Vr::Pn, value: id.patient_id.clone() },
    );
    file.put_element(
        Element { tag: Tag::new(0x0010, 0x0020), vr: Vr::Lo, value: id.patient_id.clone() },
    );
    file.put_element(
        Element { tag: Tag::new(0x0010, 0x0030), vr: Vr::Da, value: id.new_birth_date.clone() },
    );
    file.put_element(
        Element { tag: Tag::new(0x0020, 0x0010), vr: Vr::Sh, value: id.study_id.clone() },
    );
    file.remove_element(Tag::new(0x0008, 0x0080));
    file.remove_element(Tag::new(0x0008, 0x0081));
    file.remove_element(Tag::new(0x0008, 0x0090));
    file.remove_element(Tag::new(0x0008, 0x0092));
    file.remove_element(Tag::new(0x0008, 0x0094));
    file.remove_element(Tag::new(0x0008, 0x1040));
    file.remove_element(Tag::new(0x0008, 0x1048));
    file.remove_element(Tag::new(0x0008, 0x1049));
    file.remove_element(Tag::new(0x0008, 0x1050));
    file.remove_element(Tag::new(0x0008, 0x1060));
    file.remove_element(Tag::new(0x0008, 0x1070));
    file.remove_element(Tag::new(0x0008, 0x1080));
    file.remove_element(Tag::new(0x0010, 0x1000));
    file.remove_element(Tag::new(0x0010, 0x1001));
    file.remove_element(Tag::new(0x0010, 0x1090));
    file.remove_element(Tag::new(0x0010, 0x2160));
    file.remove_element(Tag::new(0x0010, 0x2180));
    file.remove_element(Tag::new(0x0010, 0x21B0));
    file.remove_element(Tag::new(0x0010, 0x4000));
    file.remove_element(Tag::new(0x0032, 0x1032));
    file.remove_element(Tag::new(0x0032, 0x1033));
    file.remove_element(Tag::new(0x0032, 0x1060));
    file.remove_element(Tag::new(0x0040, 0x0006));
    file.remove_element(Tag::new(0x0040, 0x0241));
    file.remove_element(Tag::new(0x0040, 0x0275));
    file.remove_element(Tag::new(0x0040, 0x1001));
    file.remove_element(Tag::new(0x0040, 0x2004));
    file.remove_element(Tag::new(0x0040, 0xA730));
    proof {
        let pre = *old(file);
        let post = *file;
        assert forall|t: Tag| !is_replaced_tag(t) && !is_deleted_tag(t) implies (#[trigger] post.spec_has(t))
            == pre.spec_has(t) && (pre.spec_has(t) ==> post.spec_elem(t) == pre.spec_elem(t)) by {
            assert(spec_replacements_tag(0) != t);
            assert(spec_replacements_tag(1) != t);
            assert(spec_replacements_tag(2) != t);
            assert(spec_replacements_tag(3) != t);
            assert(spec_replacements_tag(4) != t);
            assert(spec_replacements_tag(5) != t);
            assert(spec_replacements_tag(6) != t);
            assert(spec_replacements_tag(7) != t);
            assert(spec_replacements_tag(8) != t);
            assert(spec_replacements_tag(9) != t);
            assert(spec_replacements_tag(10) != t);
            assert forall|j: int| 0 <= j < spec_deleted_tags().len() implies spec_deleted_tags()[j]
                != t by {
                assert(!spec_deleted_tags().contains(t));
            }
            assert(spec_deleted_tags()[0] != t);
            assert(spec_deleted_tags()[1] != t);
            assert(spec_deleted_tags()[2] != t);
            assert(spec_deleted_tags()[3] != t);
            assert(spec_deleted_tags()[4] != t);
            assert(spec_deleted_tags()[5] != t);
            assert(spec_deleted_tags()[6] != t);
            assert(spec_deleted_tags()[7] != t);
            assert(spec_deleted_tags()[8] != t);
            assert(spec_deleted_tags()[9] != t);
            assert(spec_deleted_tags()[10] != t);
            assert(spec_deleted_tags()[11] != t);
            assert(spec_deleted_tags()[12] != t);
            assert(spec_deleted_tags()[13] != t);
            assert(spec_deleted_tags()[14] != t);
            assert(spec_deleted_tags()[15] != t);
            assert(spec_deleted_tags()[16] != t);
            assert(spec_deleted_tags()[17] != t);
            assert(spec_deleted_tags()[18] != t);
            assert(spec_deleted_tags()[19] != t);
            assert(spec_deleted_tags()[20] != t);
            assert(spec_deleted_tags()[21] != t);
            assert(spec_deleted_tags()[22] != t);
            assert(spec_deleted_tags()[23] != t);
            assert(spec_deleted_tags()[24] != t);
            assert(spec_deleted_tags()[25] != t);
            assert(spec_deleted_tags()[26] != t);
        }
    }
}

/// The replacement table as executable data: one element per overwritten
/// attribute, in table order, carrying the derived values of `id`.
pub fn replacement_elements(id: &DerivedIdentity) -> (r: Vec<Element>)
    ensures
        r@.len() == spec_replacements(id@).len(),
        forall|k: int|
            0 <= k < r@.len() ==> {
                let e = #[trigger] r@[k];
                e.tag == spec_replacements(id@)[k].0 && e.vr == spec_replacements(id@)[k].1
                    && e.value@ == spec_replacements(id@)[k].2
            },
{
    let mut v: Vec<Element> = Vec::new();
    v.push(Element { tag: Tag::new(0x0008, 0x1010), vr: Vr::Sh, value: id.station_name.clone() });
    v.push(Element { tag: Tag::new(0x0008, 0x0012), vr: Vr::Da, value: id.new_study_date.clone() });
    v.push(Element { tag: Tag::new(0x0008, 0x0020), vr: Vr::Da, value: id.new_study_date.clone() });
    v.push(Element { tag: Tag::new(0x0008, 0x0021), vr: Vr::Da, value: id.new_study_date.clone() });
    v.push(Element { tag: Tag::new(0x0008, 0x0022), vr: Vr::Da, value: id.new_study_date.clone() });
    v.push(Element { tag: Tag::new(0x0008, 0x0023), vr: Vr::Da, value: id.new_study_date.clone() });
    v.push(Element { tag: Tag::new(0x0008, 0x0050), vr: Vr::Sh, value: id.study_id.clone() });
    v.push(Element { tag: Tag::new(0x0010, 0x0010), vr: Vr::Pn, value: id.patient_id.clone() });
    v.push(Element { tag: Tag::new(0x0010, 0x0020), vr: Vr::Lo, value: id.patient_id.clone() });
    v.push(Element { tag: Tag::new(0x0010, 0x0030), vr: Vr::Da, value: id.new_birth_date.clone() });
    v.push(Element { tag: Tag::new(0x0020, 0x0010), vr: Vr::Sh, value: id.study_id.clone() });
    v
}

/// The deletion list as executable data, in list order.
pub fn deletion_tags() -> (r: Vec<Tag>)
    ensures
        r@ == spec_deleted_tags(),
{
    let mut v: Vec<Tag> = Vec::new();
    v.push(Tag::new(0x0008, 0x0080));
    v.push(Tag::new(0x0008, 0x0081));
    v.push(Tag::new(0x0008, 0x0090));
    v.push(Tag::new(0x0008, 0x0092));
    v.push(Tag::new(0x0008, 0x0094));
    v.push(Tag::new(0x0008, 0x1040));
    v.push(Tag::new(0x0008, 0x1048));
    v.push(Tag::new(0x0008, 0x1049));
    v.push(Tag::new(0x0008, 0x1050));
    v.push(Tag::new(0x0008, 0x1060));
    v.push(Tag::new(0x0008, 0x1070));
    v.push(Tag::new(0x0008, 0x1080));
    v.push(Tag::new(0x0010, 0x1000));
    v.push(Tag::new(0x0010, 0x1001));
    v.push(Tag::new(0x0010, 0x1090));
    v.push(Tag::new(0x0010, 0x2160));
    v.push(Tag::new(0x0010, 0x2180));
    v.push(Tag::new(0x0010, 0x21B0));
    v.push(Tag::new(0x0010, 0x4000));
    v.push(Tag::new(0x0032, 0x1032));
    v.push(Tag::new(0x0032, 0x1033));
    v.push(Tag::new(0x0032, 0x1060));
    v.push(Tag::new(0x0040, 0x0006));
    v.push(Tag::new(0x0040, 0x0241));
    v.push(Tag::new(0x0040, 0x0275));
    v.push(Tag::new(0x0040, 0x1001));
    v.push(Tag::new(0x0040, 0x2004));
    v.push(Tag::new(0x0040, 0xA730));
    proof {
        assert(v@ =~= spec_deleted_tags());
    }
    v
}

} // verus!
