use dicom_anon::error::AnonymizeError;
use dicom_anon::extract::{extract_record, extract_records, extraction_tags};
use dicom_anon::model::DicomFile;
use dicom_anon::naming::{build_output_path, format_instance_number};
use dicom_anon::tags::{Element, Tag, Vr};

fn put(f: &mut DicomFile, group: u16, element: u16, value: &str) {
    f.put_element(Element { tag: Tag::new(group, element), vr: Vr::Lo, value: value.to_string() });
}

#[test]
fn instance_number_is_zero_padded() {
    assert_eq!(format_instance_number("7").unwrap(), "00007");
    assert_eq!(format_instance_number("00042").unwrap(), "00042");
    assert_eq!(format_instance_number("123456").unwrap(), "123456");
    assert_eq!(format_instance_number("0").unwrap(), "00000");
}

#[test]
fn instance_number_rejects_non_numbers() {
    assert_eq!(format_instance_number("seven").unwrap_err(), AnonymizeError::InvalidInstanceNumber);
    assert_eq!(format_instance_number("").unwrap_err(), AnonymizeError::InvalidInstanceNumber);
    assert_eq!(format_instance_number("-3").unwrap_err(), AnonymizeError::InvalidInstanceNumber);
    // one past the largest unsigned 32-bit value
    assert_eq!(
        format_instance_number("4294967296").unwrap_err(),
        AnonymizeError::InvalidInstanceNumber
    );
    assert_eq!(format_instance_number("4294967295").unwrap(), "4294967295");
}

#[test]
fn output_path_follows_naming_convention() {
    let p = build_output_path("/out", true, "11F71", "2A63", "1C8", "MR", "MR", "00007");
    assert_eq!(p, "/out/11F71/2A63/1C8/MR_MR_00007.dcm");
}

#[test]
fn output_path_without_convention_is_base() {
    let p = build_output_path("/out/target.dcm", false, "", "", "", "", "", "");
    assert_eq!(p, "/out/target.dcm");
}

#[test]
fn extraction_skips_absent_tags() {
    let mut f = DicomFile::new();
    put(&mut f, 0x0008, 0x0008, "ORIGINAL/PRIMARY/MR");
    put(&mut f, 0x0008, 0x0060, "MR");
    put(&mut f, 0x0010, 0x0020, "PATIENT7");
    // an attribute outside the projection is never extracted
    put(&mut f, 0x0008, 0x0080, "Some Hospital");
    let rec = extract_record(&f, "/data/a.dcm".to_string());
    assert_eq!(rec.path, "/data/a.dcm");
    let keys: Vec<Tag> = rec.entries.iter().map(|e| e.0).collect();
    assert_eq!(
        keys,
        vec![Tag::new(0x0008, 0x0008), Tag::new(0x0008, 0x0060), Tag::new(0x0010, 0x0020)]
    );
    for (tag, value) in &rec.entries {
        assert_eq!(f.element_value(*tag).unwrap(), *value);
    }
}

#[test]
fn extraction_covers_all_projected_tags() {
    let mut f = DicomFile::new();
    let tags = extraction_tags();
    for (k, tag) in tags.iter().enumerate() {
        f.put_element(Element { tag: *tag, vr: Vr::Lo, value: format!("v{}", k) });
    }
    let rec = extract_record(&f, "p".to_string());
    assert_eq!(rec.entries.len(), tags.len());
    for (k, (tag, value)) in rec.entries.iter().enumerate() {
        assert_eq!(*tag, tags[k]);
        assert_eq!(*value, format!("v{}", k));
    }
}

#[test]
fn batch_extraction_omits_non_dicom_inputs() {
    let mut a = DicomFile::new();
    put(&mut a, 0x0008, 0x0008, "ORIGINAL/PRIMARY/CT");
    put(&mut a, 0x0008, 0x0060, "CT");
    let not_dicom = DicomFile::new();
    let mut empty_class = DicomFile::new();
    put(&mut empty_class, 0x0008, 0x0008, "");
    let mut b = DicomFile::new();
    put(&mut b, 0x0008, 0x0008, "ORIGINAL/PRIMARY/MR");
    let inputs = vec![
        ("a.dcm".to_string(), a),
        ("skip1.dcm".to_string(), not_dicom),
        ("skip2.dcm".to_string(), empty_class),
        ("b.dcm".to_string(), b),
    ];
    let records = extract_records(inputs);
    assert_eq!(records.len(), 2);
    assert_eq!(records[0].path, "a.dcm");
    assert_eq!(records[1].path, "b.dcm");
    assert_eq!(records[0].entries.len(), 2);
    assert_eq!(records[0].entries[1].1, "CT");
}
