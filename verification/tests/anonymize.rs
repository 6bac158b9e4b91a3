use dicom_anon::batch::{anonymize_all, anonymize_file};
use dicom_anon::error::AnonymizeError;
use dicom_anon::classify::is_dicom;
use dicom_anon::identity::{derive_identity, image_type_category, IdentitySeed};
use dicom_anon::model::DicomFile;
use dicom_anon::rewrite::{deletion_tags, replacement_elements};
use dicom_anon::tags::{Element, Tag, Vr};

fn seed(serial: &str, study_date: &str, study_time: &str, study_uid: &str, birth: &str) -> IdentitySeed {
    IdentitySeed {
        serial_number: serial.to_string(),
        study_date: study_date.to_string(),
        study_time: study_time.to_string(),
        study_uid: study_uid.to_string(),
        birth_date: birth.to_string(),
    }
}

fn put(f: &mut DicomFile, group: u16, element: u16, value: &str) {
    f.put_element(Element { tag: Tag::new(group, element), vr: Vr::Lo, value: value.to_string() });
}

/// A file that passes every check: classification, serial, dates, UID, instance.
fn valid_file() -> DicomFile {
    let mut f = DicomFile::new();
    put(&mut f, 0x0008, 0x0008, "ORIGINAL/PRIMARY/MR");
    put(&mut f, 0x0018, 0x1000, "12345");
    put(&mut f, 0x0008, 0x0020, "20230615");
    put(&mut f, 0x0008, 0x0030, "101530");
    put(&mut f, 0x0020, 0x000D, "1.2.840.10008");
    put(&mut f, 0x0010, 0x0030, "19800101");
    put(&mut f, 0x0020, 0x0013, "7");
    put(&mut f, 0x0008, 0x0080, "Some Hospital");
    put(&mut f, 0x0010, 0x4000, "free text comments");
    f
}

fn value_of(f: &DicomFile, group: u16, element: u16) -> Option<String> {
    f.element_value(Tag::new(group, element))
}

#[test]
fn derive_identity_example_values() {
    let s = seed("12345", "20230615", "101530", "1.2.840.10008", "19800101");
    let id = derive_identity(&s, "STATION1").expect("derivation should succeed");
    // serial + study date chars 2..8 + study time chars 0..4
    let folded: u64 = "123452306151015".parse().unwrap();
    assert_eq!(id.patient_id, format!("{:X}", folded));
    assert_eq!(id.new_study_date, "20230101");
    assert_eq!(id.new_birth_date, "19800101");
    // 1+2+840+10008 = 10851 = 0x2A63
    assert_eq!(id.study_id, "2A63");
    assert_eq!(id.station_name, "STATION1");
}

#[test]
fn derive_identity_is_deterministic() {
    let s1 = seed("98765", "20191231", "235959", "1.22.333.4444", "19751109");
    let s2 = seed("98765", "20191231", "235959", "1.22.333.4444", "19751109");
    let id1 = derive_identity(&s1, "HOSTA").unwrap();
    let id2 = derive_identity(&s2, "HOSTA").unwrap();
    assert_eq!(id1.patient_id, id2.patient_id);
    assert_eq!(id1.study_id, id2.study_id);
    assert_eq!(id1.new_study_date, id2.new_study_date);
    assert_eq!(id1.new_birth_date, id2.new_birth_date);
    assert_eq!(id1.station_name, id2.station_name);
}

#[test]
fn patient_id_is_uppercase_hex() {
    let s = seed("99999", "20230615", "101530", "1.2.3", "19800101");
    let id = derive_identity(&s, "H").unwrap();
    assert!(!id.patient_id.is_empty());
    assert!(!id.patient_id.starts_with("0x"));
    for c in id.patient_id.chars() {
        assert!(c.is_ascii_digit() || ('A'..='F').contains(&c));
    }
}

#[test]
fn study_id_folds_plain_number() {
    let s = seed("1", "20230615", "101530", "123", "19800101");
    let id = derive_identity(&s, "H").unwrap();
    assert_eq!(id.study_id, "7B");
}

#[test]
fn serial_with_non_digit_is_rejected() {
    let s = seed("12A45", "20230615", "101530", "1.2.3", "19800101");
    assert_eq!(derive_identity(&s, "H").unwrap_err(), AnonymizeError::InvalidSerialNumber);
}

#[test]
fn short_study_date_is_rejected() {
    let s = seed("12345", "2023", "101530", "1.2.3", "19800101");
    assert_eq!(derive_identity(&s, "H").unwrap_err(), AnonymizeError::MalformedIdentitySeed);
}

#[test]
fn short_study_time_is_rejected() {
    let s = seed("12345", "20230615", "10", "1.2.3", "19800101");
    assert_eq!(derive_identity(&s, "H").unwrap_err(), AnonymizeError::MalformedIdentitySeed);
}

#[test]
fn non_digit_time_slice_is_rejected() {
    let s = seed("12345", "20230615", "10:15:30", "1.2.3", "19800101");
    assert_eq!(derive_identity(&s, "H").unwrap_err(), AnonymizeError::MalformedIdentitySeed);
}

#[test]
fn short_birth_date_is_rejected() {
    let s = seed("12345", "20230615", "101530", "1.2.3", "80");
    assert_eq!(derive_identity(&s, "H").unwrap_err(), AnonymizeError::MalformedIdentitySeed);
}

#[test]
fn bad_uid_expression_is_rejected() {
    let s = seed("12345", "20230615", "101530", "not a uid", "19800101");
    assert_eq!(derive_identity(&s, "H").unwrap_err(), AnonymizeError::ExpressionEvaluationError);
}

#[test]
fn empty_uid_expression_is_rejected() {
    let s = seed("12345", "20230615", "101530", "", "19800101");
    assert_eq!(derive_identity(&s, "H").unwrap_err(), AnonymizeError::ExpressionEvaluationError);
}

#[test]
fn image_type_third_component() {
    assert_eq!(image_type_category("ORIGINAL/PRIMARY/MR"), "MR");
    assert_eq!(image_type_category("ORIGINAL"), "UNK");
    assert_eq!(image_type_category("ORIGINAL/PRIMARY"), "UNK");
    assert_eq!(image_type_category("A/B/C/D"), "C");
    assert_eq!(image_type_category(""), "UNK");
    assert_eq!(image_type_category("A/B/"), "");
}

#[test]
fn classification_rejects_missing_or_empty_value() {
    let empty = DicomFile::new();
    assert!(!is_dicom(&empty));
    let mut blank = DicomFile::new();
    put(&mut blank, 0x0008, 0x0008, "");
    assert!(!is_dicom(&blank));
    let mut ok = DicomFile::new();
    put(&mut ok, 0x0008, 0x0008, "ORIGINAL/PRIMARY/MR");
    assert!(is_dicom(&ok));
}

#[test]
fn anonymize_rejects_non_dicom_without_change() {
    let mut f = DicomFile::new();
    put(&mut f, 0x0018, 0x1000, "12345");
    let r = anonymize_file(&mut f, "HOST");
    assert_eq!(r.unwrap_err(), AnonymizeError::NotDicom);
    assert_eq!(value_of(&f, 0x0018, 0x1000).unwrap(), "12345");
    assert!(value_of(&f, 0x0010, 0x0010).is_none());
}

#[test]
fn anonymize_rejects_bad_serial_without_change() {
    let mut f = valid_file();
    f.put_element(Element {
        tag: Tag::new(0x0018, 0x1000),
        vr: Vr::Lo,
        value: "12A45".to_string(),
    });
    let r = anonymize_file(&mut f, "HOST");
    assert_eq!(r.unwrap_err(), AnonymizeError::InvalidSerialNumber);
    assert_eq!(value_of(&f, 0x0008, 0x0080).unwrap(), "Some Hospital");
    assert_eq!(value_of(&f, 0x0010, 0x4000).unwrap(), "free text comments");
    assert_eq!(value_of(&f, 0x0008, 0x0020).unwrap(), "20230615");
}

#[test]
fn anonymize_rewrites_and_deletes() {
    let mut f = valid_file();
    let id = anonymize_file(&mut f, "WORKSTATION").expect("should anonymize");
    // every deleted tag is gone
    for tag in deletion_tags() {
        assert!(f.element_value(tag).is_none(), "tag should be deleted");
    }
    // every replacement landed with the derived value
    for e in replacement_elements(&id) {
        assert_eq!(f.element_value(e.tag).unwrap(), e.value);
    }
    // spot checks against the derived values
    assert_eq!(value_of(&f, 0x0008, 0x1010).unwrap(), "WORKSTATION");
    assert_eq!(value_of(&f, 0x0008, 0x0020).unwrap(), "20230101");
    assert_eq!(value_of(&f, 0x0010, 0x0030).unwrap(), "19800101");
    assert_eq!(value_of(&f, 0x0010, 0x0020).unwrap(), id.patient_id);
    assert_eq!(value_of(&f, 0x0020, 0x0010).unwrap(), "2A63");
    // untouched attributes survive
    assert_eq!(value_of(&f, 0x0020, 0x0013).unwrap(), "7");
    assert_eq!(value_of(&f, 0x0008, 0x0008).unwrap(), "ORIGINAL/PRIMARY/MR");
}

#[test]
fn anonymize_writes_canonical_vrs() {
    let mut f = valid_file();
    anonymize_file(&mut f, "HOST").expect("should anonymize");
    let vr = |g: u16, e: u16| f.element_vr(Tag::new(g, e)).unwrap();
    assert_eq!(vr(0x0008, 0x1010), Vr::Sh); // station name
    for e in [0x0012u16, 0x0020, 0x0021, 0x0022, 0x0023] {
        assert_eq!(vr(0x0008, e), Vr::Da); // instance-creation and study dates
    }
    assert_eq!(vr(0x0008, 0x0050), Vr::Sh); // accession number
    assert_eq!(vr(0x0010, 0x0010), Vr::Pn); // patient name
    assert_eq!(vr(0x0010, 0x0020), Vr::Lo); // patient identifier
    assert_eq!(vr(0x0010, 0x0030), Vr::Da); // patient birth date
    assert_eq!(vr(0x0020, 0x0010), Vr::Sh); // study identifier
}

#[test]
fn batch_counts_only_fully_valid_files() {
    let mut files = Vec::new();
    files.push(valid_file());
    let mut second = valid_file();
    put(&mut second, 0x0018, 0x1000, "777");
    files.push(second);
    // not a DICOM object: no classification attribute
    let mut not_dicom = DicomFile::new();
    put(&mut not_dicom, 0x0018, 0x1000, "12345");
    files.push(not_dicom);
    // rejected by the identity transform
    let mut bad_serial = valid_file();
    put(&mut bad_serial, 0x0018, 0x1000, "12A45");
    files.push(bad_serial);
    // rejected by the instance-number check
    let mut bad_instance = valid_file();
    put(&mut bad_instance, 0x0020, 0x0013, "seven");
    files.push(bad_instance);
    let count = anonymize_all(&mut files, "HOST");
    assert_eq!(count, 2);
    assert_eq!(files.len(), 5);
    // the failed files came back unchanged
    assert_eq!(files[3].element_value(Tag::new(0x0008, 0x0080)).unwrap(), "Some Hospital");
    // the successful ones were rewritten
    assert!(files[0].element_value(Tag::new(0x0008, 0x0080)).is_none());
}
