//! The path builder: derives the output location of an anonymized file
//! from the transformed identifiers and the naming-convention flag.

use crate::error::AnonymizeError;
use crate::text::{dec_value, is_digit_seq, parse_decimal, spec_dec_padded, to_dec_padded};
use vstd::prelude::*;
use vstd::string::StrSliceExecFns;
use vstd::string::StringExecFns;

verus! {

/// Renders an instance-number attribute as a zero-padded five-digit
/// decimal.  Succeeds exactly when the attribute is a non-empty digit
/// string whose value fits an unsigned 32-bit integer; any other value is
/// rejected with `InvalidInstanceNumber`.
pub fn format_instance_number(s: &str) -> (r: Result<String, AnonymizeError>)
    ensures
        r is Ok <==> (s@.len() > 0 && is_digit_seq(s@) && dec_value(s@) <= u32::MAX),
        r is Ok ==> r->Ok_0@ == spec_dec_padded(dec_value(s@) as nat, 5),
        r is Err ==> r->Err_0 == AnonymizeError::InvalidInstanceNumber,
{
    match parse_decimal(s, u32::MAX as u64) {
        Some(n) => {
            proof {
                crate::text::lemma_dec_value_nonneg(s@);
            }
            Ok(to_dec_padded(n, 5))
        },
        None => Err(AnonymizeError::InvalidInstanceNumber),
    }
}

/// The output path under the naming convention:
/// `base/patientId/studyId/seriesId/modality_category_instance.dcm`.
pub open spec fn spec_output_path(
    base: Seq<char>,
    patient_id: Seq<char>,
    study_id: Seq<char>,
    series_id: Seq<char>,
    modality: Seq<char>,
    category: Seq<char>,
    instance: Seq<char>,
) -> Seq<char> {
    base + seq!['/'] + patient_id + seq!['/'] + study_id + seq!['/'] + series_id + seq!['/']
        + modality + seq!['_'] + category + seq!['_'] + instance + seq!['.', 'd', 'c', 'm']
}

/// Builds the output path for one anonymized file.  With the naming
/// convention disabled the caller-supplied base path is returned
/// unchanged; with it enabled the path descends through the derived
/// patient, study, and series identifiers and ends in
/// `modality_category_instance.dcm`.
pub fn build_output_path(
    base: &str,
    use_naming_convention: bool,
    patient_id: &str,
    study_id: &str,
    series_id: &str,
    modality: &str,
    category: &str,
    instance: &str,
) -> (r: String)
    ensures
        use_naming_convention ==> r@ == spec_output_path(
            base@,
            patient_id@,
            study_id@,
            series_id@,
            modality@,
            category@,
            instance@,
        ),
        !use_naming_convention ==> r@ == base@,
{
    let mut out = String::from_str(base);
    if !use_naming_convention {
        return out;
    }
    proof {
        reveal_strlit("/");
        reveal_strlit("_");
        reveal_strlit(".dcm");
    }
    out.append("/");
    out.append(patient_id);
    out.append("/");
    out.append(study_id);
    out.append("/");
    out.append(series_id);
    out.append("/");
    out.append(modality);
    out.append("_");
    out.append(category);
    out.append("_");
    out.append(instance);
    out.append(".dcm");
    proof {
        assert(out@ =~= spec_output_path(
            base@,
            patient_id@,
            study_id@,
            series_id@,
            modality@,
            category@,
            instance@,
        ));
    }
    out
}

} // verus!
