//! The identity transform: derives the pseudonymous identifiers from the
//! raw attribute values of one DICOM object.
//!
//! The derivation is deterministic: every output field is a function of
//! the seed values and the injected station name, so the same study always
//! maps to the same pseudonymous identifiers without any lookup table.

use crate::error::AnonymizeError;
use crate::eval::{eval_int_expr, eval_int_of};
use crate::text::{
    all_digits, dec_value, is_digit_seq, parse_decimal, plus_mapped, replace_dots_with_plus,
    spec_find_from, spec_hex_upper, find_char_from, to_hex_upper,
};
use vstd::prelude::*;
use vstd::string::StrSliceExecFns;
use vstd::string::StringExecFns;

verus! {

/// The raw source values the transform reads from one file: device serial
/// number, study date, study time, study instance UID, and patient birth
/// date, each defaulted to the empty string when absent.
#[derive(Debug)]
pub struct IdentitySeed {
    pub serial_number: String,
    pub study_date: String,
    pub study_time: String,
    pub study_uid: String,
    pub birth_date: String,
}

/// The mathematical view of a seed: the character sequences of its fields.
pub struct SeedView {
    pub serial_number: Seq<char>,
    pub study_date: Seq<char>,
    pub study_time: Seq<char>,
    pub study_uid: Seq<char>,
    pub birth_date: Seq<char>,
}

impl View for IdentitySeed {
    type V = SeedView;

    open spec fn view(&self) -> SeedView {
        SeedView {
            serial_number: self.serial_number@,
            study_date: self.study_date@,
            study_time: self.study_time@,
            study_uid: self.study_uid@,
            birth_date: self.birth_date@,
        }
    }
}

/// The derived pseudonymous values: the new patient identifier and study
/// identifier (upper-case hexadecimal), the year-coarsened study and birth
/// dates, and the station name injected by the caller.
#[derive(Debug)]
pub struct DerivedIdentity {
    pub patient_id: String,
    pub study_id: String,
    pub new_study_date: String,
    pub new_birth_date: String,
    pub station_name: String,
}

/// The mathematical view of a derived identity.
pub struct DerivedView {
    pub patient_id: Seq<char>,
    pub study_id: Seq<char>,
    pub new_study_date: Seq<char>,
    pub new_birth_date: Seq<char>,
    pub station_name: Seq<char>,
}

impl View for DerivedIdentity {
    type V = DerivedView;

    open spec fn view(&self) -> DerivedView {
        DerivedView {
            patient_id: self.patient_id@,
            study_id: self.study_id@,
            new_study_date: self.new_study_date@,
            new_birth_date: self.new_birth_date@,
            station_name: self.station_name@,
        }
    }
}

/// The serial number consists of decimal digits only.
pub open spec fn spec_serial_ok(s: SeedView) -> bool {
    is_digit_seq(s.serial_number)
}

/// The digit string folded into the new patient identifier: the serial
/// number, characters 2..8 of the study date, and characters 0..4 of the
/// study time.
pub open spec fn spec_pid_digits(s: SeedView) -> Seq<char> {
    s.serial_number + s.study_date.subrange(2, 8) + s.study_time.subrange(0, 4)
}

/// The patient-identifier fold is possible: the sliced attributes are long
/// enough, the concatenation is all digits, and its value fits a signed
/// 64-bit integer.
pub open spec fn spec_pid_ok(s: SeedView) -> bool {
    &&& s.study_date.len() >= 8
    &&& s.study_time.len() >= 4
    &&& is_digit_seq(spec_pid_digits(s))
    &&& dec_value(spec_pid_digits(s)) <= i64::MAX
}

/// A date coarsened to January 1st of its year: the first four characters
/// followed by `0101`.
pub open spec fn spec_coarsened_date(d: Seq<char>) -> Seq<char> {
    d.subrange(0, 4) + seq!['0', '1', '0', '1']
}

/// The error the transform reports for a seed, or `None` when it
/// succeeds.  The checks run in this order: serial number,
/// patient-identifier fold, birth date length, study-UID expression.
pub open spec fn spec_derive_err(s: SeedView) -> Option<AnonymizeError> {
    if !spec_serial_ok(s) {
        Some(AnonymizeError::InvalidSerialNumber)
    } else if !spec_pid_ok(s) {
        Some(AnonymizeError::MalformedIdentitySeed)
    } else if s.birth_date.len() < 4 {
        Some(AnonymizeError::MalformedIdentitySeed)
    } else if eval_int_of(plus_mapped(s.study_uid)) is None {
        Some(AnonymizeError::ExpressionEvaluationError)
    } else {
        None
    }
}

/// The new patient identifier: the folded digit string read as a decimal
/// integer and rendered in upper-case hexadecimal.
pub open spec fn spec_new_patient_id(s: SeedView) -> Seq<char> {
    spec_hex_upper(dec_value(spec_pid_digits(s)) as nat)
}

/// The new study identifier: the study UID with dots replaced by plus
/// signs, evaluated as an integer expression, and rendered in upper-case
/// hexadecimal (negative results render as their 64-bit two's complement).
pub open spec fn spec_new_study_id(s: SeedView) -> Seq<char> {
    spec_hex_upper((eval_int_of(plus_mapped(s.study_uid))->Some_0 as u64) as nat)
}

/// Every field of a successfully derived identity, as a function of the
/// seed view and the station name alone.
pub open spec fn spec_derived_of(s: SeedView, host: Seq<char>) -> DerivedView {
    DerivedView {
        patient_id: spec_new_patient_id(s),
        study_id: spec_new_study_id(s),
        new_study_date: spec_coarsened_date(s.study_date),
        new_birth_date: spec_coarsened_date(s.birth_date),
        station_name: host,
    }
}

/// Date coarsening: a coarsened date is eight characters long, keeps the
/// year (its first four characters) from the source date, and always ends
/// in `0101`.
pub proof fn lemma_date_coarsening(d: Seq<char>)
    requires
        d.len() >= 4,
    ensures
        spec_coarsened_date(d).len() == 8,
        spec_coarsened_date(d).subrange(0, 4) == d.subrange(0, 4),
        spec_coarsened_date(d).subrange(4, 8) == seq!['0', '1', '0', '1'],
{
    assert(spec_coarsened_date(d).subrange(0, 4) =~= d.subrange(0, 4));
    assert(spec_coarsened_date(d).subrange(4, 8) =~= seq!['0', '1', '0', '1']);
}

/// The new patient identifier is a non-empty string of upper-case
/// hexadecimal digits, with no `0x` prefix or any other character.
pub proof fn lemma_patient_id_hex(s: SeedView)
    ensures
        spec_new_patient_id(s).len() >= 1,
        forall|i: int|
            0 <= i < spec_new_patient_id(s).len() ==> crate::text::is_upper_hex_digit(
                #[trigger] spec_new_patient_id(s)[i],
            ),
{
    crate::text::lemma_hex_upper_valid(dec_value(spec_pid_digits(s)) as nat);
}

/// Determinism of the identity transform: seeds with the same attribute
/// values and the same station name derive identities that agree on every
/// field, bit for bit.
pub proof fn lemma_identity_transform_deterministic(
    seed1: IdentitySeed,
    seed2: IdentitySeed,
    host: Seq<char>,
    id1: DerivedIdentity,
    id2: DerivedIdentity,
)
    requires
        seed1@ == seed2@,
        id1@ == spec_derived_of(seed1@, host),
        id2@ == spec_derived_of(seed2@, host),
    ensures
        id1@ == id2@,
{
}

/// Derives the pseudonymous identity from `seed`, with `station_name` as
/// the injected host name.  Succeeds exactly when no check of
/// `spec_derive_err` fires, and then every output field is the function of
/// the inputs that `spec_derived_of` states.
pub fn derive_identity(seed: &IdentitySeed, station_name: &str) -> (r: Result<
    DerivedIdentity,
    AnonymizeError,
>)
    ensures
        match r {
            Ok(id) => spec_derive_err(seed@) is None && id@ == spec_derived_of(
                seed@,
                station_name@,
            ),
            Err(e) => spec_derive_err(seed@) == Some(e),
        },
{
    if !all_digits(seed.serial_number.as_str()) {
        return Err(AnonymizeError::InvalidSerialNumber);
    }
    let date_len = seed.study_date.as_str().unicode_len();
    let time_len = seed.study_time.as_str().unicode_len();
    if date_len < 8 || time_len < 4 {
        return Err(AnonymizeError::MalformedIdentitySeed);
    }
    let mut digits = seed.serial_number.clone();
    digits.append(seed.study_date.as_str().substring_char(2, 8));
    digits.append(seed.study_time.as_str().substring_char(0, 4));
    proof {
        assert(digits@ == spec_pid_digits(seed@));
        assert(spec_pid_digits(seed@).len() > 0);
    }
    let folded_pid = match parse_decimal(digits.as_str(), i64::MAX as u64) {
        Some(n) => n,
        None => {
            return Err(AnonymizeError::MalformedIdentitySeed);
        },
    };
    let patient_id = to_hex_upper(folded_pid);
    let birth_len = seed.birth_date.as_str().unicode_len();
    if birth_len < 4 {
        return Err(AnonymizeError::MalformedIdentitySeed);
    }
    proof {
        reveal_strlit("0101");
    }
    let mut new_study_date = String::from_str(seed.study_date.as_str().substring_char(0, 4));
    new_study_date.append("0101");
    let mut new_birth_date = String::from_str(seed.birth_date.as_str().substring_char(0, 4));
    new_birth_date.append("0101");
    proof {
        assert(new_study_date@ =~= spec_coarsened_date(seed@.study_date));
        assert(new_birth_date@ =~= spec_coarsened_date(seed@.birth_date));
    }
    let plussed = replace_dots_with_plus(seed.study_uid.as_str());
    let folded_study = match eval_int_expr(plussed.as_str()) {
        Some(n) => n,
        None => {
            return Err(AnonymizeError::ExpressionEvaluationError);
        },
    };
    let study_id = to_hex_upper(folded_study as u64);
    Ok(
        DerivedIdentity {
            patient_id,
            study_id,
            new_study_date,
            new_birth_date,
            station_name: String::from_str(station_name),
        },
    )
}

/// The third slash-separated component of the classification value, or
/// `UNK` when the value has fewer than three components.
pub open spec fn spec_image_category(s: Seq<char>) -> Seq<char> {
    match spec_find_from(s, 0, '/') {
        Option::None => seq!['U', 'N', 'K'],
        Option::Some(p1) => match spec_find_from(s, p1 + 1, '/') {
            Option::None => seq!['U', 'N', 'K'],
            Option::Some(p2) => match spec_find_from(s, p2 + 1, '/') {
                Option::None => s.subrange(p2 + 1, s.len() as int),
                Option::Some(p3) => s.subrange(p2 + 1, p3),
            },
        },
    }
}

pub proof fn lemma_find_from_range(s: Seq<char>, i: int, c: char)
    ensures
        spec_find_from(s, i, c) matches Some(k) ==> i <= k < s.len(),
    decreases s.len() - i,
{
    if 0 <= i < s.len() && s[i] != c {
        lemma_find_from_range(s, i + 1, c);
    }
}

/// The image-type category used in output file names: the third
/// slash-separated component of the classification value, or `UNK` when
/// there are fewer than three components.
pub fn image_type_category(s: &str) -> (r: String)
    ensures
        r@ == spec_image_category(s@),
{
    proof {
        reveal_strlit("UNK");
        lemma_find_from_range(s@, 0, '/');
    }
    let n = s.unicode_len();
    let p1 = match find_char_from(s, 0, '/') {
        Some(k) => k,
        None => {
            let r = String::from_str("UNK");
            proof {
                assert(r@ =~= seq!['U', 'N', 'K']);
            }
            return r;
        },
    };
    proof {
        lemma_find_from_range(s@, p1 as int + 1, '/');
    }
    let p2 = match find_char_from(s, p1 + 1, '/') {
        Some(k) => k,
        None => {
            let r = String::from_str("UNK");
            proof {
                assert(r@ =~= seq!['U', 'N', 'K']);
            }
            return r;
        },
    };
    proof {
        lemma_find_from_range(s@, p2 as int + 1, '/');
    }
    match find_char_from(s, p2 + 1, '/') {
        Some(p3) => String::from_str(s.substring_char(p2 + 1, p3)),
        None => String::from_str(s.substring_char(p2 + 1, n)),
    }
}

} // verus!
