//! Line-1 integrity checks for ICAO 9303 MRZ reads.
//!
//! TD1/TD2/TD3 check digits cover only `document_number`, `date_of_birth`,
//! `date_of_expiry`, and `personal_number`. `document_type`,
//! `issuing_country`, `surname` and `given_names` carry **no check digit at
//! all**: a document can be checksum-proven and still have the wrong name,
//! because nothing mathematically ties line 1 to anything.
//!
//! The dominant failure measured on synthetic corpora is OCR collapsing
//! interior `<` filler runs in line 1 while the trailing filler absorbs the
//! loss, so the line stays the correct length and parses without error while
//! every field boundary shifts left
//! (`P<JPNSTRAND<<ALEKSANDER<<<…` → `PJPNSTRANDALEKSANDER<<<<…`). This module
//! catches that corruption deterministically, using the ICAO country table
//! that `mrz` ships rather than a model.
//!
//! What this is not: a posterior probability. See [`Support`] — the ranking
//! is ordinal on purpose.

use vstd::prelude::*;
use vstd::utf8::encode_utf8;

verus! {

/// Why a field's value is believed, ranked from strongest to weakest.
///
/// Deliberately an ordinal enum, not a float: with no measured calibration
/// curve, an ordinal scale says only "which claim is stronger", which is what
/// the data actually supports.
#[derive(Debug, Clone, Copy, PartialEq, Eq, PartialOrd, Ord, Hash)]
pub enum Support {
    /// An ICAO check digit mathematically verifies this exact value.
    CheckDigit,
    /// Two values parsed from different MRZ lines by the same OCR pass agree.
    /// Weaker than a check digit — neither side is proven — but the two
    /// values are not derived from the same bytes.
    CrossField,
    /// Parsed at a fixed offset; nothing beyond charset and length checks it.
    StructuralOnly,
}

/// The parts of a parsed MRZ record that the line-1 checks read, as the
/// parser produced them.
#[derive(Debug, Clone, PartialEq, Eq)]
pub struct MrzRecord {
    /// Issuing state or organization (3-letter ICAO code).
    pub issuing_country: String,
    /// Nationality (3-letter ICAO code).
    pub nationality: String,
    /// Primary identifier / surname, as printed.
    pub surname: String,
    /// Secondary identifier / given names, as printed.
    pub given_names: String,
}

/// One integrity finding about a parsed MRZ record. `NeedsReview`'s
/// `reasons` are these.
#[derive(Debug, Clone, PartialEq, Eq)]
pub enum Finding {
    /// `issuing_country` is not a recognized ICAO/ISO 3166-1 code — the
    /// clearest, cheapest signal of a shifted line 1.
    UnrecognizedIssuingCountry { got: String },
    /// `issuing_country` and `nationality` disagree, and `nationality` *is*
    /// a recognized code (so this isn't just two unrecognized strings talking
    /// past each other). [`Support::CrossField`] evidence.
    IssuingCountryNationalityMismatch { issuing_country: String, nationality: String },
    /// `given_names` is empty while `surname` is long — the signature of the
    /// collapsed-filler corruption: the `<<` split never fired, so the whole
    /// name line landed in `surname`. `surname_len` is in UTF-8 bytes.
    MissingNameSeparator { surname_len: usize },
}

/// Verdict for an [`MrzRecord`], from the checks in this module. Distinct
/// from "do the check digits verify": this asks whether the rest of the
/// record looks internally consistent. A document can pass one and fail the
/// other.
#[derive(Debug, Clone, PartialEq, Eq)]
pub enum Verdict {
    /// No integrity findings.
    Accepted,
    /// At least one finding, none severe enough to reject outright.
    NeedsReview { reasons: Vec<Finding> },
}

/// A [`Finding`], its strings taken by their characters.
pub enum FindingView {
    UnrecognizedIssuingCountry { got: Seq<char> },
    IssuingCountryNationalityMismatch { issuing_country: Seq<char>, nationality: Seq<char> },
    MissingNameSeparator { surname_len: nat },
}

/// A [`Verdict`], its findings taken by their views.
pub enum VerdictView {
    Accepted,
    NeedsReview { reasons: Seq<FindingView> },
}

impl View for Finding {
    type V = FindingView;

    open spec fn view(&self) -> FindingView {
        match self {
            Finding::UnrecognizedIssuingCountry { got } => FindingView::UnrecognizedIssuingCountry {
                got: got@,
            },
            Finding::IssuingCountryNationalityMismatch { issuing_country, nationality } =>
                FindingView::IssuingCountryNationalityMismatch {
                issuing_country: issuing_country@,
                nationality: nationality@,
            },
            Finding::MissingNameSeparator { surname_len } => FindingView::MissingNameSeparator {
                surname_len: *surname_len as nat,
            },
        }
    }
}

impl View for Verdict {
    type V = VerdictView;

    open spec fn view(&self) -> VerdictView {
        match self {
            Verdict::Accepted => VerdictView::Accepted,
            Verdict::NeedsReview { reasons } => VerdictView::NeedsReview {
                reasons: reasons@.map_values(|f: Finding| f@),
            },
        }
    }
}

/// The English name that `mrz::country_name` gives an ICAO/ISO 3166-1 code,
/// or `None` for a code not in its table.
pub uninterp spec fn icao_country_name(code: Seq<char>) -> Option<Seq<char>>;

/// `mrz::country_name` looks `code` up in the crate's fixed ICAO/ISO 3166-1
/// table. Believed: the result is [`icao_country_name`] of the code; nothing
/// is claimed of which codes the table holds.
pub assume_specification[ mrz::country_name ](code: &str) -> (r: Option<&'static str>)
    ensures
        r is Some <==> icao_country_name(code@) is Some,
        r matches Some(name) ==> icao_country_name(code@) == Some(name@),
;

/// `code` is in the ICAO country table.
pub open spec fn recognized(code: Seq<char>) -> bool {
    icao_country_name(code) is Some
}

/// Threshold, in UTF-8 bytes, above which an empty `given_names` next to a
/// long `surname` is flagged rather than treated as a plausible single-name
/// document (real single-name passports exist; ICAO allows it).
pub const SUSPICIOUSLY_LONG_UNSPLIT_NAME: usize = 12;

/// The length of `s` in UTF-8 bytes (what `str::len` returns).
pub open spec fn byte_len(s: Seq<char>) -> nat {
    encode_utf8(s).len()
}

/// The finding about the two country codes, if any.
pub open spec fn country_findings(issuing: Seq<char>, nationality: Seq<char>) -> Seq<FindingView> {
    if !recognized(issuing) {
        seq![FindingView::UnrecognizedIssuingCountry { got: issuing }]
    } else if recognized(nationality) && issuing != nationality {
        seq![
            FindingView::IssuingCountryNationalityMismatch {
                issuing_country: issuing,
                nationality: nationality,
            },
        ]
    } else {
        seq![]
    }
}

/// The finding about the name fields, if any.
pub open spec fn name_findings(surname: Seq<char>, given_names: Seq<char>) -> Seq<FindingView> {
    if given_names.len() == 0 && byte_len(surname) > SUSPICIOUSLY_LONG_UNSPLIT_NAME {
        seq![FindingView::MissingNameSeparator { surname_len: byte_len(surname) }]
    } else {
        seq![]
    }
}

/// Every finding about `m`, country first, then name.
pub open spec fn line1_findings(m: MrzRecord) -> Seq<FindingView> {
    country_findings(m.issuing_country@, m.nationality@) + name_findings(
        m.surname@,
        m.given_names@,
    )
}

/// The verdict on `m`: accepted exactly when there are no findings.
pub open spec fn line1_verdict(m: MrzRecord) -> VerdictView {
    let findings = line1_findings(m);
    if findings.len() == 0 {
        VerdictView::Accepted
    } else {
        VerdictView::NeedsReview { reasons: findings }
    }
}

/// Runs the line-1 integrity checks over an already-parsed, checksum-passing
/// MRZ record. Callers should still gate on the check digits first — this
/// says nothing about line 2.
pub fn check_line1_integrity(m: &MrzRecord) -> (r: Verdict)
    ensures
        r@ == line1_verdict(*m),
{
    let mut reasons: Vec<Finding> = Vec::new();

    match mrz::country_name(m.issuing_country.as_str()) {
        None => reasons.push(Finding::UnrecognizedIssuingCountry { got: m.issuing_country.clone() }),
        Some(_) => {
            if mrz::country_name(m.nationality.as_str()).is_some() && !(m.issuing_country
                == m.nationality) {
                reasons.push(
                    Finding::IssuingCountryNationalityMismatch {
                        issuing_country: m.issuing_country.clone(),
                        nationality: m.nationality.clone(),
                    },
                );
            }
        },
    }
    assert(reasons@.map_values(|f: Finding| f@) =~= country_findings(
        m.issuing_country@,
        m.nationality@,
    ));
    let ghost country = reasons@;

    let surname_len = m.surname.as_str().as_bytes().len();
    if m.given_names.as_str().is_empty() && surname_len > SUSPICIOUSLY_LONG_UNSPLIT_NAME {
        reasons.push(Finding::MissingNameSeparator { surname_len });
    }
    assert(reasons@.map_values(|f: Finding| f@) =~= line1_findings(*m));

    if reasons.len() == 0 {
        Verdict::Accepted
    } else {
        Verdict::NeedsReview { reasons }
    }
}

// ---------------------------------------------------------------------------
// Laws of the verdict.
// ---------------------------------------------------------------------------

/// A record is accepted exactly when it raises no finding, and a record sent
/// to review always carries at least one reason: the findings themselves.
pub proof fn law_review_exactly_when_findings(m: MrzRecord)
    ensures
        (line1_verdict(m) is Accepted) <==> line1_findings(m).len() == 0,
        line1_verdict(m) matches VerdictView::NeedsReview { reasons } ==> reasons.len() > 0
            && reasons == line1_findings(m),
{
}

/// A country mismatch is reported only between the record's own two codes,
/// both recognized and different — never two unrecognized strings talking
/// past each other.
pub proof fn law_mismatch_needs_two_recognized_codes(m: MrzRecord, k: int)
    requires
        0 <= k < line1_findings(m).len(),
        line1_findings(m)[k] is IssuingCountryNationalityMismatch,
    ensures
        line1_findings(m)[k] == (FindingView::IssuingCountryNationalityMismatch {
            issuing_country: m.issuing_country@,
            nationality: m.nationality@,
        }),
        recognized(m.issuing_country@),
        recognized(m.nationality@),
        m.issuing_country@ != m.nationality@,
{
}

/// Real documents can legitimately carry no given names: a short surname
/// with empty given names raises no name finding. Only a long unsplit name
/// is suspicious.
pub proof fn law_short_mononym_not_flagged(m: MrzRecord, k: int)
    requires
        m.given_names@.len() == 0,
        byte_len(m.surname@) <= SUSPICIOUSLY_LONG_UNSPLIT_NAME,
        0 <= k < line1_findings(m).len(),
    ensures
        !(line1_findings(m)[k] is MissingNameSeparator),
{
}

/// A record whose issuing country is recognized and equals its nationality,
/// and which has given names, is accepted.
pub proof fn law_consistent_record_accepted(m: MrzRecord)
    requires
        recognized(m.issuing_country@),
        m.issuing_country@ == m.nationality@,
        m.given_names@.len() > 0,
    ensures
        line1_verdict(m) == VerdictView::Accepted,
{
}

/// Two recognized codes that differ always raise the mismatch finding, with
/// the record's own two codes.
pub proof fn law_differing_recognized_codes_are_flagged(m: MrzRecord)
    requires
        icao_country_name(m.issuing_country@) is Some,
        icao_country_name(m.nationality@) is Some,
        m.issuing_country@ != m.nationality@,
    ensures
        line1_findings(m).contains(
            FindingView::IssuingCountryNationalityMismatch {
                issuing_country: m.issuing_country@,
                nationality: m.nationality@,
            },
        ),
{
    assert(line1_findings(m)[0] == FindingView::IssuingCountryNationalityMismatch {
        issuing_country: m.issuing_country@,
        nationality: m.nationality@,
    });
}

/// Empty given names beside a surname longer than the threshold, in UTF-8
/// bytes, always raise the missing-separator finding with that length,
/// however long the surname is.
pub proof fn law_long_unsplit_name_is_flagged(m: MrzRecord)
    requires
        m.given_names@.len() == 0,
        encode_utf8(m.surname@).len() > SUSPICIOUSLY_LONG_UNSPLIT_NAME,
    ensures
        line1_findings(m).contains(
            FindingView::MissingNameSeparator { surname_len: encode_utf8(m.surname@).len() },
        ),
{
    let c = country_findings(m.issuing_country@, m.nationality@);
    assert(line1_findings(m)[c.len() as int] == FindingView::MissingNameSeparator {
        surname_len: encode_utf8(m.surname@).len(),
    });
}

/// An issuing country outside the ICAO table is always reported, with the
/// code as read, and it is the first finding.
pub proof fn law_unrecognized_issuer_is_flagged(m: MrzRecord)
    requires
        icao_country_name(m.issuing_country@) is None,
    ensures
        line1_findings(m).len() >= 1,
        line1_findings(m)[0] == (FindingView::UnrecognizedIssuingCountry {
            got: m.issuing_country@,
        }),
{
}

/// Given names that are present silence the name check, however long the
/// surname.
pub proof fn law_present_given_names_raise_no_name_finding(m: MrzRecord, k: int)
    requires
        m.given_names@.len() > 0,
        0 <= k < line1_findings(m).len(),
    ensures
        !(line1_findings(m)[k] is MissingNameSeparator),
{
}

} // verus!
