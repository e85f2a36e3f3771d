use synthpass::fusion::{check_line1_integrity, Finding, MrzRecord, Support, Verdict};

fn record_of(m: &mrz::MrzData) -> MrzRecord {
    MrzRecord {
        issuing_country: m.issuing_country.clone(),
        nationality: m.nationality.clone(),
        surname: m.surname.clone(),
        given_names: m.given_names.clone(),
    }
}

fn base() -> MrzRecord {
    // The canonical ICAO 9303 worked example.
    let m = mrz::parse_td3(
        "P<UTOERIKSSON<<ANNA<MARIA<<<<<<<<<<<<<<<<<<<",
        "L898902C36UTO7408122F1204159ZE184226B<<<<<10",
    )
    .expect("fixture is a valid ICAO 9303 specimen");
    record_of(&m)
}

#[test]
fn a_clean_document_is_accepted() {
    assert_eq!(check_line1_integrity(&base()), Verdict::Accepted);
}

#[test]
fn an_unrecognized_issuing_country_is_flagged() {
    let mut m = base();
    "ZZZ".clone_into(&mut m.issuing_country);
    assert_eq!(
        check_line1_integrity(&m),
        Verdict::NeedsReview {
            reasons: vec![Finding::UnrecognizedIssuingCountry { got: "ZZZ".into() }]
        }
    );
}

#[test]
fn issuing_country_disagreeing_with_a_valid_nationality_is_flagged() {
    let mut m = base();
    "HRV".clone_into(&mut m.issuing_country);
    assert_eq!(
        check_line1_integrity(&m),
        Verdict::NeedsReview {
            reasons: vec![Finding::IssuingCountryNationalityMismatch {
                issuing_country: "HRV".into(),
                nationality: "UTO".into(),
            }]
        }
    );
}

#[test]
fn the_collapsed_filler_run_corruption_is_flagged() {
    let mut m = base();
    "TRANDALEKSANDER".clone_into(&mut m.surname);
    String::new().clone_into(&mut m.given_names);
    assert_eq!(
        check_line1_integrity(&m),
        Verdict::NeedsReview {
            reasons: vec![Finding::MissingNameSeparator { surname_len: 15 }]
        }
    );
}

#[test]
fn a_short_single_name_with_no_given_names_is_not_flagged() {
    let mut m = base();
    "CHER".clone_into(&mut m.surname);
    String::new().clone_into(&mut m.given_names);
    assert_eq!(check_line1_integrity(&m), Verdict::Accepted);
}

#[test]
fn multiple_findings_are_all_reported() {
    let mut m = base();
    "ZZZ".clone_into(&mut m.issuing_country);
    "TRANDALEKSANDER".clone_into(&mut m.surname);
    String::new().clone_into(&mut m.given_names);
    assert_eq!(
        check_line1_integrity(&m),
        Verdict::NeedsReview {
            reasons: vec![
                Finding::UnrecognizedIssuingCountry { got: "ZZZ".into() },
                Finding::MissingNameSeparator { surname_len: 15 },
            ]
        }
    );
}

#[test]
fn the_fixture_reads_as_expected() {
    let m = base();
    assert_eq!(m.issuing_country, "UTO");
    assert_eq!(m.nationality, "UTO");
    assert_eq!(m.surname, "ERIKSSON");
    assert_eq!(m.given_names, "ANNA MARIA");
}

#[test]
fn support_is_ranked_strongest_first() {
    assert!(Support::CheckDigit < Support::CrossField);
    assert!(Support::CrossField < Support::StructuralOnly);
    assert!(Support::CheckDigit < Support::StructuralOnly);
    let mut all = vec![Support::StructuralOnly, Support::CheckDigit, Support::CrossField];
    all.sort();
    assert_eq!(
        all,
        vec![Support::CheckDigit, Support::CrossField, Support::StructuralOnly]
    );
}

#[test]
fn two_equal_recognized_codes_with_given_names_are_accepted() {
    let m = MrzRecord {
        issuing_country: "DEU".into(),
        nationality: "DEU".into(),
        surname: "MUSTERMANN".into(),
        given_names: "ERIKA".into(),
    };
    assert_eq!(check_line1_integrity(&m), Verdict::Accepted);
}

#[test]
fn an_unrecognized_nationality_alone_is_not_a_mismatch() {
    let mut m = base();
    "ZZZ".clone_into(&mut m.nationality);
    assert_eq!(check_line1_integrity(&m), Verdict::Accepted);
}

#[test]
fn an_unrecognized_issuer_suppresses_the_mismatch_check() {
    let mut m = base();
    "QQQ".clone_into(&mut m.issuing_country);
    "HRV".clone_into(&mut m.nationality);
    assert_eq!(
        check_line1_integrity(&m),
        Verdict::NeedsReview {
            reasons: vec![Finding::UnrecognizedIssuingCountry { got: "QQQ".into() }]
        }
    );
}

#[test]
fn the_name_threshold_is_exclusive_at_twelve_bytes() {
    let mut m = base();
    String::new().clone_into(&mut m.given_names);
    "ABCDEFGHIJKL".clone_into(&mut m.surname);
    assert_eq!(check_line1_integrity(&m), Verdict::Accepted);
    "ABCDEFGHIJKLM".clone_into(&mut m.surname);
    assert_eq!(
        check_line1_integrity(&m),
        Verdict::NeedsReview {
            reasons: vec![Finding::MissingNameSeparator { surname_len: 13 }]
        }
    );
}

#[test]
fn the_surname_length_is_counted_in_bytes() {
    let mut m = base();
    String::new().clone_into(&mut m.given_names);
    // Seven characters, fourteen UTF-8 bytes.
    "ÄÖÜÄÖÜÄ".clone_into(&mut m.surname);
    assert_eq!(
        check_line1_integrity(&m),
        Verdict::NeedsReview {
            reasons: vec![Finding::MissingNameSeparator { surname_len: 14 }]
        }
    );
}

#[test]
fn given_names_present_silence_the_name_check() {
    let mut m = base();
    "TRANDALEKSANDERSSON".clone_into(&mut m.surname);
    "A".clone_into(&mut m.given_names);
    assert_eq!(check_line1_integrity(&m), Verdict::Accepted);
}
