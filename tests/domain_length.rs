use xiler_sync::domain_length::{classify, classify_lowercase, DomainError, DomainLength};

#[test]
fn x_domain_length_from_str() {
    assert_eq!(classify("x.o"), Ok(DomainLength::SingleCharacter));
}

#[test]
fn x_domain_length_from_string() {
    let domain = format!("{}.o", "x");
    assert_eq!(classify(domain.as_str()), Ok(DomainLength::SingleCharacter));
}

#[test]
fn xi_domain_length_from_str() {
    assert_eq!(classify("xi.o"), Ok(DomainLength::VeryShort));
}

#[test]
fn xi_domain_length_from_string() {
    let domain = format!("{}.o", "xi");
    assert_eq!(classify(domain.as_str()), Ok(DomainLength::VeryShort));
}

#[test]
fn xil_domain_length_from_str() {
    assert_eq!(classify("xil.o"), Ok(DomainLength::Short));
}

#[test]
fn xil_domain_length_from_string() {
    let domain = format!("{}.o", "xil");
    assert_eq!(classify(domain.as_str()), Ok(DomainLength::Short));
}

#[test]
fn xile_domain_length_from_str() {
    assert_eq!(classify("xile.o"), Ok(DomainLength::Normal));
}

#[test]
fn xile_domain_length_from_string() {
    let domain = format!("{}.o", "xile");
    assert_eq!(classify(domain.as_str()), Ok(DomainLength::Normal));
}

#[test]
fn xiler_domain_length_from_str() {
    assert_eq!(classify("xiler.o"), Ok(DomainLength::Normal));
}

#[test]
fn xiler_domain_length_from_string() {
    let domain = format!("{}.o", "xiler");
    assert_eq!(classify(domain.as_str()), Ok(DomainLength::Normal));
}

#[test]
fn empty_domain_length_rejected() {
    assert_eq!(classify(""), Err(DomainError::MissingSuffix));
}

#[test]
fn no_suffix_domain_length_rejected() {
    assert_eq!(classify("xiler"), Err(DomainError::MissingSuffix));
}

#[test]
fn no_prefix_domain_length_rejected() {
    assert_eq!(classify(".o"), Err(DomainError::EmptyName));
}

#[test]
fn only_suffix_domain_length_rejected() {
    assert_eq!(classify("o"), Err(DomainError::MissingSuffix));
}

#[test]
fn only_dot_domain_length_rejected() {
    assert_eq!(classify("."), Err(DomainError::MissingSuffix));
}

#[test]
fn other_suffix_rejected() {
    assert_eq!(classify("xiler.io"), Err(DomainError::MissingSuffix));
    assert_eq!(classify("xiler.oo"), Err(DomainError::MissingSuffix));
    assert_eq!(classify("xiler-o"), Err(DomainError::MissingSuffix));
}

#[test]
fn classify_ignores_case() {
    assert_eq!(classify("XILER.O"), classify("xiler.o"));
    assert_eq!(classify("X.O"), Ok(DomainLength::SingleCharacter));
    assert_eq!(classify("Xi.o"), Ok(DomainLength::VeryShort));
}

#[test]
fn classify_lowercase_keeps_case() {
    assert_eq!(classify_lowercase("x.O"), Err(DomainError::MissingSuffix));
    assert_eq!(classify_lowercase("abc.o"), Ok(DomainLength::Short));
}

#[test]
fn classify_counts_characters() {
    assert_eq!(classify("éé.o"), Ok(DomainLength::VeryShort));
}

#[test]
fn single_character_domain_length_to_string() {
    assert_eq!(DomainLength::SingleCharacter.to_string(), "SingleCharacter".to_string());
}

#[test]
fn very_short_domain_length_to_string() {
    assert_eq!(DomainLength::VeryShort.to_string(), "VeryShort".to_string());
}

#[test]
fn short_domain_length_to_string() {
    assert_eq!(DomainLength::Short.to_string(), "Short".to_string());
}

#[test]
fn normal_domain_length_to_string() {
    assert_eq!(DomainLength::Normal.to_string(), "Normal".to_string());
}
