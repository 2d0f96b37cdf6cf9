use kubizone::{DomainSegment, FullyQualifiedDomainName, Pattern, PatternSegment, PatternSegmentError};

#[test]
fn literal_matches() {
    assert!(
        PatternSegment::try_from("example")
            .unwrap()
            .matches(&DomainSegment::try_from("example").unwrap())
    )
}

#[test]
fn wildcard() {
    assert!(
        PatternSegment::try_from("*")
            .unwrap()
            .matches(&DomainSegment::try_from("example").unwrap())
    )
}

#[test]
fn leading_wildcard() {
    assert!(
        PatternSegment::try_from("*ample")
            .unwrap()
            .matches(&DomainSegment::try_from("example").unwrap())
    )
}

#[test]
fn trailing_wildcard() {
    assert!(
        PatternSegment::try_from("examp*")
            .unwrap()
            .matches(&DomainSegment::try_from("example").unwrap())
    )
}

#[test]
fn splitting_wildcard() {
    assert!(
        PatternSegment::try_from("ex*le")
            .unwrap()
            .matches(&DomainSegment::try_from("example").unwrap())
    )
}

#[test]
fn multiple_wildcards() {
    assert_eq!(
        PatternSegment::try_from("*amp*"),
        Err(PatternSegmentError::MultipleWildcards)
    );
}

#[test]
fn simple_pattern_match() {
    assert!(
        Pattern::try_from("*.example.org")
            .unwrap()
            .matches(&FullyQualifiedDomainName::try_from("www.example.org.").unwrap())
    );
}

#[test]
fn longer_pattern_than_domain() {
    assert!(
        !Pattern::try_from("*.*.example.org")
            .unwrap()
            .matches(&FullyQualifiedDomainName::try_from("www.example.org.").unwrap())
    );
}

#[test]
fn longer_domain_than_pattern() {
    assert!(Pattern::try_from("*.example.org").unwrap().matches(
        &FullyQualifiedDomainName::try_from("www.sub.test.dev.example.org.").unwrap()
    ));
}

#[test]
fn wildcard_segments() {
    let pattern = Pattern::try_from("dev*.example.org").unwrap();

    assert!(pattern.matches(&FullyQualifiedDomainName::try_from("dev.example.org.").unwrap()));
    assert!(pattern.matches(&FullyQualifiedDomainName::try_from("dev-1.example.org.").unwrap()));
    assert!(
        pattern.matches(&FullyQualifiedDomainName::try_from("dev-hello.example.org.").unwrap())
    );
    assert!(!pattern.matches(&FullyQualifiedDomainName::try_from("de.example.org.").unwrap()));
    assert!(
        !pattern.matches(&FullyQualifiedDomainName::try_from("www.dev-1.example.org.").unwrap())
    );
}

#[test]
fn patterns_assumed_wildcard() {
    let fqdn = Pattern::try_from("example.org.").unwrap();
    let pqdn = Pattern::try_from("example.org").unwrap();
    assert_eq!(fqdn, pqdn);

    assert_eq!(
        fqdn.matches(&FullyQualifiedDomainName::try_from("example.org.").unwrap()),
        pqdn.matches(&FullyQualifiedDomainName::try_from("example.org.").unwrap())
    );
}

#[test]
fn origin_insertion() {
    let pattern = Pattern::try_from("example").unwrap();

    let domain = FullyQualifiedDomainName::try_from("example.org.").unwrap();

    assert!(!pattern.matches(&domain));

    assert!(
        pattern
            .with_origin(&FullyQualifiedDomainName::try_from("org.").unwrap())
            .matches(&FullyQualifiedDomainName::try_from("example.org.").unwrap())
    );
}

#[test]
fn pattern_text_round_trip() {
    let pattern = Pattern::try_from("dev*.Example.org.").unwrap();
    assert_eq!(pattern.to_text(), "dev*.example.org.");
    assert_eq!(Pattern::origin().to_text(), "");
}

#[test]
fn pattern_segment_errors() {
    assert_eq!(
        PatternSegment::try_from(""),
        Err(PatternSegmentError::EmptyString)
    );
    assert_eq!(
        PatternSegment::try_from("exa~mple"),
        Err(PatternSegmentError::InvalidCharacter('~'))
    );
    assert_eq!(
        PatternSegment::try_from("-example"),
        Err(PatternSegmentError::IllegalHyphen(1))
    );
    assert_eq!(
        PatternSegment::try_from("example-"),
        Err(PatternSegmentError::IllegalHyphen(8))
    );
    assert_eq!(
        PatternSegment::try_from("ab--cd"),
        Err(PatternSegmentError::IllegalHyphen(3))
    );
    let long = "a".repeat(64);
    assert_eq!(
        PatternSegment::try_from(long.as_str()),
        Err(PatternSegmentError::TooLong(64))
    );
    assert_eq!(PatternSegment::try_from("exam*ple").unwrap().len(), 8);
}
