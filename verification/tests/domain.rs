use kubizone::{
    DomainName, DomainNameError, DomainSegment, DomainSegmentError, FullyQualifiedDomainName,
    FullyQualifiedDomainNameError, PartiallyQualifiedDomainName,
    PartiallyQualifiedDomainNameError,
};

#[test]
fn segment_round_trip_lowercases() {
    assert_eq!(
        DomainSegment::try_from("ExAmPlE").unwrap().as_str(),
        "example"
    );
    assert_eq!(DomainSegment::try_from("a-b_c9").unwrap().as_str(), "a-b_c9");
    assert_eq!(DomainSegment::try_from("*").unwrap().as_str(), "*");
    assert!(DomainSegment::try_from("*").unwrap().is_wildcard());
    assert!(!DomainSegment::try_from("ab").unwrap().is_wildcard());
}

#[test]
fn segment_errors() {
    assert_eq!(
        DomainSegment::try_from(""),
        Err(DomainSegmentError::EmptyString)
    );
    assert_eq!(
        DomainSegment::try_from("exa*mple"),
        Err(DomainSegmentError::InvalidCharacter('*'))
    );
    assert_eq!(
        DomainSegment::try_from("ex!ample"),
        Err(DomainSegmentError::InvalidCharacter('!'))
    );
    assert_eq!(
        DomainSegment::try_from("-example"),
        Err(DomainSegmentError::IllegalHyphen(1))
    );
    assert_eq!(
        DomainSegment::try_from("example-"),
        Err(DomainSegmentError::IllegalHyphen(8))
    );
    assert_eq!(
        DomainSegment::try_from("xy--zw"),
        Err(DomainSegmentError::IllegalHyphen(3))
    );
    let long = "b".repeat(64);
    assert_eq!(
        DomainSegment::try_from(long.as_str()),
        Err(DomainSegmentError::TooLong(64))
    );
    let just_fits = "b".repeat(63);
    assert!(DomainSegment::try_from(just_fits.as_str()).is_ok());
}

#[test]
fn domain_name_qualification() {
    let full = DomainName::try_from("example.org.").unwrap();
    assert!(full.is_fully_qualified());
    assert!(!full.is_partially_qualified());
    assert!(full.as_full().is_some());
    assert!(full.as_partial().is_none());
    assert_eq!(full.to_text(), "example.org.");
    assert_eq!(full.len(), 12);

    let partial = DomainName::try_from("example.org").unwrap();
    assert!(partial.is_partially_qualified());
    assert!(partial.as_partial().is_some());
    assert_eq!(partial.to_text(), "example.org");
    assert_eq!(partial.len(), 11);
}

#[test]
fn domain_name_errors() {
    assert_eq!(
        DomainName::try_from("www.*.org"),
        Err(DomainNameError::NonLeadingWildcard)
    );
    assert_eq!(
        DomainName::try_from("www..org"),
        Err(DomainNameError::SegmentError(DomainSegmentError::EmptyString))
    );
    assert_eq!(
        DomainName::try_from(""),
        Err(DomainNameError::SegmentError(DomainSegmentError::EmptyString))
    );
    assert!(DomainName::try_from("*.example.org").is_ok());
}

#[test]
fn fqdn_parsing() {
    assert_eq!(
        FullyQualifiedDomainName::try_from("example.org"),
        Err(FullyQualifiedDomainNameError::DomainIsPartiallyQualified)
    );
    assert_eq!(
        PartiallyQualifiedDomainName::try_from("example.org."),
        Err(PartiallyQualifiedDomainNameError::DomainIsFullyQualified)
    );
    let f = FullyQualifiedDomainName::try_from("WWW.Example.org.").unwrap();
    assert_eq!(f.to_text(), "www.example.org.");
    assert_eq!(f.len(), 16);
}

#[test]
fn with_origin_appends() {
    let partial = PartiallyQualifiedDomainName::try_from("www.example").unwrap();
    let origin = FullyQualifiedDomainName::try_from("org.").unwrap();
    let full = partial.with_origin(&origin);
    assert_eq!(full.to_text(), "www.example.org.");
}

#[test]
fn subdomain_relation() {
    let child = FullyQualifiedDomainName::try_from("www.example.org.").unwrap();
    let parent = FullyQualifiedDomainName::try_from("example.org.").unwrap();
    let top = FullyQualifiedDomainName::try_from("org.").unwrap();
    let other = FullyQualifiedDomainName::try_from("example.net.").unwrap();
    assert!(child.is_subdomain_of(&parent));
    assert!(child.is_subdomain_of(&top));
    assert!(!child.is_subdomain_of(&other));
    assert!(!parent.is_subdomain_of(&child));
    assert!(!child.is_subdomain_of(&child));
}

#[test]
fn qualification_conversions() {
    let full = FullyQualifiedDomainName::try_from("a.b.").unwrap();
    let partial = full.to_partially_qualified();
    assert_eq!(partial.to_text(), "a.b");
    assert_eq!(partial.to_fully_qualified().to_text(), "a.b.");

    let dn = DomainName::try_from("a.b").unwrap();
    assert_eq!(dn.to_fully_qualified().to_text(), "a.b.");
    assert_eq!(dn.into_fully_qualified().to_text(), "a.b.");
    assert_eq!(DomainName::default().to_text(), "");
    assert_eq!(DomainName::try_from("a.b.").unwrap().iter().len(), 2);
}
