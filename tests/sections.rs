use tmm_parser::{section_header, split_blocks, SectionError, SectionKind};

#[test]
fn header_with_subordinate() {
    let h = section_header("HEADER NODE DATA, SUB1\n    10, 70.0, 0.006\n").unwrap();
    assert_eq!(h.kind, SectionKind::Node);
    assert_eq!(h.subordinate.as_deref(), Some("SUB1"));
}

#[test]
fn header_without_subordinate() {
    let h = section_header("HEADER OPTIONS DATA\nTITLE X\n").unwrap();
    assert_eq!(h.kind, SectionKind::Options);
    assert_eq!(h.subordinate, None);
    let h = section_header("HEADER OPERATIONS").unwrap();
    assert_eq!(h.kind, SectionKind::Operations);
}

#[test]
fn every_known_section() {
    let names = [
        ("HEADER CONDUCTOR DATA, SUB1\n", SectionKind::Conductor),
        ("HEADER CONTROL DATA, GLOBAL\n", SectionKind::Control),
        ("HEADER SOURCE DATA, SUB1\n", SectionKind::Source),
    ];
    for (text, kind) in names {
        assert_eq!(section_header(text).unwrap().kind, kind);
    }
}

#[test]
fn unknown_section_carries_its_line() {
    match section_header("HEADER REGISTER DATA\nX = 1\n") {
        Err(SectionError::UnrecognizedSection(line)) => assert_eq!(line, "HEADER REGISTER DATA"),
        Ok(_) => panic!("an unknown section was accepted"),
    }
    match section_header("preamble line\nmore\n") {
        Err(SectionError::UnrecognizedSection(line)) => assert_eq!(line, "preamble line"),
        Ok(_) => panic!("a preamble was accepted"),
    }
}

#[test]
fn dispatch_of_every_block() {
    let input = "HEADER OPTIONS DATA\nHEADER BOGUS\nHEADER NODE DATA, SUB1\n";
    let kinds: Vec<Option<SectionKind>> = split_blocks(input)
        .into_iter()
        .map(|b| section_header(b).ok().map(|h| h.kind))
        .collect();
    assert_eq!(
        kinds,
        vec![Some(SectionKind::Options), None, Some(SectionKind::Node)]
    );
}

#[test]
fn marker_needs_a_blank_after_it() {
    match section_header("HEADERNODE DATA\n") {
        Err(SectionError::UnrecognizedSection(line)) => assert_eq!(line, "HEADERNODE DATA"),
        Ok(_) => panic!("a marker without a blank was accepted"),
    }
    assert_eq!(
        section_header("HEADER\tNODE DATA\n").unwrap().kind,
        SectionKind::Node
    );
}
