use tmm_parser::{parse_options_data, OptionsError};

#[test]
fn test_parse_options_data() {
    let input = r#"HEADER OPTIONS DATA
    OUTPUT = BAR.OUT
    MODEL = TEST
TITLE HEATED BAR SAMPLE PROBLEM
    SAVE = BAR.SAV
"#;

    let (remaining_input, data) = parse_options_data(input).unwrap();
    println!("{:?}", data);
    assert_eq!(remaining_input, "");
    assert_eq!(data.title.unwrap(), "HEATED BAR SAMPLE PROBLEM");
    assert_eq!(data.output, "BAR.OUT");
    assert_eq!(data.save, "BAR.SAV");
    assert_eq!(data.model.unwrap(), "TEST");
}

#[test]
fn header_alone_gives_defaults() {
    let (rest, data) = parse_options_data("HEADER OPTIONS DATA\n").unwrap();
    assert_eq!(rest, "");
    assert_eq!(data.title, None);
    assert_eq!(data.rsi, None);
    assert_eq!(data.rso, None);
    assert_eq!(data.output, "case0.out");
    assert_eq!(data.save, "case0.sav");
    assert_eq!(data.redb, None);
    assert_eq!(data.mline, 10000);
    assert!(!data.spelloff);
    assert_eq!(data.endchar, "$");
    assert_eq!(data.model, None);
}

#[test]
fn every_option_is_read() {
    let input = "HEADER OPTIONS DATA  \nRSI = in.rst\nRSO=out.rst\nREDB = db\nMLINE = -42\nSPELLOFF = true\nENDCHAR = #\n";
    let (rest, data) = parse_options_data(input).unwrap();
    assert_eq!(rest, "");
    assert_eq!(data.rsi.as_deref(), Some("in.rst"));
    assert_eq!(data.rso.as_deref(), Some("out.rst"));
    assert_eq!(data.redb.as_deref(), Some("db"));
    assert_eq!(data.mline, -42);
    assert!(data.spelloff);
    assert_eq!(data.endchar, "#");
}

#[test]
fn unknown_key_stops_reading() {
    let input = "HEADER OPTIONS DATA\nMODEL = A\nFOO = 1\nSAVE = x\n";
    let (rest, data) = parse_options_data(input).unwrap();
    assert_eq!(rest, "FOO = 1\nSAVE = x\n");
    assert_eq!(data.model.as_deref(), Some("A"));
    assert_eq!(data.save, "case0.sav");
}

#[test]
fn unrecognized_line_stops_reading() {
    let input = "HEADER OPTIONS DATA\nOUTPUT = o\nBUILD ALL\n";
    let (rest, data) = parse_options_data(input).unwrap();
    assert_eq!(rest, "BUILD ALL\n");
    assert_eq!(data.output, "o");
}

#[test]
fn last_line_without_newline_is_left() {
    let input = "HEADER OPTIONS DATA\nOUTPUT = o\nSAVE = s";
    let (rest, data) = parse_options_data(input).unwrap();
    assert_eq!(rest, "SAVE = s");
    assert_eq!(data.output, "o");
    assert_eq!(data.save, "case0.sav");
}

#[test]
fn title_needs_a_blank() {
    let input = "HEADER OPTIONS DATA\nTITLEX\n";
    let (rest, data) = parse_options_data(input).unwrap();
    assert_eq!(rest, "TITLEX\n");
    assert_eq!(data.title, None);
}

#[test]
fn other_header_is_refused() {
    assert_eq!(
        parse_options_data("HEADER NODE DATA\n").unwrap_err(),
        OptionsError::MissingHeader
    );
    assert_eq!(
        parse_options_data("HEADER OPTIONS DATA X\n").unwrap_err(),
        OptionsError::MissingHeader
    );
    assert_eq!(
        parse_options_data("HEADER OPTIONS DATA").unwrap_err(),
        OptionsError::MissingHeader
    );
}

#[test]
fn malformed_mline_is_an_error() {
    let input = "HEADER OPTIONS DATA\nMLINE = ten\n";
    assert_eq!(
        parse_options_data(input).unwrap_err(),
        OptionsError::MalformedAssignment
    );
    let input = "HEADER OPTIONS DATA\nMLINE = 99999999999999999999999\n";
    assert_eq!(
        parse_options_data(input).unwrap_err(),
        OptionsError::MalformedAssignment
    );
}

#[test]
fn malformed_spelloff_is_an_error() {
    let input = "HEADER OPTIONS DATA\nSPELLOFF = yes\n";
    assert_eq!(
        parse_options_data(input).unwrap_err(),
        OptionsError::MalformedAssignment
    );
}

#[test]
fn mline_with_plus_sign() {
    let input = "HEADER OPTIONS DATA\nMLINE = +60\nSPELLOFF = false\n";
    let (_, data) = parse_options_data(input).unwrap();
    assert_eq!(data.mline, 60);
    assert!(!data.spelloff);
}

#[test]
fn indented_title_is_read() {
    let input = "HEADER OPTIONS DATA\n    TITLE HEATED BAR\n\tTITLE\tSECOND  \n";
    let (rest, data) = parse_options_data(input).unwrap();
    assert_eq!(rest, "");
    assert_eq!(data.title.as_deref(), Some("SECOND"));
    let (rest, data) = parse_options_data("HEADER OPTIONS DATA\n    TITLE HEATED BAR\n").unwrap();
    assert_eq!(rest, "");
    assert_eq!(data.title.as_deref(), Some("HEATED BAR"));
}

#[test]
fn bare_title_is_empty() {
    let (rest, data) = parse_options_data("HEADER OPTIONS DATA\n  TITLE\n").unwrap();
    assert_eq!(rest, "");
    assert_eq!(data.title.as_deref(), Some(""));
}

#[test]
fn indented_longer_word_is_no_title() {
    let input = "HEADER OPTIONS DATA\n  TITLES X\n";
    let (rest, data) = parse_options_data(input).unwrap();
    assert_eq!(rest, "  TITLES X\n");
    assert_eq!(data.title, None);
}

#[test]
fn title_with_assignment_is_an_unknown_key() {
    let input = "HEADER OPTIONS DATA\nTITLE X = 5\n";
    let (rest, data) = parse_options_data(input).unwrap();
    assert_eq!(rest, "TITLE X = 5\n");
    assert_eq!(data.title, None);
}

#[test]
fn unicode_white_space_is_trimmed() {
    let input = "HEADER OPTIONS DATA\nMODEL =\u{a0}M1\u{3000}\n";
    let (_, data) = parse_options_data(input).unwrap();
    assert_eq!(data.model.as_deref(), Some("M1"));
}
