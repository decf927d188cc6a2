use hamlog::adif::{adif_parse, adif_dump, adif_select_failing, AdifDumpWhichRecords, AdifParseError};

#[test]
fn value_may_contain_tag_characters() {
    // The declared length, not the next '<' or '>', bounds the value.
    let file = adif_parse("t", "<note:5>a<b>c<eor>").unwrap();
    assert_eq!(file.records().len(), 1);
    assert_eq!(file.records()[0].adir_field_values.get("note"), Some(&"a<b>c".to_string()));
}

#[test]
fn header_text_is_skipped() {
    let input = "my log <made with> stuff\n<eoh>\n<call:5>KK4WJ<eor>";
    let file = adif_parse("t", input).unwrap();
    assert_eq!(file.records().len(), 1);
    assert_eq!(file.records()[0].adir_field_values.get("call"), Some(&"KK4WJ".to_string()));
    assert_eq!(file.records()[0].adir_field_values.get("my"), None);
    assert_eq!(file.records()[0].adir_field_values.get("log"), None);
}

#[test]
fn no_header_marker_means_no_header() {
    let file = adif_parse("t", "<call:5>KK4WJ<eor>").unwrap();
    assert_eq!(file.records().len(), 1);
    assert_eq!(file.records()[0].adir_field_values.get("call"), Some(&"KK4WJ".to_string()));
}

#[test]
fn field_names_case_insensitive() {
    let file = adif_parse("t", "<CALL:2>AA<eor>").unwrap();
    let rec = &file.records()[0];
    assert_eq!(rec.adir_field_values.get("call"), Some(&"AA".to_string()));
    assert_eq!(rec.adir_field_values.get("Call"), Some(&"AA".to_string()));
    assert_eq!(rec.adir_field_values.get("CALL"), Some(&"AA".to_string()));
}

#[test]
fn duplicate_field_first_wins() {
    let file = adif_parse("t", "<call:2>AA<CALL:2>BB<eor>").unwrap();
    let rec = &file.records()[0];
    assert_eq!(rec.adir_field_values.get("call"), Some(&"AA".to_string()));
}

#[test]
fn unterminated_record_not_emitted() {
    let file = adif_parse("t", "<call:5>KK4WJ<eor><mode:3>FT8").unwrap();
    assert_eq!(file.records().len(), 1);
}

#[test]
fn sentinel_names_case_insensitive() {
    let file = adif_parse("t", "junk<EOH><call:2>AA<EOR>").unwrap();
    assert_eq!(file.records().len(), 1);
    assert_eq!(file.records()[0].adir_field_values.get("call"), Some(&"AA".to_string()));
}

#[test]
fn eoh_mid_stream_is_separator() {
    let file = adif_parse("t", "<eoh><call:2>AA<eoh><mode:3>FT8<eor>").unwrap();
    assert_eq!(file.records().len(), 1);
    let rec = &file.records()[0];
    assert_eq!(rec.adir_field_values.get("call"), Some(&"AA".to_string()));
    assert_eq!(rec.adir_field_values.get("mode"), Some(&"FT8".to_string()));
}

#[test]
fn type_hint_is_carried_not_interpreted() {
    let file = adif_parse("t", "<call:2:S>AA<eor>").unwrap();
    assert_eq!(file.records()[0].adir_field_values.get("call"), Some(&"AA".to_string()));
}

#[test]
fn unterminated_tag_header_is_bad_input() {
    let err = adif_parse("t", "<call:5>KK4WJ<eor><oops").unwrap_err();
    assert!(matches!(err, AdifParseError::ADIF_EBADINPUT(_)));
}

#[test]
fn non_numeric_length_is_bad_input() {
    let err = adif_parse("t", "<call:xy>AA<eor>").unwrap_err();
    assert!(matches!(err, AdifParseError::ADIF_EBADINPUT(_)));
}

#[test]
fn missing_length_is_bad_input() {
    let err = adif_parse("t", "<call>AA<eor>").unwrap_err();
    assert!(matches!(err, AdifParseError::ADIF_EBADINPUT(_)));
}

#[test]
fn length_overrun_is_bad_input() {
    let err = adif_parse("t", "<call:9>AA").unwrap_err();
    assert!(matches!(err, AdifParseError::ADIF_EBADINPUT(_)));
}

#[test]
fn bad_input_message_names_label_and_position() {
    let err = adif_parse("mylog.adi", "<oops").unwrap_err();
    assert_eq!(
        err.message(),
        "input error: mylog.adi: malformed tag at character offset 0"
    );
}

#[test]
fn error_messages_by_kind() {
    assert_eq!(
        AdifParseError::ADIF_EIO("boom".to_string()).message(),
        "I/O error: boom"
    );
    assert_eq!(
        AdifParseError::ADIF_ENOT_YET_IMPLEMENTED("adx".to_string()).message(),
        "not yet implemented: adx"
    );
}

#[test]
fn parse_keeps_label() {
    let file = adif_parse("stations.adi", "<eoh>").unwrap();
    assert_eq!(file.adif_label, "stations.adi");
    assert_eq!(file.records().len(), 0);
}

#[test]
fn two_record_end_to_end() {
    let input = "Generated log\n<eoh>\n\
        <call:5>KK4WJ<station_callsign:4>W1AW<freq:6>14.074<qso_date:8>20240102<time_on:4>1245<mode:3>FT8<eor>\n\
        <call:4>N0AX<station_callsign:4>W1AW<freq:5>7.074<qso_date:8>20240103<time_on:4>0001<mode:2>CW<eor>\n";
    let file = adif_parse("two.adi", input).unwrap();
    assert_eq!(file.records().len(), 2);
    let r1 = &file.records()[0];
    assert_eq!(r1.adir_field_values.get("CALL"), Some(&"KK4WJ".to_string()));
    assert_eq!(r1.adir_field_values.get("station_callsign"), Some(&"W1AW".to_string()));
    assert_eq!(r1.adir_field_values.get("freq"), Some(&"14.074".to_string()));
    assert_eq!(r1.adir_field_values.get("qso_date"), Some(&"20240102".to_string()));
    assert_eq!(r1.adir_field_values.get("time_on"), Some(&"1245".to_string()));
    assert_eq!(r1.adir_field_values.get("mode"), Some(&"FT8".to_string()));
    let r2 = &file.records()[1];
    assert_eq!(r2.adir_field_values.get("call"), Some(&"N0AX".to_string()));
    assert_eq!(r2.adir_field_values.get("MODE"), Some(&"CW".to_string()));
}

#[test]
fn dump_all_and_missing_field() {
    let input = "<eoh><call:2>AA<name:3>Bob<eor><call:2>BB<eor>";
    let file = adif_parse("t", input).unwrap();
    let all = adif_dump(&file, &AdifDumpWhichRecords::All);
    assert_eq!(all.len(), 2);
    let missing = adif_dump(&file, &AdifDumpWhichRecords::MissingField("name".to_string()));
    assert_eq!(missing.len(), 1);
    assert_eq!(missing[0].adir_field_values.get("call"), Some(&"BB".to_string()));
}

#[test]
fn select_failing_records() {
    let input = "<eoh><call:2>AA<eor><call:2>BB<eor><call:2>CC<eor>";
    let file = adif_parse("t", input).unwrap();
    let failing = adif_select_failing(&file, |rec| {
        rec.adir_field_values.get("call") != Some(&"BB".to_string())
    });
    assert_eq!(failing.len(), 1);
    assert_eq!(failing[0].adir_field_values.get("call"), Some(&"BB".to_string()));
}

#[test]
fn lexer_tokens_recover_tag_exactly() {
    let chars: Vec<char> = "<x:3>a<b<eor>".chars().collect();
    let toks = hamlog::adi::lex_tokens(&chars, 0).unwrap();
    assert_eq!(toks.len(), 2);
    match &toks[0] {
        hamlog::adi::AdiToken::Field { name, length, type_hint, value } => {
            assert_eq!(name, "x");
            assert_eq!(*length, 3);
            assert_eq!(*type_hint, None);
            assert_eq!(value, "a<b");
        }
        _ => panic!("expected a field token"),
    }
    assert!(matches!(toks[1], hamlog::adi::AdiToken::EndOfRecord));
}
