use hamlog::adif::{adif_parse, CallsignInfo};
use hamlog::band::Band;
use hamlog::call::Call;
use hamlog::datetime::UtcDateTime;
use hamlog::fcc::{Entity, FccData, FccInfo};
use hamlog::grid::GridError;
use hamlog::log::{ImportError, LogEntry};
use hamlog::lotw::{Identity, LoTWStatus, LotwCertificate};
use hamlog::Mode;

#[test]
fn test_prefix() {
    let call = Call::new("KK4WJS".to_string());
    assert_eq!(call.prefix(), Some("KK4".to_string()));
}

#[test]
fn test_from_entity() {
    //let call = Call::from_entity(entity);
    //assert_eq!(grid, Err(GridError::InvalidLength(5)));
}

#[test]
fn prefix_without_digit() {
    let call = Call::new("QQQQ".to_string());
    assert_eq!(call.prefix(), None);
}

#[test]
fn call_is_uppercased() {
    let call = Call::new("kk4wjs".to_string());
    assert_eq!(call.call(), "KK4WJS");
}

#[test]
fn call_setters_and_getters() {
    let mut call = Call::new("W1AW".to_string());
    call.set_op(Some("Hiram".to_string()));
    call.set_qth(Some("Newington".to_string()));
    call.set_state(Some("CT".to_string()));
    call.set_address(Some("225 Main St".to_string()));
    assert_eq!(call.op(), Some("Hiram".to_string()));
    assert_eq!(call.qth(), Some("Newington".to_string()));
    assert_eq!(call.state(), Some("CT".to_string()));
    assert_eq!(call.address(), Some("225 Main St".to_string()));
}

#[test]
fn lotw_status_round_trip() {
    let mut call = Call::new("W1AW".to_string());
    assert_eq!(call.lotw(), LoTWStatus::Unknown);
    call.set_lotw(LoTWStatus::Registered);
    assert_eq!(call.lotw(), LoTWStatus::Registered);
    call.set_lotw(LoTWStatus::Unregistered);
    assert_eq!(call.lotw(), LoTWStatus::Unregistered);
    let when = UtcDateTime { year: 2024, month: 1, day: 2, hour: 3, minute: 4, second: 5 };
    call.set_lotw(LoTWStatus::LastUpload(when));
    assert_eq!(call.lotw(), LoTWStatus::LastUpload(when));
    call.set_lotw(LoTWStatus::Unknown);
    assert_eq!(call.lotw(), LoTWStatus::Unknown);
}

#[test]
fn band_classification() {
    assert_eq!(Band::new(14074000), Band::TwentyMeters(14074000));
    assert_eq!(Band::new(7074000), Band::FortyMeters(7074000));
    assert_eq!(Band::new(135700), Band::TwentyTwoHundredMeters(135700));
    assert_eq!(Band::new(13999999), Band::Unknown(13999999));
    assert_eq!(Band::new(-5), Band::Unknown(-5));
}

#[test]
fn band_labels_and_colors() {
    assert_eq!(Band::new(14074000).band(), Some("20m"));
    assert_eq!(Band::new(14074000).color(), Some("#f2c40c"));
    assert_eq!(Band::new(0).band(), None);
    assert_eq!(Band::new(0).color(), None);
    assert_eq!(Band::new(14074000).frequency(), 14074000);
}

#[test]
fn mode_recognition() {
    assert_eq!(Mode::new("ft8".to_string()), Mode::FT8);
    assert_eq!(Mode::new("FT8".to_string()), Mode::FT8);
    assert_eq!(Mode::new("cw".to_string()), Mode::CW);
    assert_eq!(Mode::new("multipsk".to_string()), Mode::Multipsk);
    assert_eq!(Mode::new("weird".to_string()), Mode::Other("weird".to_string()));
}

#[test]
fn mode_text() {
    assert_eq!(Mode::new("ft8".to_string()).mode(), "FT8");
    assert_eq!(Mode::new("digiu".to_string()).mode(), "DigiU");
    assert_eq!(Mode::new("weird".to_string()).mode(), "weird");
}

#[test]
fn fcc_default_is_empty() {
    let data = FccData::default();
    assert_eq!(data.class, None);
    assert_eq!(data.previous_call, None);
    assert_eq!(data.status, None);
}

fn sample_entity() -> Entity {
    Entity {
        RecordType: "EN".to_string(),
        USI: 1,
        ULS: None,
        EFB: None,
        CallSign: "kk4wjs".to_string(),
        EntityType: "L".to_string(),
        LicenceID: "1".to_string(),
        FullName: "Sample Operator".to_string(),
        FirstName: "Sample".to_string(),
        MiddleInitial: "".to_string(),
        LastName: "Operator".to_string(),
        Suffix: None,
        Phone: None,
        Fax: None,
        Email: None,
        Address: "1 Radio Way".to_string(),
        City: "Atlanta".to_string(),
        State: "GA".to_string(),
        ZipCode: "30301".to_string(),
        PoBox: None,
        FRN: "1".to_string(),
    }
}

#[test]
fn entity_to_call() {
    let call = Call::from_entity(sample_entity());
    assert_eq!(call.call(), "KK4WJS");
    assert_eq!(call.op(), Some("Sample Operator".to_string()));
    assert_eq!(call.address(), Some("1 Radio Way".to_string()));
    assert_eq!(call.qth(), Some("Atlanta".to_string()));
    assert_eq!(call.state(), Some("GA".to_string()));
    assert_eq!(call.lotw(), LoTWStatus::Unknown);
}

#[test]
fn entity_refreshes_call() {
    let mut base = Call::new("KK4WJS".to_string());
    base.set_lotw(LoTWStatus::Registered);
    let updated = base.with_entity(sample_entity());
    assert_eq!(updated.call(), "KK4WJS");
    assert_eq!(updated.op(), Some("Sample Operator".to_string()));
    assert_eq!(updated.lotw(), LoTWStatus::Registered);
}

#[test]
fn certificate_builders() {
    let call = Call::new("W1AW".to_string());
    let cert = LotwCertificate::from_call(&call)
        .with_name("Hiram".to_string())
        .with_email("hiram@example.org".to_string());
    assert_eq!(cert.call().call(), "W1AW");
    assert_eq!(cert.name(), Some("Hiram".to_string()));
    assert_eq!(cert.email(), Some("hiram@example.org".to_string()));
    assert_eq!(Identity::Unknown.call(), None);
    let id = Identity::ClientCertificate(cert);
    assert_eq!(id.call().map(|c| c.call()), Some("W1AW".to_string()));
}

fn full_record_input() -> &'static str {
    "<eoh><call:5>kk4wj<station_callsign:4>W1AW<my_gridsquare:4>FN31<gridsquare:6>EM73tk\
     <freq:6>14.074<qso_date:8>20240102<time_on:4>1245<mode:3>FT8\
     <comment:5>hello<lotw_qsl_sent:1>Y<lotw_qsl_rcvd:1>N<eor>"
}

#[test]
fn import_full_record() {
    let file = adif_parse("t", full_record_input()).unwrap();
    let entry = LogEntry::from_adif_record(&file.records()[0]).unwrap();
    assert_eq!(entry.call.call(), "KK4WJ");
    assert_eq!(entry.from_id.call(), "W1AW");
    assert_eq!(entry.frequency, Band::TwentyMeters(14074000));
    assert_eq!(
        entry.date,
        UtcDateTime { year: 2024, month: 1, day: 2, hour: 12, minute: 45, second: 0 }
    );
    assert_eq!(entry.mode, Mode::FT8);
    assert_eq!(entry.comment, Some("hello".to_string()));
    assert_eq!(entry.rst_sent, None);
    assert_eq!(entry.rst_received, None);
    assert!(entry.lotw_qsl_sent);
    assert!(!entry.lotw_qsl_rcvd);
    // a freshly drawn identifier carries the version-4 marker
    assert_eq!((entry.id >> 76) & 0xf, 4);
    assert_eq!(entry.call.grid().as_ref().map(|g| g.full()), Some("EM73tk".to_string()));
    assert_eq!(entry.call.lotw(), LoTWStatus::Unknown);
    assert_eq!(entry.from_id.lotw(), LoTWStatus::Registered);
}

#[test]
fn import_missing_fields() {
    let no_call = adif_parse("t", "<eoh><station_callsign:4>W1AW<eor>").unwrap();
    assert_eq!(
        LogEntry::from_adif_record(&no_call.records()[0]),
        Err(ImportError::MissingCall)
    );
    let no_my = adif_parse("t", "<eoh><call:5>KK4WJ<eor>").unwrap();
    assert_eq!(
        LogEntry::from_adif_record(&no_my.records()[0]),
        Err(ImportError::MissingMyCall)
    );
    let no_freq =
        adif_parse("t", "<eoh><call:5>KK4WJ<station_callsign:4>W1AW<eor>").unwrap();
    assert_eq!(
        LogEntry::from_adif_record(&no_freq.records()[0]),
        Err(ImportError::MissingFrequency)
    );
    let no_date = adif_parse(
        "t",
        "<eoh><call:5>KK4WJ<station_callsign:4>W1AW<freq:6>14.074<eor>",
    )
    .unwrap();
    assert_eq!(
        LogEntry::from_adif_record(&no_date.records()[0]),
        Err(ImportError::MissingDateTime)
    );
    let no_mode = adif_parse(
        "t",
        "<eoh><call:5>KK4WJ<station_callsign:4>W1AW<freq:6>14.074<qso_date:8>20240102<time_on:4>1245<eor>",
    )
    .unwrap();
    assert_eq!(
        LogEntry::from_adif_record(&no_mode.records()[0]),
        Err(ImportError::MissingMode)
    );
}

#[test]
fn import_rejects_malformed_grid() {
    let file = adif_parse("t", "<eoh><call:5>KK4WJ<gridsquare:2>EM<eor>").unwrap();
    assert_eq!(
        LogEntry::from_adif_record(&file.records()[0]),
        Err(ImportError::InvalidGrid(GridError::InvalidLength(2)))
    );
    let file = adif_parse("t", "<eoh><call:5>KK4WJ<gridsquare:6>EMtk73<eor>").unwrap();
    assert_eq!(
        LogEntry::from_adif_record(&file.records()[0]),
        Err(ImportError::InvalidGrid(GridError::InvalidFormat))
    );
}

#[test]
fn import_rejects_unreal_date() {
    let input = "<eoh><call:5>KK4WJ<station_callsign:4>W1AW<freq:6>14.074\
                 <qso_date:8>20240230<time_on:4>1245<mode:3>FT8<eor>";
    let file = adif_parse("t", input).unwrap();
    assert_eq!(
        LogEntry::from_adif_record(&file.records()[0]),
        Err(ImportError::MissingDateTime)
    );
}

#[test]
fn callsign_info_reads_both_sides() {
    let file = adif_parse("t", full_record_input()).unwrap();
    let rec = &file.records()[0];
    let theirs = Call::call_from_adif_record(rec).unwrap().unwrap();
    assert_eq!(theirs.call(), "KK4WJ");
    let mine = Call::my_call_from_adif_record(rec).unwrap().unwrap();
    assert_eq!(mine.call(), "W1AW");
    assert_eq!(mine.grid().as_ref().map(|g| g.full()), Some("FN31".to_string()));
}

#[test]
fn freq_out_of_range_is_unknown_band() {
    let input = "<eoh><call:5>KK4WJ<station_callsign:4>W1AW<freq:4>2148\
                 <qso_date:8>20240102<time_on:4>1245<mode:3>FT8<eor>";
    let file = adif_parse("t", input).unwrap();
    let entry = LogEntry::from_adif_record(&file.records()[0]).unwrap();
    assert_eq!(entry.frequency, Band::Unknown(2147483647));
}

#[test]
fn freq_fraction_truncated_to_hertz() {
    let input = "<eoh><call:5>KK4WJ<station_callsign:4>W1AW<freq:10>14.0745678\
                 <qso_date:8>20240102<time_on:4>1245<mode:3>FT8<eor>";
    let file = adif_parse("t", input).unwrap();
    let entry = LogEntry::from_adif_record(&file.records()[0]).unwrap();
    assert_eq!(entry.frequency, Band::TwentyMeters(14074567));
}

#[test]
fn freq_unreadable_is_missing_frequency() {
    let input = "<eoh><call:5>KK4WJ<station_callsign:4>W1AW<freq:4>1e+2\
                 <qso_date:8>20240102<time_on:4>1245<mode:3>FT8<eor>";
    let file = adif_parse("t", input).unwrap();
    assert_eq!(
        LogEntry::from_adif_record(&file.records()[0]),
        Err(ImportError::MissingFrequency)
    );
}
