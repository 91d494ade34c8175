use m5flat::error::{EnumKind, Field, FormatError};
use m5flat::file::{get_block_count, M5File, PlateBlock};
use m5flat::grid::{parse_time, ReadInfo};
use m5flat::settings::{PlateSettings, ReadMode, ReadType, Wavelength};

fn l(s: &str) -> Vec<u8> {
    s.as_bytes().to_vec()
}

fn lines(ss: &[&str]) -> Vec<Vec<u8>> {
    ss.iter().map(|s| l(s)).collect()
}

/// A 96-well Endpoint/Absorbance settings line: reads=1, one wavelength
/// 450 nm, rows 2, cols 2.
fn ea_settings_line() -> String {
    // tokens 0..6 then keys[0..15]; keys[2]=reads, keys[8]=wave count,
    // keys[9]=wavelengths, keys[10]=col start, keys[11]=col span,
    // keys[12]=plate size, keys[13]=row start, keys[14]=row span
    let mut toks = vec![""; 21];
    toks[1] = "MyPlate";
    toks[4] = "Endpoint";
    toks[5] = "Absorbance";
    toks[6 + 2] = "1";
    toks[6 + 8] = "1";
    toks[6 + 9] = "450";
    toks[6 + 10] = "1";
    toks[6 + 11] = "2";
    toks[6 + 12] = "96";
    toks[6 + 13] = "1";
    toks[6 + 14] = "2";
    toks.join("\t")
}

fn unit_header() -> &'static str {
    "\tTemperature(\u{00b0}C)\t1\t2"
}

#[test]
fn block_count_round_trip() {
    assert_eq!(get_block_count(&l("##BLOCKS=\t5")), Ok(5));
    assert_eq!(get_block_count(&l("##BLOCKS=\t0")), Ok(0));
    assert_eq!(get_block_count(&l("##BLOCKS=\t65535")), Ok(65535));
    assert_eq!(get_block_count(&l("##BLOCKS= 7")), Ok(7));
}

#[test]
fn block_count_missing_magic() {
    assert_eq!(get_block_count(&l("")), Err(FormatError::MissingMagic));
    assert_eq!(get_block_count(&l("##BLOCK=\t5")), Err(FormatError::MissingMagic));
    assert_eq!(get_block_count(&l("nonsense")), Err(FormatError::MissingMagic));
}

#[test]
fn block_count_malformed() {
    assert_eq!(get_block_count(&l("##BLOCKS=")), Err(FormatError::MalformedCount));
    assert_eq!(get_block_count(&l("##BLOCKS=\tx")), Err(FormatError::MalformedCount));
    assert_eq!(get_block_count(&l("##BLOCKS=\t65536")), Err(FormatError::MalformedCount));
}

#[test]
fn read_type_tokens() {
    assert_eq!(ReadType::from_str(&l("Endpoint")), Ok(ReadType::Endpoint));
    assert_eq!(ReadType::from_str(&l("Well Scan")), Ok(ReadType::WellScan));
    assert_eq!(
        ReadType::from_str(&l("Kinetic")),
        Err(FormatError::UnknownEnum(EnumKind::ReadType, l("Kinetic")))
    );
}

#[test]
fn read_mode_tokens() {
    assert_eq!(ReadMode::from_str(&l("Fluorescence")), Ok(ReadMode::Fluorescence));
    assert_eq!(ReadMode::from_str(&l("Absorbance")), Ok(ReadMode::Absorbance));
    assert_eq!(
        ReadMode::from_str(&l("Luminescence")),
        Err(FormatError::UnknownEnum(EnumKind::ReadMode, l("Luminescence")))
    );
}

#[test]
fn settings_endpoint_absorbance() {
    let s = PlateSettings::parse(&l(&ea_settings_line())).unwrap();
    assert_eq!(s.name, l("MyPlate"));
    assert_eq!(s.read_type, ReadType::Endpoint);
    assert_eq!(s.read_mode, ReadMode::Absorbance);
    assert_eq!(s.info.reads, 1);
    assert_eq!(s.info.plate_size, 96);
    assert_eq!(s.info.row_start, 1);
    assert_eq!(s.info.row_span, 2);
    assert_eq!(s.info.col_start, 1);
    assert_eq!(s.info.col_span, 2);
    assert_eq!(s.info.wavelengths, vec![Wavelength::Absorbance(450)]);
    assert_eq!(s.info.total_wells_read(), 4);
}

#[test]
fn settings_layout_depends_on_pair() {
    // the same tokens under the fluorescence layout read the read count
    // from token 3, which this row leaves empty: a different assignment,
    // so the parse fails instead of succeeding
    let line = ea_settings_line().replace("Absorbance", "Fluorescence");
    assert_eq!(
        PlateSettings::parse(&l(&line)),
        Err(FormatError::FieldParseFailure(Field::ReadCount, l("")))
    );
}

#[test]
fn settings_fluorescence_layout() {
    // keys[3]=reads, keys[9]=wave count, keys[10]=emission list,
    // keys[14]=excitation list, keys[11]=col start, keys[12]=col span,
    // keys[13]=plate size, keys[23]=row start, keys[24]=row span
    let mut toks = vec![""; 31];
    toks[1] = "FluorPlate";
    toks[4] = "Well Scan";
    toks[5] = "Fluorescence";
    toks[6 + 3] = "2";
    toks[6 + 9] = "2";
    toks[6 + 10] = "520 560 590";
    toks[6 + 14] = "485 530";
    toks[6 + 11] = "1";
    toks[6 + 12] = "12";
    toks[6 + 13] = "96";
    toks[6 + 23] = "1";
    toks[6 + 24] = "8";
    let s = PlateSettings::parse(&l(&toks.join("\t"))).unwrap();
    assert_eq!(s.read_type, ReadType::WellScan);
    assert_eq!(s.info.reads, 2);
    assert_eq!(s.info.row_span, 8);
    assert_eq!(s.info.col_span, 12);
    assert_eq!(
        s.info.wavelengths,
        vec![Wavelength::Fluorescence(485, 520), Wavelength::Fluorescence(530, 560)]
    );
}

#[test]
fn settings_unsupported_variant() {
    let line = ea_settings_line().replace("Endpoint", "Well Scan");
    assert_eq!(
        PlateSettings::parse(&l(&line)),
        Err(FormatError::UnsupportedVariant(ReadType::WellScan, ReadMode::Absorbance))
    );
}

#[test]
fn settings_truncated() {
    assert_eq!(PlateSettings::parse(&l("a\tb\tc")), Err(FormatError::TruncatedSettings));
    assert_eq!(PlateSettings::parse(&l("")), Err(FormatError::TruncatedSettings));
}

#[test]
fn settings_bad_field() {
    let line = ea_settings_line().replace("450", "45x");
    assert_eq!(
        PlateSettings::parse(&l(&line)),
        Err(FormatError::FieldParseFailure(Field::Wavelength, l("45x")))
    );
}

#[test]
fn time_hours_minutes() {
    let t = parse_time(&l("1:30")).unwrap();
    assert_eq!(t.hours, l("1"));
    assert_eq!(t.minutes, l("30"));
    assert_eq!(t.seconds, None);
}

#[test]
fn time_with_seconds() {
    let t = parse_time(&l("0:03:30")).unwrap();
    assert_eq!(t.hours, l("0"));
    assert_eq!(t.minutes, l("03"));
    assert_eq!(t.seconds, Some(l("30")));
}

#[test]
fn time_errors() {
    assert_eq!(
        parse_time(&l("x:30")),
        Err(FormatError::FieldParseFailure(Field::TimeHours, l("x")))
    );
    assert_eq!(
        parse_time(&l("5")),
        Err(FormatError::FieldParseFailure(Field::TimeMinutes, l("")))
    );
    assert_eq!(
        parse_time(&l("1:2:x")),
        Err(FormatError::FieldParseFailure(Field::TimeSeconds, l("x")))
    );
}

#[test]
fn read_info_endpoint_ignores_first_column() {
    let i = ReadInfo::parse_cols(&l("garbage"), &l("23.5"), ReadType::Endpoint).unwrap();
    assert_eq!(i.temp, l("23.5"));
    assert!(i.get_time().is_none());
}

#[test]
fn read_info_well_scan_reads_time() {
    let i = ReadInfo::parse_cols(&l("1:30"), &l("23.5"), ReadType::WellScan).unwrap();
    let t = i.get_time().unwrap();
    assert_eq!(t.hours, l("1"));
    assert_eq!(t.minutes, l("30"));
}

#[test]
fn read_info_bad_temperature() {
    assert_eq!(
        ReadInfo::parse_cols(&l(""), &l("warm"), ReadType::Endpoint),
        Err(FormatError::FieldParseFailure(Field::Temperature, l("warm")))
    );
}

#[test]
fn end_to_end_small_plate() {
    let ls = lines(&[
        "##BLOCKS=\t1",
        &ea_settings_line(),
        unit_header(),
        "\t23.1\t0.50\t1.20\t",
        "\t23.1\t0.33\t0.90\t",
        "",
        "~End",
    ]);
    let f = M5File::parse(&ls).unwrap();
    assert_eq!(f.0.len(), 1);
    let block = &f.0[0];
    assert_eq!(block.settings.name, l("MyPlate"));
    assert_eq!(block.data.len(), 1);
    let (info, wells) = &block.data[0];
    assert_eq!(info.temp, l("23.1"));
    assert!(info.get_time().is_none());
    assert_eq!(wells.len(), 4);
    let expect = [((0u8, 0u8), "0.50"), ((0, 1), "1.20"), ((1, 0), "0.33"), ((1, 1), "0.90")];
    for (w, (rc, v)) in wells.iter().zip(expect.iter()) {
        assert_eq!(w.well, *rc);
        assert_eq!(w.value, l(v));
        assert_eq!(w.wavelength, Wavelength::Absorbance(450));
    }
}

#[test]
fn sentinel_enforced() {
    let ls = lines(&[
        "##BLOCKS=\t1",
        &ea_settings_line(),
        unit_header(),
        "\t23.1\t0.50\t1.20\t",
        "\t23.1\t0.33\t0.90\t",
        "",
        "~Fin",
    ]);
    let e = M5File::parse(&ls).unwrap_err();
    assert_eq!(e.cause, FormatError::MissingSentinel);
    assert_eq!(e.block, Some(0));
}

#[test]
fn sentinel_trimmed() {
    let ls = lines(&[
        "##BLOCKS=\t1",
        &ea_settings_line(),
        unit_header(),
        "\t23.1\t0.50\t1.20\t",
        "\t23.1\t0.33\t0.90\t",
        "",
        "  ~End\r",
    ]);
    assert!(M5File::parse(&ls).is_ok());
}

#[test]
fn spacer_content_is_ignored() {
    let with_blank = lines(&[
        "##BLOCKS=\t1",
        &ea_settings_line(),
        unit_header(),
        "\t23.1\t0.50\t1.20\t",
        "\t23.1\t0.33\t0.90\t",
        "",
        "~End",
    ]);
    let with_junk = lines(&[
        "##BLOCKS=\t1",
        &ea_settings_line(),
        unit_header(),
        "\t23.1\t0.50\t1.20\tjunk",
        "\t23.1\t0.33\t0.90\tjunk",
        "",
        "~End",
    ]);
    let a = M5File::parse(&with_blank).unwrap();
    let b = M5File::parse(&with_junk).unwrap();
    let wa: Vec<_> = a.0[0].data[0].1.iter().map(|w| (w.well, w.value.clone())).collect();
    let wb: Vec<_> = b.0[0].data[0].1.iter().map(|w| (w.well, w.value.clone())).collect();
    assert_eq!(wa, wb);
}

#[test]
fn blank_cells_are_dropped() {
    let ls = lines(&[
        "##BLOCKS=\t1",
        &ea_settings_line(),
        unit_header(),
        "\t23.1\t\t1.20\t",
        "\t23.1\t0.33\t \t",
        "",
        "~End",
    ]);
    let f = M5File::parse(&ls).unwrap();
    let wells = &f.0[0].data[0].1;
    assert_eq!(wells.len(), 2);
    assert_eq!(wells[0].well, (0, 1));
    assert_eq!(wells[0].value, l("1.20"));
    assert_eq!(wells[1].well, (1, 0));
    assert_eq!(wells[1].value, l("0.33"));
}

#[test]
fn bad_well_value_fails_with_location() {
    let ls = lines(&[
        "##BLOCKS=\t1",
        &ea_settings_line(),
        unit_header(),
        "\t23.1\t0.50\t1.20\t",
        "\t23.1\tabc\t0.90\t",
        "",
        "~End",
    ]);
    let e = M5File::parse(&ls).unwrap_err();
    assert_eq!(e.cause, FormatError::FieldParseFailure(Field::WellValue, l("abc")));
    assert_eq!(e.block, Some(0));
    assert_eq!(e.read, Some(0));
    assert_eq!(e.row, Some(1));
}

#[test]
fn unsupported_plate_size() {
    let line = ea_settings_line().replace("96", "42");
    let ls = lines(&["##BLOCKS=\t1", &line, unit_header(), "~End"]);
    let e = M5File::parse(&ls).unwrap_err();
    assert_eq!(e.cause, FormatError::UnsupportedPlateSize(42));
}

#[test]
fn unsupported_unit() {
    let ls = lines(&[
        "##BLOCKS=\t1",
        &ea_settings_line(),
        "\tTemperature(K)\t1\t2",
        "~End",
    ]);
    let e = M5File::parse(&ls).unwrap_err();
    assert_eq!(e.cause, FormatError::UnsupportedUnit(l("Temperature(K)")));
}

#[test]
fn unit_header_as_substring() {
    let ls = lines(&[
        "##BLOCKS=\t1",
        &ea_settings_line(),
        "prefix\tcol Temperature(\u{00b0}C) suffix\t2",
        "\t23.1\t0.50\t1.20\t",
        "\t23.1\t0.33\t0.90\t",
        "",
        "~End",
    ]);
    assert!(M5File::parse(&ls).is_ok());
}

#[test]
fn declared_count_must_be_met() {
    let ls = lines(&[
        "##BLOCKS=\t2",
        &ea_settings_line(),
        unit_header(),
        "\t23.1\t0.50\t1.20\t",
        "\t23.1\t0.33\t0.90\t",
        "",
        "~End",
    ]);
    let e = M5File::parse(&ls).unwrap_err();
    assert_eq!(e.cause, FormatError::PrematureEof);
    assert_eq!(e.block, Some(1));
}

#[test]
fn two_blocks_parse_independently() {
    let ls = lines(&[
        "##BLOCKS=\t2",
        &ea_settings_line(),
        unit_header(),
        "\t23.1\t0.50\t1.20\t",
        "\t23.1\t0.33\t0.90\t",
        "",
        "~End",
        &ea_settings_line(),
        unit_header(),
        "\t24.0\t0.10\t0.20\t",
        "\t24.0\t0.30\t0.40\t",
        "",
        "~End",
    ]);
    let f = M5File::parse(&ls).unwrap();
    assert_eq!(f.0.len(), 2);
    assert_eq!(f.0[1].data[0].0.temp, l("24.0"));
    assert_eq!(f.0[1].data[0].1.len(), 4);
}

#[test]
fn block_parse_reports_next_position() {
    let ls = lines(&[
        &ea_settings_line(),
        unit_header(),
        "\t23.1\t0.50\t1.20\t",
        "\t23.1\t0.33\t0.90\t",
        "",
        "~End",
        "trailing",
    ]);
    let (block, next) = PlateBlock::parse(&ls, 0).unwrap();
    assert_eq!(next, 6);
    assert_eq!(block.data[0].1.len(), 4);
}

/// A WellScan/Fluorescence settings line: reads=1, one channel, 1x1 grid.
fn ws_settings_line() -> String {
    let mut toks = vec![""; 31];
    toks[1] = "ScanPlate";
    toks[4] = "Well Scan";
    toks[5] = "Fluorescence";
    toks[6 + 3] = "1";
    toks[6 + 9] = "1";
    toks[6 + 10] = "520";
    toks[6 + 14] = "485";
    toks[6 + 11] = "1";
    toks[6 + 12] = "1";
    toks[6 + 13] = "96";
    toks[6 + 23] = "1";
    toks[6 + 24] = "1";
    toks.join("\t")
}

#[test]
fn well_scan_reads_elapsed_time() {
    let ls = lines(&[
        "##BLOCKS=\t1",
        &ws_settings_line(),
        unit_header(),
        "1:30:15\t23.5\t0.7\t",
        "",
        "~End",
    ]);
    let f = M5File::parse(&ls).unwrap();
    let (info, wells) = &f.0[0].data[0];
    let t = info.get_time().unwrap();
    assert_eq!(t.hours, l("1"));
    assert_eq!(t.minutes, l("30"));
    assert_eq!(t.seconds, Some(l("15")));
    assert_eq!(wells.len(), 1);
    assert_eq!(wells[0].wavelength, Wavelength::Fluorescence(485, 520));
    assert_eq!(wells[0].value, l("0.7"));
}

#[test]
fn multiple_reads_consume_in_order() {
    let mut line = ea_settings_line();
    // two reads instead of one: the read count is the first key set
    line = line.replacen("\t1\t", "\t2\t", 1);
    let ls = lines(&[
        "##BLOCKS=\t1",
        &line,
        unit_header(),
        "\t20.0\t0.1\t0.2\t",
        "\t20.0\t0.3\t0.4\t",
        "",
        "\t21.0\t0.5\t0.6\t",
        "\t21.0\t0.7\t0.8\t",
        "",
        "~End",
    ]);
    let f = M5File::parse(&ls).unwrap();
    let block = &f.0[0];
    assert_eq!(block.data.len(), 2);
    assert_eq!(block.data[0].0.temp, l("20.0"));
    assert_eq!(block.data[1].0.temp, l("21.0"));
    assert_eq!(block.data[1].1[0].value, l("0.5"));
}

#[test]
fn two_wavelength_windows() {
    let line = ea_settings_line().replace("450", "450 600").replacen("\t1\t450", "\t2\t450", 1);
    // wave count 2, list "450 600": each grid row holds two windows of
    // col_span + 1 columns
    let ls = lines(&[
        "##BLOCKS=\t1",
        &line,
        unit_header(),
        "\t23.1\t0.1\t0.2\t\t0.3\t0.4\t",
        "\t23.1\t0.5\t0.6\t\t0.7\t0.8\t",
        "",
        "~End",
    ]);
    let f = M5File::parse(&ls).unwrap();
    let wells = &f.0[0].data[0].1;
    assert_eq!(wells.len(), 8);
    assert_eq!(wells[0].wavelength, Wavelength::Absorbance(450));
    assert_eq!(wells[0].well, (0, 0));
    assert_eq!(wells[2].wavelength, Wavelength::Absorbance(600));
    assert_eq!(wells[2].well, (0, 0));
    assert_eq!(wells[2].value, l("0.3"));
}

#[test]
fn wavelength_list_truncated_to_declared_count() {
    // more tokens than the declared count: the extras are ignored
    let line = ea_settings_line().replace("450", "450 600 750");
    let s = PlateSettings::parse(&l(&line)).unwrap();
    assert_eq!(s.info.wavelengths, vec![Wavelength::Absorbance(450)]);
    // fewer tokens than the declared count: the shorter list stands
    let mut toks: Vec<String> =
        ea_settings_line().split('\t').map(|t| t.to_string()).collect();
    toks[6 + 8] = "3".to_string();
    toks[6 + 9] = "450 600".to_string();
    let s = PlateSettings::parse(&l(&toks.join("\t"))).unwrap();
    assert_eq!(
        s.info.wavelengths,
        vec![Wavelength::Absorbance(450), Wavelength::Absorbance(600)]
    );
}

#[test]
fn plate_size_384_supported() {
    let line = ea_settings_line().replace("96", "384");
    let ls = lines(&[
        "##BLOCKS=\t1",
        &line,
        unit_header(),
        "\t23.1\t0.50\t1.20\t",
        "\t23.1\t0.33\t0.90\t",
        "",
        "~End",
    ]);
    assert!(M5File::parse(&ls).is_ok());
}

#[test]
fn empty_input_is_premature_eof() {
    let e = M5File::parse(&Vec::new()).unwrap_err();
    assert_eq!(e.cause, FormatError::PrematureEof);
}
