use m5flat::grid::check_spacer;
use m5flat::num::{check_finite_float_token, check_float_token, parse_u64, u64_to_dec};
use m5flat::output::{csv_header_line, csv_well_row, fmt_col_display, fmt_wellname, WaveStrings};
use m5flat::settings::Wavelength;
use m5flat::util::rmap2;

fn l(s: &str) -> Vec<u8> {
    s.as_bytes().to_vec()
}

#[test]
fn uint_parsing() {
    assert_eq!(parse_u64(&l("0")), Some(0));
    assert_eq!(parse_u64(&l("007")), Some(7));
    assert_eq!(parse_u64(&l("+42")), Some(42));
    assert_eq!(parse_u64(&l("18446744073709551615")), Some(u64::MAX));
    assert_eq!(parse_u64(&l("18446744073709551616")), None);
    assert_eq!(parse_u64(&l("")), None);
    assert_eq!(parse_u64(&l("+")), None);
    assert_eq!(parse_u64(&l("4 ")), None);
    assert_eq!(parse_u64(&l("-4")), None);
}

#[test]
fn uint_rendering() {
    assert_eq!(u64_to_dec(0), l("0"));
    assert_eq!(u64_to_dec(7), l("7"));
    assert_eq!(u64_to_dec(450), l("450"));
    assert_eq!(u64_to_dec(u64::MAX), l("18446744073709551615"));
}

#[test]
fn float_tokens() {
    for ok in ["0.5", "5.", ".5", "5", "1e5", "1E-5", "+1.5e-3", "-0.25", "12.", "0"] {
        assert!(check_finite_float_token(&l(ok)), "{ok}");
        assert!(check_float_token(&l(ok)), "{ok}");
    }
    for bad in ["", ".", "1e", "e5", "1.2.3", "1..2", "--5", "4 ", " 4", "1e2.5", "+"] {
        assert!(!check_float_token(&l(bad)), "{bad}");
    }
    for nonfinite in ["inf", "Inf", "-inf", "infinity", "NaN", "nan", "+INF"] {
        assert!(check_float_token(&l(nonfinite)), "{nonfinite}");
        assert!(!check_finite_float_token(&l(nonfinite)), "{nonfinite}");
    }
}

#[test]
fn wellnames() {
    assert_eq!(fmt_wellname((0, 0)), l("A01"));
    assert_eq!(fmt_wellname((1, 9)), l("B10"));
    assert_eq!(fmt_wellname((7, 11)), l("H12"));
    assert_eq!(fmt_wellname((15, 23)), l("P24"));
}

#[test]
fn column_display_trims_zeros_on_both_ends() {
    assert_eq!(fmt_col_display(0), l("1"));
    assert_eq!(fmt_col_display(1), l("2"));
    assert_eq!(fmt_col_display(8), l("9"));
    // the one-based column 10 prints as "10", and the zero-trimming the
    // format applies to the padded form strips its trailing zero too
    assert_eq!(fmt_col_display(9), l("1"));
    assert_eq!(fmt_col_display(11), l("12"));
    assert_eq!(fmt_col_display(19), l("2"));
    assert_eq!(fmt_col_display(22), l("23"));
}

#[test]
fn wave_strings_absorbance() {
    let w = WaveStrings::from_wavelength(Wavelength::Absorbance(450));
    assert_eq!(w.mode, l("Absorbance"));
    assert_eq!(w.ex, l(""));
    assert_eq!(w.em, l(""));
    assert_eq!(w.desc, l("450nm"));
}

#[test]
fn wave_strings_fluorescence() {
    let w = WaveStrings::from_wavelength(Wavelength::Fluorescence(485, 520));
    assert_eq!(w.mode, l("Fluorescence"));
    assert_eq!(w.ex, l("485"));
    assert_eq!(w.em, l("520"));
    assert_eq!(w.desc, l("ex 485nm / em 520nm"));
}

#[test]
fn csv_header() {
    let line = csv_header_line();
    assert_eq!(
        line,
        l("Plate,Well,Row,Col,Time [hr],Temperature [C],Read Mode,Excitation [nm],\
           Emission [nm],Wavelength Description,Value\n")
    );
}

#[test]
fn csv_row_plain() {
    let line = csv_well_row(
        &l("MyPlate"),
        (0, 0),
        Wavelength::Absorbance(450),
        &l(""),
        &l("23.5"),
        &l("0.5"),
    );
    assert_eq!(line, l("MyPlate,A01,A,1,,23.5,Absorbance,,,450nm,0.5\n"));
}

#[test]
fn csv_row_quotes_when_needed() {
    let line = csv_well_row(
        &l("a,b"),
        (1, 9),
        Wavelength::Fluorescence(485, 520),
        &l("1.5"),
        &l("23.5"),
        &l("0.25"),
    );
    assert_eq!(
        line,
        l("\"a,b\",B10,B,1,1.5,23.5,Fluorescence,485,520,ex 485nm / em 520nm,0.25\n")
    );
}

#[test]
fn spacer_hook() {
    assert!(check_spacer(&l("")));
    assert!(!check_spacer(&l(" ")));
}

#[test]
fn rmap2_combines() {
    let sum = |a: u32, b: u32| a.wrapping_add(b);
    assert_eq!(rmap2::<u32, u32, u32, (), _>(Ok(1), Ok(2), sum), Ok(3));
    assert_eq!(rmap2::<u32, u32, u32, i32, _>(Err(-1), Ok(2), sum), Err(-1));
    assert_eq!(rmap2::<u32, u32, u32, i32, _>(Ok(1), Err(-2), sum), Err(-2));
    assert_eq!(rmap2::<u32, u32, u32, i32, _>(Err(-1), Err(-2), sum), Err(-1));
}
