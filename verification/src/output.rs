//! Laying a decoded document out as CSV records: the well-name, row and
//! column display forms, the per-channel label strings, the header row,
//! and the encoding of one record as a CSV line. The caller supplies the
//! display forms of the measured values (time, temperature, value), which
//! are arithmetic on the measurements and live at the boundary.
use crate::bytes::copy_range;
use crate::grid::WellRC;
use crate::num::dec_digits;
use crate::num::u64_to_dec;
use crate::settings::lit_absorbance;
use crate::settings::lit_fluorescence;
use crate::settings::lit_absorbance_vec;
use crate::settings::lit_fluorescence_vec;
use crate::settings::Wavelength;
use vstd::prelude::*;

verus! {

/// "nm" in bytes.
pub open spec fn lit_nm() -> Seq<u8> {
    seq![0x6eu8, 0x6du8]
}

/// Builds "nm" as a byte vector.
fn lit_nm_vec() -> (r: Vec<u8>)
    ensures
        r@ == lit_nm(),
{
    let mut v: Vec<u8> = Vec::new();
    v.push(0x6e);
    v.push(0x6d);
    proof {
        assert(v@ =~= lit_nm());
    }
    v
}

/// "ex " in bytes.
pub open spec fn lit_ex_prefix() -> Seq<u8> {
    seq![0x65u8, 0x78u8, 0x20u8]
}

/// Builds "ex " as a byte vector.
fn lit_ex_prefix_vec() -> (r: Vec<u8>)
    ensures
        r@ == lit_ex_prefix(),
{
    let mut v: Vec<u8> = Vec::new();
    v.push(0x65);
    v.push(0x78);
    v.push(0x20);
    proof {
        assert(v@ =~= lit_ex_prefix());
    }
    v
}

/// "nm / em " in bytes.
pub open spec fn lit_mid() -> Seq<u8> {
    seq![0x6eu8, 0x6du8, 0x20u8, 0x2fu8, 0x20u8, 0x65u8, 0x6du8, 0x20u8]
}

/// Builds "nm / em " as a byte vector.
fn lit_mid_vec() -> (r: Vec<u8>)
    ensures
        r@ == lit_mid(),
{
    let mut v: Vec<u8> = Vec::new();
    v.push(0x6e);
    v.push(0x6d);
    v.push(0x20);
    v.push(0x2f);
    v.push(0x20);
    v.push(0x65);
    v.push(0x6d);
    v.push(0x20);
    proof {
        assert(v@ =~= lit_mid());
    }
    v
}

/// The CSV header fields, in order.
pub open spec fn csv_header_fields() -> Seq<Seq<u8>> {
    seq![
        seq![0x50u8, 0x6cu8, 0x61u8, 0x74u8, 0x65u8],
        seq![0x57u8, 0x65u8, 0x6cu8, 0x6cu8],
        seq![0x52u8, 0x6fu8, 0x77u8],
        seq![0x43u8, 0x6fu8, 0x6cu8],
        seq![0x54u8, 0x69u8, 0x6du8, 0x65u8, 0x20u8, 0x5bu8, 0x68u8, 0x72u8, 0x5du8],
        seq![0x54u8, 0x65u8, 0x6du8, 0x70u8, 0x65u8, 0x72u8, 0x61u8, 0x74u8, 0x75u8, 0x72u8, 0x65u8, 0x20u8, 0x5bu8, 0x43u8, 0x5du8],
        seq![0x52u8, 0x65u8, 0x61u8, 0x64u8, 0x20u8, 0x4du8, 0x6fu8, 0x64u8, 0x65u8],
        seq![0x45u8, 0x78u8, 0x63u8, 0x69u8, 0x74u8, 0x61u8, 0x74u8, 0x69u8, 0x6fu8, 0x6eu8, 0x20u8, 0x5bu8, 0x6eu8, 0x6du8, 0x5du8],
        seq![0x45u8, 0x6du8, 0x69u8, 0x73u8, 0x73u8, 0x69u8, 0x6fu8, 0x6eu8, 0x20u8, 0x5bu8, 0x6eu8, 0x6du8, 0x5du8],
        seq![0x57u8, 0x61u8, 0x76u8, 0x65u8, 0x6cu8, 0x65u8, 0x6eu8, 0x67u8, 0x74u8, 0x68u8, 0x20u8, 0x44u8, 0x65u8, 0x73u8, 0x63u8, 0x72u8, 0x69u8, 0x70u8, 0x74u8, 0x69u8, 0x6fu8, 0x6eu8],
        seq![0x56u8, 0x61u8, 0x6cu8, 0x75u8, 0x65u8],
    ]
}

/// Builds the CSV header fields.
pub fn csv_header_fields_vec() -> (r: Vec<Vec<u8>>)
    ensures
        r.deep_view() == csv_header_fields(),
{
    let mut fields: Vec<Vec<u8>> = Vec::new();
    let mut v: Vec<u8> = Vec::new();
    v.push(0x50);
    v.push(0x6c);
    v.push(0x61);
    v.push(0x74);
    v.push(0x65);
    fields.push(v);
    let mut v: Vec<u8> = Vec::new();
    v.push(0x57);
    v.push(0x65);
    v.push(0x6c);
    v.push(0x6c);
    fields.push(v);
    let mut v: Vec<u8> = Vec::new();
    v.push(0x52);
    v.push(0x6f);
    v.push(0x77);
    fields.push(v);
    let mut v: Vec<u8> = Vec::new();
    v.push(0x43);
    v.push(0x6f);
    v.push(0x6c);
    fields.push(v);
    let mut v: Vec<u8> = Vec::new();
    v.push(0x54);
    v.push(0x69);
    v.push(0x6d);
    v.push(0x65);
    v.push(0x20);
    v.push(0x5b);
    v.push(0x68);
    v.push(0x72);
    v.push(0x5d);
    fields.push(v);
    let mut v: Vec<u8> = Vec::new();
    v.push(0x54);
    v.push(0x65);
    v.push(0x6d);
    v.push(0x70);
    v.push(0x65);
    v.push(0x72);
    v.push(0x61);
    v.push(0x74);
    v.push(0x75);
    v.push(0x72);
    v.push(0x65);
    v.push(0x20);
    v.push(0x5b);
    v.push(0x43);
    v.push(0x5d);
    fields.push(v);
    let mut v: Vec<u8> = Vec::new();
    v.push(0x52);
    v.push(0x65);
    v.push(0x61);
    v.push(0x64);
    v.push(0x20);
    v.push(0x4d);
    v.push(0x6f);
    v.push(0x64);
    v.push(0x65);
    fields.push(v);
    let mut v: Vec<u8> = Vec::new();
    v.push(0x45);
    v.push(0x78);
    v.push(0x63);
    v.push(0x69);
    v.push(0x74);
    v.push(0x61);
    v.push(0x74);
    v.push(0x69);
    v.push(0x6f);
    v.push(0x6e);
    v.push(0x20);
    v.push(0x5b);
    v.push(0x6e);
    v.push(0x6d);
    v.push(0x5d);
    fields.push(v);
    let mut v: Vec<u8> = Vec::new();
    v.push(0x45);
    v.push(0x6d);
    v.push(0x69);
    v.push(0x73);
    v.push(0x73);
    v.push(0x69);
    v.push(0x6f);
    v.push(0x6e);
    v.push(0x20);
    v.push(0x5b);
    v.push(0x6e);
    v.push(0x6d);
    v.push(0x5d);
    fields.push(v);
    let mut v: Vec<u8> = Vec::new();
    v.push(0x57);
    v.push(0x61);
    v.push(0x76);
    v.push(0x65);
    v.push(0x6c);
    v.push(0x65);
    v.push(0x6e);
    v.push(0x67);
    v.push(0x74);
    v.push(0x68);
    v.push(0x20);
    v.push(0x44);
    v.push(0x65);
    v.push(0x73);
    v.push(0x63);
    v.push(0x72);
    v.push(0x69);
    v.push(0x70);
    v.push(0x74);
    v.push(0x69);
    v.push(0x6f);
    v.push(0x6e);
    fields.push(v);
    let mut v: Vec<u8> = Vec::new();
    v.push(0x56);
    v.push(0x61);
    v.push(0x6c);
    v.push(0x75);
    v.push(0x65);
    fields.push(v);
    proof {
        assert(fields.deep_view() =~~= csv_header_fields());
    }
    fields
}

/// The two-digit column form: one-digit numbers take a leading zero,
/// larger numbers print as they are.
pub open spec fn pad2(n: int) -> Seq<u8> {
    if n < 10 {
        seq![0x30u8] + dec_digits(n)
    } else {
        dec_digits(n)
    }
}

/// A well's display name: the row letter ('A' plus the row index), then
/// the one-based column, zero-padded to two digits.
pub open spec fn wellname_spec(rc: WellRC) -> Seq<u8> {
    seq![(0x41 + rc.0) as u8] + pad2(rc.1 + 1)
}

/// Formats a well's display name. Rows beyond 'Z' have no letter in this
/// format; plates stop at 384 wells (16 rows).
pub fn fmt_wellname(rc: WellRC) -> (r: Vec<u8>)
    requires
        rc.0 < 26,
    ensures
        r@ == wellname_spec(rc),
{
    let mut v: Vec<u8> = Vec::new();
    v.push(0x41 + rc.0);
    let col: u64 = rc.1 as u64 + 1;
    if col < 10 {
        v.push(0x30);
    }
    let mut digits = u64_to_dec(col);
    v.append(&mut digits);
    proof {
        assert(v@ =~= wellname_spec(rc));
    }
    v
}

/// `s` with leading zero digits removed.
pub open spec fn trim_zeros_start(s: Seq<u8>) -> Seq<u8>
    decreases s.len(),
{
    if s.len() > 0 && s[0] == 0x30 {
        trim_zeros_start(s.skip(1))
    } else {
        s
    }
}

/// `s` with trailing zero digits removed.
pub open spec fn trim_zeros_end(s: Seq<u8>) -> Seq<u8>
    decreases s.len(),
{
    if s.len() > 0 && s.last() == 0x30 {
        trim_zeros_end(s.drop_last())
    } else {
        s
    }
}

/// The column display form: the zero-padded column with '0' trimmed from
/// both ends, as the original export shows it.
pub open spec fn col_display(col: u8) -> Seq<u8> {
    trim_zeros_end(trim_zeros_start(pad2(col + 1)))
}

proof fn lemma_tz_start_prefix(s: Seq<u8>, a: int)
    requires
        0 <= a <= s.len(),
        forall|k: int| 0 <= k < a ==> s[k] == 0x30,
    ensures
        trim_zeros_start(s) == trim_zeros_start(s.skip(a)),
    decreases a,
{
    if a > 0 {
        assert(s.skip(1).skip(a - 1) =~= s.skip(a));
        lemma_tz_start_prefix(s.skip(1), a - 1);
    } else {
        assert(s.skip(0) =~= s);
    }
}

proof fn lemma_tz_end_suffix(s: Seq<u8>, b: int)
    requires
        0 <= b <= s.len(),
        forall|k: int| b <= k < s.len() ==> s[k] == 0x30,
    ensures
        trim_zeros_end(s) == trim_zeros_end(s.take(b)),
    decreases s.len() - b,
{
    if b < s.len() {
        assert(s.drop_last() =~= s.take(s.len() - 1));
        lemma_tz_end_suffix(s.take(s.len() - 1), b);
        assert(s.take(s.len() - 1).take(b) =~= s.take(b));
    } else {
        assert(s.take(s.len() as int) =~= s);
    }
}

/// Trims '0' from both ends of `s`.
fn trim_zeros(s: &Vec<u8>) -> (r: Vec<u8>)
    ensures
        r@ == trim_zeros_end(trim_zeros_start(s@)),
{
    let mut a: usize = 0;
    while a < s.len() && s[a] == 0x30
        invariant
            0 <= a <= s.len(),
            forall|k: int| 0 <= k < a ==> s@[k] == 0x30,
        decreases s.len() - a,
    {
        a = a + 1;
    }
    proof {
        lemma_tz_start_prefix(s@, a as int);
    }
    let ghost t = s@.skip(a as int);
    let mut b: usize = s.len();
    while b > a && s[b - 1] == 0x30
        invariant
            a <= b <= s.len(),
            forall|k: int| b <= k < s.len() ==> s@[k] == 0x30,
        decreases b,
    {
        b = b - 1;
    }
    proof {
        lemma_tz_end_suffix(t, b - a);
        assert(t.take(b - a) =~= s@.subrange(a as int, b as int));
        if a < s.len() {
            assert(t[0] != 0x30);
        }
        assert(trim_zeros_start(t) == t);
        if b > a {
            assert(t.take(b - a).last() != 0x30);
        }
        assert(trim_zeros_end(t.take(b - a)) == t.take(b - a));
    }
    copy_range(s, a, b)
}

/// Formats the column display form of a well.
pub fn fmt_col_display(col: u8) -> (r: Vec<u8>)
    ensures
        r@ == col_display(col),
{
    let n: u64 = col as u64 + 1;
    let mut padded: Vec<u8> = Vec::new();
    if n < 10 {
        padded.push(0x30);
    }
    let mut digits = u64_to_dec(n);
    padded.append(&mut digits);
    proof {
        assert(padded@ =~= pad2(col + 1));
    }
    trim_zeros(&padded)
}

/// The label strings of one channel, as the CSV shows them.
#[derive(Debug)]
pub struct WaveStrings {
    pub mode: Vec<u8>,
    pub ex: Vec<u8>,
    pub em: Vec<u8>,
    pub desc: Vec<u8>,
}

/// The mathematical shape of a `WaveStrings`.
pub struct WaveStringsV {
    pub mode: Seq<u8>,
    pub ex: Seq<u8>,
    pub em: Seq<u8>,
    pub desc: Seq<u8>,
}

impl View for WaveStrings {
    type V = WaveStringsV;

    open spec fn view(&self) -> WaveStringsV {
        WaveStringsV { mode: self.mode@, ex: self.ex@, em: self.em@, desc: self.desc@ }
    }
}

/// What a channel's labels are: for absorbance, the bare wavelength with
/// a unit in the description and empty excitation/emission columns; for
/// fluorescence, the pair in the columns and an "ex .../em ..." text.
pub open spec fn wave_strings_spec(w: Wavelength) -> WaveStringsV {
    match w {
        Wavelength::Absorbance(a) => WaveStringsV {
            mode: lit_absorbance(),
            ex: Seq::<u8>::empty(),
            em: Seq::<u8>::empty(),
            desc: dec_digits(a as int) + lit_nm(),
        },
        Wavelength::Fluorescence(ex, em) => WaveStringsV {
            mode: lit_fluorescence(),
            ex: dec_digits(ex as int),
            em: dec_digits(em as int),
            desc: lit_ex_prefix() + dec_digits(ex as int) + lit_mid() + dec_digits(em as int)
                + lit_nm(),
        },
    }
}

impl WaveStrings {
    /// Builds the labels of one channel.
    pub fn from_wavelength(w: Wavelength) -> (r: WaveStrings)
        ensures
            r@ == wave_strings_spec(w),
    {
        match w {
            Wavelength::Absorbance(a) => {
                let mut desc = u64_to_dec(a as u64);
                let mut unit = lit_nm_vec();
                desc.append(&mut unit);
                let r = WaveStrings {
                    mode: lit_absorbance_vec(),
                    ex: Vec::new(),
                    em: Vec::new(),
                    desc,
                };
                proof {
                    assert(r@.desc =~= wave_strings_spec(w).desc);
                    assert(r@.ex =~= wave_strings_spec(w).ex);
                    assert(r@.em =~= wave_strings_spec(w).em);
                }
                r
            },
            Wavelength::Fluorescence(ex, em) => {
                let mut desc = lit_ex_prefix_vec();
                let mut exd = u64_to_dec(ex as u64);
                desc.append(&mut exd);
                let mut mid = lit_mid_vec();
                desc.append(&mut mid);
                let mut emd = u64_to_dec(em as u64);
                desc.append(&mut emd);
                let mut unit = lit_nm_vec();
                desc.append(&mut unit);
                let r = WaveStrings {
                    mode: lit_fluorescence_vec(),
                    ex: u64_to_dec(ex as u64),
                    em: u64_to_dec(em as u64),
                    desc,
                };
                proof {
                    assert(r@.desc =~= wave_strings_spec(w).desc);
                }
                r
            },
        }
    }
}

/// What the record encoder produces for given fields: one encoded CSV
/// line. The encoding (quoting, delimiters, terminator) is the csv
/// crate's, with its default settings; the library states no more of its
/// shape than that it is a function of the fields.
pub uninterp spec fn csv_record_line(fields: Seq<Seq<u8>>) -> Seq<u8>;

/// Relies on csv::Writer (default settings: comma delimiter, quoting
/// only where needed, '\n' terminator) writing one record to an
/// in-memory buffer; the encoded line depends on the fields alone. The
/// call cannot fail here: its only error paths are I/O on the underlying
/// writer, which is infallible for a byte vector, and a record-length
/// mismatch, which needs an earlier record on the same writer.
#[verifier::external_body]
fn csv_encode_record(fields: &Vec<Vec<u8>>) -> (r: Vec<u8>)
    ensures
        r@ == csv_record_line(fields.deep_view()),
{
    let mut w = csv::Writer::from_writer(std::vec::Vec::new());
    w.write_record(fields.iter()).expect("writing one record to a vector");
    w.into_inner().expect("flushing into a vector")
}

/// Encodes the CSV header row.
pub fn csv_header_line() -> (r: Vec<u8>)
    ensures
        r@ == csv_record_line(csv_header_fields()),
{
    let fields = csv_header_fields_vec();
    csv_encode_record(&fields)
}

/// The eleven fields of one well's CSV record, in order: plate name,
/// well name, row letter, column, time, temperature, read mode,
/// excitation, emission, wavelength description, value. The time,
/// temperature and value display forms are the caller's.
pub open spec fn well_row_fields(
    plate: Seq<u8>,
    well: WellRC,
    wl: Wavelength,
    time: Seq<u8>,
    temp: Seq<u8>,
    value: Seq<u8>,
) -> Seq<Seq<u8>> {
    let wn = wellname_spec(well);
    let ws = wave_strings_spec(wl);
    seq![
        plate,
        wn,
        wn.take(1),
        col_display(well.1),
        time,
        temp,
        ws.mode,
        ws.ex,
        ws.em,
        ws.desc,
        value,
    ]
}

/// Encodes one well's CSV record.
pub fn csv_well_row(
    plate: &Vec<u8>,
    well: WellRC,
    wavelength: Wavelength,
    time: &Vec<u8>,
    temp: &Vec<u8>,
    value: &Vec<u8>,
) -> (r: Vec<u8>)
    requires
        well.0 < 26,
    ensures
        r@ == csv_record_line(well_row_fields(plate@, well, wavelength, time@, temp@, value@)),
{
    let wn = fmt_wellname(well);
    let mut row_letter: Vec<u8> = Vec::new();
    row_letter.push(wn[0]);
    let col = fmt_col_display(well.1);
    let ws = WaveStrings::from_wavelength(wavelength);
    let mut fields: Vec<Vec<u8>> = Vec::new();
    fields.push(copy_range(plate, 0, plate.len()));
    fields.push(wn);
    fields.push(row_letter);
    fields.push(col);
    fields.push(copy_range(time, 0, time.len()));
    fields.push(copy_range(temp, 0, temp.len()));
    fields.push(ws.mode);
    fields.push(ws.ex);
    fields.push(ws.em);
    fields.push(ws.desc);
    fields.push(copy_range(value, 0, value.len()));
    proof {
        assert(fields.deep_view() =~~= well_row_fields(
            plate@,
            well,
            wavelength,
            time@,
            temp@,
            value@,
        ));
    }
    csv_encode_record(&fields)
}

} // verus!
