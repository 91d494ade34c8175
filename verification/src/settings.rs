//! The settings-row resolver: the first line of a block declares a name, a
//! read type and a read mode, and the remaining tokens are interpreted
//! through a layout table keyed by that (type, mode) pair. The table is
//! the one place that knows which token index holds which field.
use crate::bytes::copy_range;
use crate::bytes::split_tab;
use crate::bytes::split_tab_spec;
use crate::bytes::split_whitespace_tokens;
use crate::bytes::trim;
use crate::bytes::trim_bytes;
use crate::bytes::ws_tokens;
use crate::error::Field;
use crate::error::EnumKind;
use crate::error::FormatError;
use crate::error::FormatErrorV;
use crate::num::is_uint_token;
use crate::num::parse_u64;
use crate::num::uint_val;
use vstd::prelude::*;

verus! {

/// How the instrument was asked to read the plate.
#[derive(Debug, Clone, Copy, PartialEq, Eq, Structural)]
pub enum ReadType {
    Endpoint,
    WellScan,
}

/// What quantity the instrument measured.
#[derive(Debug, Clone, Copy, PartialEq, Eq, Structural)]
pub enum ReadMode {
    Fluorescence,
    Absorbance,
}

/// One measurement channel: absorbance at a wavelength, or a fluorescence
/// excitation/emission pair, in nanometres.
#[derive(Debug, Clone, Copy, PartialEq, Eq, Hash, Structural)]
pub enum Wavelength {
    Fluorescence(u16, u16),
    Absorbance(u16),
}

/// "Endpoint" in bytes.
pub open spec fn lit_endpoint() -> Seq<u8> {
    seq![0x45u8, 0x6eu8, 0x64u8, 0x70u8, 0x6fu8, 0x69u8, 0x6eu8, 0x74u8]
}

/// Builds "Endpoint" as a byte vector.
pub fn lit_endpoint_vec() -> (r: Vec<u8>)
    ensures
        r@ == lit_endpoint(),
{
    let mut v: Vec<u8> = Vec::new();
    v.push(0x45);
    v.push(0x6e);
    v.push(0x64);
    v.push(0x70);
    v.push(0x6f);
    v.push(0x69);
    v.push(0x6e);
    v.push(0x74);
    proof {
        assert(v@ =~= lit_endpoint());
    }
    v
}

/// "Well Scan" in bytes.
pub open spec fn lit_well_scan() -> Seq<u8> {
    seq![0x57u8, 0x65u8, 0x6cu8, 0x6cu8, 0x20u8, 0x53u8, 0x63u8, 0x61u8, 0x6eu8]
}

/// Builds "Well Scan" as a byte vector.
pub fn lit_well_scan_vec() -> (r: Vec<u8>)
    ensures
        r@ == lit_well_scan(),
{
    let mut v: Vec<u8> = Vec::new();
    v.push(0x57);
    v.push(0x65);
    v.push(0x6c);
    v.push(0x6c);
    v.push(0x20);
    v.push(0x53);
    v.push(0x63);
    v.push(0x61);
    v.push(0x6e);
    proof {
        assert(v@ =~= lit_well_scan());
    }
    v
}

/// "Fluorescence" in bytes.
pub open spec fn lit_fluorescence() -> Seq<u8> {
    seq![0x46u8, 0x6cu8, 0x75u8, 0x6fu8, 0x72u8, 0x65u8, 0x73u8, 0x63u8, 0x65u8, 0x6eu8, 0x63u8, 0x65u8]
}

/// Builds "Fluorescence" as a byte vector.
pub fn lit_fluorescence_vec() -> (r: Vec<u8>)
    ensures
        r@ == lit_fluorescence(),
{
    let mut v: Vec<u8> = Vec::new();
    v.push(0x46);
    v.push(0x6c);
    v.push(0x75);
    v.push(0x6f);
    v.push(0x72);
    v.push(0x65);
    v.push(0x73);
    v.push(0x63);
    v.push(0x65);
    v.push(0x6e);
    v.push(0x63);
    v.push(0x65);
    proof {
        assert(v@ =~= lit_fluorescence());
    }
    v
}

/// "Absorbance" in bytes.
pub open spec fn lit_absorbance() -> Seq<u8> {
    seq![0x41u8, 0x62u8, 0x73u8, 0x6fu8, 0x72u8, 0x62u8, 0x61u8, 0x6eu8, 0x63u8, 0x65u8]
}

/// Builds "Absorbance" as a byte vector.
pub fn lit_absorbance_vec() -> (r: Vec<u8>)
    ensures
        r@ == lit_absorbance(),
{
    let mut v: Vec<u8> = Vec::new();
    v.push(0x41);
    v.push(0x62);
    v.push(0x73);
    v.push(0x6f);
    v.push(0x72);
    v.push(0x62);
    v.push(0x61);
    v.push(0x6e);
    v.push(0x63);
    v.push(0x65);
    proof {
        assert(v@ =~= lit_absorbance());
    }
    v
}

/// The read type a token declares, if any.
pub open spec fn spec_read_type(tok: Seq<u8>) -> Option<ReadType> {
    if tok == lit_endpoint() {
        Some(ReadType::Endpoint)
    } else if tok == lit_well_scan() {
        Some(ReadType::WellScan)
    } else {
        None
    }
}

/// The read mode a token declares, if any.
pub open spec fn spec_read_mode(tok: Seq<u8>) -> Option<ReadMode> {
    if tok == lit_fluorescence() {
        Some(ReadMode::Fluorescence)
    } else if tok == lit_absorbance() {
        Some(ReadMode::Absorbance)
    } else {
        None
    }
}

impl ReadType {
    /// Reads a read-type token; everything outside the closed set is
    /// rejected with the token.
    pub fn from_str(tok: &Vec<u8>) -> (r: Result<ReadType, FormatError>)
        ensures
            match r {
                Ok(t) => spec_read_type(tok@) == Some(t),
                Err(e) => spec_read_type(tok@) is None && e@ == FormatErrorV::UnknownEnum(
                    EnumKind::ReadType,
                    tok@,
                ),
            },
    {
        let endpoint = lit_endpoint_vec();
        if crate::bytes::bytes_eq(tok, &endpoint) {
            return Ok(ReadType::Endpoint);
        }
        let well_scan = lit_well_scan_vec();
        if crate::bytes::bytes_eq(tok, &well_scan) {
            return Ok(ReadType::WellScan);
        }
        let raw = copy_range(tok, 0, tok.len());
        proof {
            assert(raw@ =~= tok@);
        }
        Err(FormatError::UnknownEnum(EnumKind::ReadType, raw))
    }
}

impl ReadMode {
    /// Reads a read-mode token; everything outside the closed set is
    /// rejected with the token.
    pub fn from_str(tok: &Vec<u8>) -> (r: Result<ReadMode, FormatError>)
        ensures
            match r {
                Ok(m) => spec_read_mode(tok@) == Some(m),
                Err(e) => spec_read_mode(tok@) is None && e@ == FormatErrorV::UnknownEnum(
                    EnumKind::ReadMode,
                    tok@,
                ),
            },
    {
        let fluorescence = lit_fluorescence_vec();
        if crate::bytes::bytes_eq(tok, &fluorescence) {
            return Ok(ReadMode::Fluorescence);
        }
        let absorbance = lit_absorbance_vec();
        if crate::bytes::bytes_eq(tok, &absorbance) {
            return Ok(ReadMode::Absorbance);
        }
        let raw = copy_range(tok, 0, tok.len());
        proof {
            assert(raw@ =~= tok@);
        }
        Err(FormatError::UnknownEnum(EnumKind::ReadMode, raw))
    }
}

/// Geometry and read plan of a block, resolved from its settings row.
#[derive(Debug, Clone, PartialEq, Eq)]
pub struct PlateInfo {
    pub plate_size: u32,
    pub row_start: u8,
    pub row_span: u8,
    pub col_start: u8,
    pub col_span: u8,
    pub reads: usize,
    pub wavelengths: Vec<Wavelength>,
}

/// The mathematical shape of a `PlateInfo`.
pub struct PlateInfoV {
    pub plate_size: u32,
    pub row_start: u8,
    pub row_span: u8,
    pub col_start: u8,
    pub col_span: u8,
    pub reads: usize,
    pub wavelengths: Seq<Wavelength>,
}

impl View for PlateInfo {
    type V = PlateInfoV;

    open spec fn view(&self) -> PlateInfoV {
        PlateInfoV {
            plate_size: self.plate_size,
            row_start: self.row_start,
            row_span: self.row_span,
            col_start: self.col_start,
            col_span: self.col_span,
            reads: self.reads,
            wavelengths: self.wavelengths@,
        }
    }
}

impl PlateInfo {
    /// How many non-spacer cells one read of this plate can hold at most:
    /// one per wavelength for each well of the declared sub-grid.
    pub fn total_wells_read(&self) -> (r: usize)
        requires
            (self.row_span as int) * (self.col_span as int) * self.wavelengths@.len()
                <= usize::MAX,
        ensures
            r == (self.row_span as int) * (self.col_span as int) * self.wavelengths@.len(),
    {
        let rows = self.row_span as usize;
        let cols = self.col_span as usize;
        proof {
            assert((self.row_span as int) * (self.col_span as int) <= 255 * 255) by (nonlinear_arith)
                requires
                    self.row_span <= 255,
                    self.col_span <= 255,
            ;
            assert((self.row_span as int) * (self.col_span as int) * self.wavelengths@.len()
                >= (self.row_span as int) * (self.col_span as int) * 0) by (nonlinear_arith);
        }
        let cells = rows * cols;
        proof {
            assert(cells * self.wavelengths@.len() == (self.row_span as int) * (
            self.col_span as int) * self.wavelengths@.len()) by (nonlinear_arith)
                requires
                    cells == (self.row_span as int) * (self.col_span as int),
            ;
        }
        cells * self.wavelengths.len()
    }
}

/// Looks a required unsigned-integer field up in the settings tokens:
/// absent means the row is truncated, unparseable or out-of-range means
/// the field fails with its raw token.
pub open spec fn uint_field(keys: Seq<Seq<u8>>, idx: int, f: Field, max: int) -> Result<
    int,
    FormatErrorV,
> {
    if idx >= keys.len() {
        Result::Err(FormatErrorV::TruncatedSettings)
    } else if is_uint_token(keys[idx]) && uint_val(keys[idx]) <= max {
        Result::Ok(uint_val(keys[idx]))
    } else {
        Result::Err(FormatErrorV::FieldParseFailure(f, keys[idx]))
    }
}

fn get_uint_field(keys: &Vec<Vec<u8>>, idx: usize, f: Field, max: u64) -> (r: Result<
    u64,
    FormatError,
>)
    ensures
        match r {
            Ok(v) => v <= max && uint_field(keys.deep_view(), idx as int, f, max as int)
                == Result::<int, FormatErrorV>::Ok(v as int),
            Err(e) => uint_field(keys.deep_view(), idx as int, f, max as int) == Result::<
                int,
                FormatErrorV,
            >::Err(e@),
        },
{
    if idx >= keys.len() {
        return Err(FormatError::TruncatedSettings);
    }
    proof {
        assert(keys.deep_view()[idx as int] =~= keys@[idx as int]@);
    }
    match parse_u64(&keys[idx]) {
        Some(v) => {
            if v <= max {
                Ok(v)
            } else {
                let raw = copy_range(&keys[idx], 0, keys[idx].len());
                proof {
                    assert(raw@ =~= keys@[idx as int]@);
                }
                Err(FormatError::FieldParseFailure(f, raw))
            }
        },
        None => {
            let raw = copy_range(&keys[idx], 0, keys[idx].len());
            proof {
                assert(raw@ =~= keys@[idx as int]@);
            }
            Err(FormatError::FieldParseFailure(f, raw))
        },
    }
}

/// Reads the first `n` whitespace-separated absorbance wavelengths; a
/// shorter list is taken as it stands, and later tokens are ignored.
pub open spec fn abs_waves_spec(toks: Seq<Seq<u8>>, n: int) -> Result<
    Seq<Wavelength>,
    FormatErrorV,
>
    decreases n,
{
    if n <= 0 || toks.len() == 0 {
        Result::Ok(Seq::<Wavelength>::empty())
    } else if is_uint_token(toks[0]) && uint_val(toks[0]) <= u16::MAX {
        match abs_waves_spec(toks.skip(1), n - 1) {
            Result::Ok(rest) => Result::Ok(
                seq![Wavelength::Absorbance(uint_val(toks[0]) as u16)] + rest,
            ),
            Result::Err(e) => Result::Err(e),
        }
    } else {
        Result::Err(FormatErrorV::FieldParseFailure(Field::Wavelength, toks[0]))
    }
}

fn parse_abs_waves(toks: &Vec<Vec<u8>>, n: usize) -> (r: Result<Vec<Wavelength>, FormatError>)
    ensures
        match r {
            Ok(ws) => abs_waves_spec(toks.deep_view(), n as int) == Result::<
                Seq<Wavelength>,
                FormatErrorV,
            >::Ok(ws@),
            Err(e) => abs_waves_spec(toks.deep_view(), n as int) == Result::<
                Seq<Wavelength>,
                FormatErrorV,
            >::Err(e@),
        },
{
    let mut ws: Vec<Wavelength> = Vec::new();
    let mut i: usize = 0;
    let count = if n <= toks.len() {
        n
    } else {
        toks.len()
    };
    proof {
        assert(toks.deep_view().skip(0) =~= toks.deep_view());
        if let Result::Ok(rest) = abs_waves_spec(toks.deep_view(), n as int) {
            assert(ws@ + rest =~= rest);
        }
    }
    while i < count
        invariant
            0 <= i <= count <= toks.len(),
            count == if n <= toks.len() {
                n as int
            } else {
                toks.len() as int
            },
            ws@.len() == i,
            abs_waves_spec(toks.deep_view(), n as int) == match abs_waves_spec(
                toks.deep_view().skip(i as int),
                n - i,
            ) {
                Result::Ok(rest) => Result::<Seq<Wavelength>, FormatErrorV>::Ok(ws@ + rest),
                Result::Err(e) => Result::<Seq<Wavelength>, FormatErrorV>::Err(e),
            },
        decreases count - i,
    {
        let ghost rem = toks.deep_view().skip(i as int);
        proof {
            assert(rem[0] =~= toks@[i as int]@);
            assert(rem.skip(1) =~= toks.deep_view().skip(i + 1));
        }
        match parse_u64(&toks[i]) {
            Some(v) if v <= 65535 => {
                let ghost old_ws = ws@;
                ws.push(Wavelength::Absorbance(v as u16));
                proof {
                    assert(abs_waves_spec(rem, n - i) == match abs_waves_spec(
                        rem.skip(1),
                        n - i - 1,
                    ) {
                        Result::Ok(rest) => Result::<Seq<Wavelength>, FormatErrorV>::Ok(
                            seq![Wavelength::Absorbance(v as u16)] + rest,
                        ),
                        Result::Err(e) => Result::<Seq<Wavelength>, FormatErrorV>::Err(e),
                    });
                    if let Result::Ok(rest) = abs_waves_spec(rem.skip(1), (n - i - 1) as int) {
                        assert(old_ws + (seq![Wavelength::Absorbance(v as u16)] + rest) =~= ws@
                            + rest);
                    }
                }
            },
            _ => {
                let raw = copy_range(&toks[i], 0, toks[i].len());
                proof {
                    assert(raw@ =~= toks@[i as int]@);
                    assert(abs_waves_spec(rem, n - i) == Result::<
                        Seq<Wavelength>,
                        FormatErrorV,
                    >::Err(FormatErrorV::FieldParseFailure(Field::Wavelength, raw@)));
                }
                return Err(FormatError::FieldParseFailure(Field::Wavelength, raw));
            },
        }
        i = i + 1;
    }
    proof {
        let rem = toks.deep_view().skip(i as int);
        assert(abs_waves_spec(rem, n - i) == Result::<Seq<Wavelength>, FormatErrorV>::Ok(
            Seq::<Wavelength>::empty(),
        ));
        assert(ws@ + Seq::<Wavelength>::empty() =~= ws@);
    }
    Ok(ws)
}

/// Reads the first `n` positions of the zipped excitation and emission
/// lists as fluorescence channels; the shorter list bounds the count.
pub open spec fn fl_waves_spec(exs: Seq<Seq<u8>>, ems: Seq<Seq<u8>>, n: int) -> Result<
    Seq<Wavelength>,
    FormatErrorV,
>
    decreases n,
{
    if n <= 0 || exs.len() == 0 || ems.len() == 0 {
        Result::Ok(Seq::<Wavelength>::empty())
    } else if !(is_uint_token(exs[0]) && uint_val(exs[0]) <= u16::MAX) {
        Result::Err(FormatErrorV::FieldParseFailure(Field::Wavelength, exs[0]))
    } else if !(is_uint_token(ems[0]) && uint_val(ems[0]) <= u16::MAX) {
        Result::Err(FormatErrorV::FieldParseFailure(Field::Wavelength, ems[0]))
    } else {
        match fl_waves_spec(exs.skip(1), ems.skip(1), n - 1) {
            Result::Ok(rest) => Result::Ok(
                seq![
                    Wavelength::Fluorescence(
                        uint_val(exs[0]) as u16,
                        uint_val(ems[0]) as u16,
                    )
                ] + rest,
            ),
            Result::Err(e) => Result::Err(e),
        }
    }
}

fn parse_fl_waves(exs: &Vec<Vec<u8>>, ems: &Vec<Vec<u8>>, n: usize) -> (r: Result<
    Vec<Wavelength>,
    FormatError,
>)
    ensures
        match r {
            Ok(ws) => fl_waves_spec(exs.deep_view(), ems.deep_view(), n as int) == Result::<
                Seq<Wavelength>,
                FormatErrorV,
            >::Ok(ws@),
            Err(e) => fl_waves_spec(exs.deep_view(), ems.deep_view(), n as int) == Result::<
                Seq<Wavelength>,
                FormatErrorV,
            >::Err(e@),
        },
{
    let mut ws: Vec<Wavelength> = Vec::new();
    let mut i: usize = 0;
    let mut count = if n <= exs.len() {
        n
    } else {
        exs.len()
    };
    if ems.len() < count {
        count = ems.len();
    }
    proof {
        assert(exs.deep_view().skip(0) =~= exs.deep_view());
        assert(ems.deep_view().skip(0) =~= ems.deep_view());
        if let Result::Ok(rest) = fl_waves_spec(exs.deep_view(), ems.deep_view(), n as int) {
            assert(ws@ + rest =~= rest);
        }
    }
    while i < count
        invariant
            0 <= i <= count,
            count <= exs.len(),
            count <= ems.len(),
            count == if n as int <= exs@.len() && n as int <= ems@.len() {
                n as int
            } else if exs@.len() <= ems@.len() {
                exs@.len() as int
            } else {
                ems@.len() as int
            },
            ws@.len() == i,
            fl_waves_spec(exs.deep_view(), ems.deep_view(), n as int) == match fl_waves_spec(
                exs.deep_view().skip(i as int),
                ems.deep_view().skip(i as int),
                n - i,
            ) {
                Result::Ok(rest) => Result::<Seq<Wavelength>, FormatErrorV>::Ok(ws@ + rest),
                Result::Err(e) => Result::<Seq<Wavelength>, FormatErrorV>::Err(e),
            },
        decreases count - i,
    {
        let ghost reme = exs.deep_view().skip(i as int);
        let ghost remm = ems.deep_view().skip(i as int);
        proof {
            assert(reme[0] =~= exs@[i as int]@);
            assert(remm[0] =~= ems@[i as int]@);
            assert(reme.skip(1) =~= exs.deep_view().skip(i + 1));
            assert(remm.skip(1) =~= ems.deep_view().skip(i + 1));
        }
        let ex_val = match parse_u64(&exs[i]) {
            Some(v) if v <= 65535 => v as u16,
            _ => {
                let raw = copy_range(&exs[i], 0, exs[i].len());
                proof {
                    assert(raw@ =~= exs@[i as int]@);
                }
                return Err(FormatError::FieldParseFailure(Field::Wavelength, raw));
            },
        };
        let em_val = match parse_u64(&ems[i]) {
            Some(v) if v <= 65535 => v as u16,
            _ => {
                let raw = copy_range(&ems[i], 0, ems[i].len());
                proof {
                    assert(raw@ =~= ems@[i as int]@);
                }
                return Err(FormatError::FieldParseFailure(Field::Wavelength, raw));
            },
        };
        let ghost old_ws = ws@;
        ws.push(Wavelength::Fluorescence(ex_val, em_val));
        proof {
            if let Result::Ok(rest) = fl_waves_spec(reme.skip(1), remm.skip(1), n - i - 1) {
                assert(old_ws + (seq![Wavelength::Fluorescence(ex_val, em_val)] + rest) =~= ws@
                    + rest);
            }
        }
        i = i + 1;
    }
    proof {
        let reme = exs.deep_view().skip(i as int);
        let remm = ems.deep_view().skip(i as int);
        assert(reme.len() == exs@.len() - i);
        assert(remm.len() == ems@.len() - i);
        assert(fl_waves_spec(reme, remm, n - i) == Result::<Seq<Wavelength>, FormatErrorV>::Ok(
            Seq::<Wavelength>::empty(),
        ));
        assert(ws@ + Seq::<Wavelength>::empty() =~= ws@);
    }
    Ok(ws)
}

/// The layout-table row for Endpoint x Absorbance: read count at token 2,
/// row start/span at 13/14, column start/span at 10/11, plate size at 12,
/// wavelength count at 8, and the wavelength list at 9.
pub open spec fn ea_info_spec(keys: Seq<Seq<u8>>) -> Result<PlateInfoV, FormatErrorV> {
    match uint_field(keys, 2, Field::ReadCount, usize::MAX as int) {
        Result::Err(e) => Result::Err(e),
        Result::Ok(reads) => match uint_field(keys, 13, Field::RowStart, u8::MAX as int) {
            Result::Err(e) => Result::Err(e),
            Result::Ok(row_start) => match uint_field(keys, 14, Field::RowSpan, u8::MAX as int) {
                Result::Err(e) => Result::Err(e),
                Result::Ok(row_span) => match uint_field(
                    keys,
                    10,
                    Field::ColStart,
                    u8::MAX as int,
                ) {
                    Result::Err(e) => Result::Err(e),
                    Result::Ok(col_start) => match uint_field(
                        keys,
                        11,
                        Field::ColSpan,
                        u8::MAX as int,
                    ) {
                        Result::Err(e) => Result::Err(e),
                        Result::Ok(col_span) => match uint_field(
                            keys,
                            12,
                            Field::PlateSize,
                            u32::MAX as int,
                        ) {
                            Result::Err(e) => Result::Err(e),
                            Result::Ok(plate_size) => match uint_field(
                                keys,
                                8,
                                Field::WaveCount,
                                usize::MAX as int,
                            ) {
                                Result::Err(e) => Result::Err(e),
                                Result::Ok(wave_no) => match abs_waves_spec(
                                    ws_tokens(keys[9]),
                                    wave_no,
                                ) {
                                    Result::Err(e) => Result::Err(e),
                                    Result::Ok(ws) => Result::Ok(
                                        PlateInfoV {
                                            plate_size: plate_size as u32,
                                            row_start: row_start as u8,
                                            row_span: row_span as u8,
                                            col_start: col_start as u8,
                                            col_span: col_span as u8,
                                            reads: reads as usize,
                                            wavelengths: ws,
                                        },
                                    ),
                                },
                            },
                        },
                    },
                },
            },
        },
    }
}

/// The layout-table row shared by Endpoint x Fluorescence and
/// WellScan x Fluorescence: read count at token 3, row start/span at
/// 23/24, column start/span at 11/12, plate size at 13, wavelength count
/// at 9, the emission list at 10 and the excitation list at 14, zipped.
pub open spec fn fl_info_spec(keys: Seq<Seq<u8>>) -> Result<PlateInfoV, FormatErrorV> {
    match uint_field(keys, 3, Field::ReadCount, usize::MAX as int) {
        Result::Err(e) => Result::Err(e),
        Result::Ok(reads) => match uint_field(keys, 23, Field::RowStart, u8::MAX as int) {
            Result::Err(e) => Result::Err(e),
            Result::Ok(row_start) => match uint_field(keys, 24, Field::RowSpan, u8::MAX as int) {
                Result::Err(e) => Result::Err(e),
                Result::Ok(row_span) => match uint_field(
                    keys,
                    11,
                    Field::ColStart,
                    u8::MAX as int,
                ) {
                    Result::Err(e) => Result::Err(e),
                    Result::Ok(col_start) => match uint_field(
                        keys,
                        12,
                        Field::ColSpan,
                        u8::MAX as int,
                    ) {
                        Result::Err(e) => Result::Err(e),
                        Result::Ok(col_span) => match uint_field(
                            keys,
                            13,
                            Field::PlateSize,
                            u32::MAX as int,
                        ) {
                            Result::Err(e) => Result::Err(e),
                            Result::Ok(plate_size) => match uint_field(
                                keys,
                                9,
                                Field::WaveCount,
                                usize::MAX as int,
                            ) {
                                Result::Err(e) => Result::Err(e),
                                Result::Ok(wave_no) => match fl_waves_spec(
                                    ws_tokens(keys[14]),
                                    ws_tokens(keys[10]),
                                    wave_no,
                                ) {
                                    Result::Err(e) => Result::Err(e),
                                    Result::Ok(ws) => Result::Ok(
                                        PlateInfoV {
                                            plate_size: plate_size as u32,
                                            row_start: row_start as u8,
                                            row_span: row_span as u8,
                                            col_start: col_start as u8,
                                            col_span: col_span as u8,
                                            reads: reads as usize,
                                            wavelengths: ws,
                                        },
                                    ),
                                },
                            },
                        },
                    },
                },
            },
        },
    }
}

/// The layout table itself: which (read type, read mode) pairs are
/// supported, and how each reads its settings tokens. The set is closed;
/// a new instrument variant is a new table row, not new parsing logic.
pub open spec fn plate_info_spec(rt: ReadType, rm: ReadMode, keys: Seq<Seq<u8>>) -> Result<
    PlateInfoV,
    FormatErrorV,
> {
    match (rt, rm) {
        (ReadType::Endpoint, ReadMode::Absorbance) => ea_info_spec(keys),
        (ReadType::Endpoint, ReadMode::Fluorescence) => fl_info_spec(keys),
        (ReadType::WellScan, ReadMode::Fluorescence) => fl_info_spec(keys),
        (ReadType::WellScan, ReadMode::Absorbance) => Result::Err(
            FormatErrorV::UnsupportedVariant(rt, rm),
        ),
    }
}

impl PlateInfo {
    /// Resolves the settings tokens after the common prefix (token 6
    /// onward of the settings row) through the layout table.
    pub fn from_text(read_type: ReadType, read_mode: ReadMode, keys: &Vec<Vec<u8>>) -> (r: Result<
        PlateInfo,
        FormatError,
    >)
        ensures
            match r {
                Ok(info) => plate_info_spec(read_type, read_mode, keys.deep_view()) == Result::<
                    PlateInfoV,
                    FormatErrorV,
                >::Ok(info@),
                Err(e) => plate_info_spec(read_type, read_mode, keys.deep_view()) == Result::<
                    PlateInfoV,
                    FormatErrorV,
                >::Err(e@),
            },
    {
        match (read_type, read_mode) {
            (ReadType::Endpoint, ReadMode::Absorbance) => {
                let reads = match get_uint_field(keys, 2, Field::ReadCount, usize::MAX as u64) {
                    Ok(v) => v as usize,
                    Err(e) => {
                        return Err(e);
                    },
                };
                let row_start = match get_uint_field(keys, 13, Field::RowStart, u8::MAX as u64) {
                    Ok(v) => v as u8,
                    Err(e) => {
                        return Err(e);
                    },
                };
                let row_span = match get_uint_field(keys, 14, Field::RowSpan, u8::MAX as u64) {
                    Ok(v) => v as u8,
                    Err(e) => {
                        return Err(e);
                    },
                };
                let col_start = match get_uint_field(keys, 10, Field::ColStart, u8::MAX as u64) {
                    Ok(v) => v as u8,
                    Err(e) => {
                        return Err(e);
                    },
                };
                let col_span = match get_uint_field(keys, 11, Field::ColSpan, u8::MAX as u64) {
                    Ok(v) => v as u8,
                    Err(e) => {
                        return Err(e);
                    },
                };
                let plate_size = match get_uint_field(keys, 12, Field::PlateSize, u32::MAX as u64) {
                    Ok(v) => v as u32,
                    Err(e) => {
                        return Err(e);
                    },
                };
                let wave_no = match get_uint_field(keys, 8, Field::WaveCount, usize::MAX as u64) {
                    Ok(v) => v as usize,
                    Err(e) => {
                        return Err(e);
                    },
                };
                let wave_toks = split_whitespace_tokens(&keys[9]);
                proof {
                    assert(keys.deep_view()[9] =~= keys@[9]@);
                }
                let wavelengths = match parse_abs_waves(&wave_toks, wave_no) {
                    Ok(ws) => ws,
                    Err(e) => {
                        return Err(e);
                    },
                };
                Ok(
                    PlateInfo {
                        plate_size,
                        row_start,
                        row_span,
                        col_start,
                        col_span,
                        reads,
                        wavelengths,
                    },
                )
            },
            (ReadType::Endpoint, ReadMode::Fluorescence) | (
                ReadType::WellScan,
                ReadMode::Fluorescence,
            ) => {
                let reads = match get_uint_field(keys, 3, Field::ReadCount, usize::MAX as u64) {
                    Ok(v) => v as usize,
                    Err(e) => {
                        return Err(e);
                    },
                };
                let row_start = match get_uint_field(keys, 23, Field::RowStart, u8::MAX as u64) {
                    Ok(v) => v as u8,
                    Err(e) => {
                        return Err(e);
                    },
                };
                let row_span = match get_uint_field(keys, 24, Field::RowSpan, u8::MAX as u64) {
                    Ok(v) => v as u8,
                    Err(e) => {
                        return Err(e);
                    },
                };
                let col_start = match get_uint_field(keys, 11, Field::ColStart, u8::MAX as u64) {
                    Ok(v) => v as u8,
                    Err(e) => {
                        return Err(e);
                    },
                };
                let col_span = match get_uint_field(keys, 12, Field::ColSpan, u8::MAX as u64) {
                    Ok(v) => v as u8,
                    Err(e) => {
                        return Err(e);
                    },
                };
                let plate_size = match get_uint_field(keys, 13, Field::PlateSize, u32::MAX as u64) {
                    Ok(v) => v as u32,
                    Err(e) => {
                        return Err(e);
                    },
                };
                let wave_no = match get_uint_field(keys, 9, Field::WaveCount, usize::MAX as u64) {
                    Ok(v) => v as usize,
                    Err(e) => {
                        return Err(e);
                    },
                };
                let ex_toks = split_whitespace_tokens(&keys[14]);
                let em_toks = split_whitespace_tokens(&keys[10]);
                proof {
                    assert(keys.deep_view()[14] =~= keys@[14]@);
                    assert(keys.deep_view()[10] =~= keys@[10]@);
                }
                let wavelengths = match parse_fl_waves(&ex_toks, &em_toks, wave_no) {
                    Ok(ws) => ws,
                    Err(e) => {
                        return Err(e);
                    },
                };
                Ok(
                    PlateInfo {
                        plate_size,
                        row_start,
                        row_span,
                        col_start,
                        col_span,
                        reads,
                        wavelengths,
                    },
                )
            },
            (ReadType::WellScan, ReadMode::Absorbance) => Err(
                FormatError::UnsupportedVariant(read_type, read_mode),
            ),
        }
    }
}

/// The tokens of a settings row: the tab-separated fields, each trimmed.
pub open spec fn settings_tokens(line: Seq<u8>) -> Seq<Seq<u8>> {
    split_tab_spec(line).map_values(|f: Seq<u8>| trim(f))
}

/// Splits a settings row into its trimmed tokens.
pub fn settings_tokens_vec(line: &Vec<u8>) -> (r: Vec<Vec<u8>>)
    ensures
        r.deep_view() == settings_tokens(line@),
{
    let fields = split_tab(line);
    let mut out: Vec<Vec<u8>> = Vec::new();
    let mut i: usize = 0;
    while i < fields.len()
        invariant
            0 <= i <= fields.len(),
            fields.deep_view() == split_tab_spec(line@),
            fields@.len() == split_tab_spec(line@).len(),
            out.deep_view() == settings_tokens(line@).take(i as int),
        decreases fields.len() - i,
    {
        proof {
            assert(fields.deep_view()[i as int] =~= fields@[i as int]@);
        }
        let t = trim_bytes(&fields[i]);
        let ghost tv = t@;
        let ghost old_deep = out.deep_view();
        out.push(t);
        proof {
            assert(out.deep_view() =~~= old_deep.push(tv));
            assert(tv == settings_tokens(line@)[i as int]);
            assert(old_deep.push(tv) =~= settings_tokens(line@).take(i + 1));
        }
        i = i + 1;
    }
    proof {
        assert(settings_tokens(line@).take(fields@.len() as int) =~= settings_tokens(line@));
    }
    out
}

/// Copies the fields from `k` onward.
pub fn tail_fields(v: &Vec<Vec<u8>>, k: usize) -> (r: Vec<Vec<u8>>)
    requires
        k <= v.len(),
    ensures
        r.deep_view() == v.deep_view().skip(k as int),
{
    let mut r: Vec<Vec<u8>> = Vec::new();
    let mut i: usize = k;
    while i < v.len()
        invariant
            k <= i <= v.len(),
            r.deep_view() == v.deep_view().subrange(k as int, i as int),
        decreases v.len() - i,
    {
        let f = copy_range(&v[i], 0, v[i].len());
        let ghost fv = f@;
        proof {
            assert(fv =~= v@[i as int]@);
            assert(v.deep_view()[i as int] =~= v@[i as int]@);
        }
        let ghost old_deep = r.deep_view();
        r.push(f);
        proof {
            assert(r.deep_view() =~~= old_deep.push(fv));
            assert(old_deep.push(fv) =~= v.deep_view().subrange(k as int, i + 1));
        }
        i = i + 1;
    }
    proof {
        assert(v.deep_view().subrange(k as int, v@.len() as int) =~= v.deep_view().skip(
            k as int,
        ));
    }
    r
}

/// The declared shape and semantics of one block, from its settings row.
#[derive(Debug, Clone, PartialEq, Eq)]
pub struct PlateSettings {
    pub name: Vec<u8>,
    pub read_type: ReadType,
    pub read_mode: ReadMode,
    pub info: PlateInfo,
}

/// The mathematical shape of a `PlateSettings`.
pub struct PlateSettingsV {
    pub name: Seq<u8>,
    pub read_type: ReadType,
    pub read_mode: ReadMode,
    pub info: PlateInfoV,
}

impl View for PlateSettings {
    type V = PlateSettingsV;

    open spec fn view(&self) -> PlateSettingsV {
        PlateSettingsV {
            name: self.name@,
            read_type: self.read_type,
            read_mode: self.read_mode,
            info: self.info@,
        }
    }
}

/// What one settings row means: fewer than six tokens is a truncated row;
/// token 1 is the plate name, token 4 the read type, token 5 the read
/// mode; tokens 6 onward go through the layout table.
pub open spec fn plate_settings_spec(line: Seq<u8>) -> Result<PlateSettingsV, FormatErrorV> {
    let toks = settings_tokens(line);
    if toks.len() < 6 {
        Result::Err(FormatErrorV::TruncatedSettings)
    } else {
        match spec_read_type(toks[4]) {
            None => Result::Err(FormatErrorV::UnknownEnum(EnumKind::ReadType, toks[4])),
            Some(rt) => match spec_read_mode(toks[5]) {
                None => Result::Err(FormatErrorV::UnknownEnum(EnumKind::ReadMode, toks[5])),
                Some(rm) => match plate_info_spec(rt, rm, toks.skip(6)) {
                    Result::Err(e) => Result::Err(e),
                    Result::Ok(info) => Result::Ok(
                        PlateSettingsV { name: toks[1], read_type: rt, read_mode: rm, info },
                    ),
                },
            },
        }
    }
}

impl PlateSettings {
    /// Parses one settings row.
    pub fn parse(line: &Vec<u8>) -> (r: Result<PlateSettings, FormatError>)
        ensures
            match r {
                Ok(s) => plate_settings_spec(line@) == Result::<
                    PlateSettingsV,
                    FormatErrorV,
                >::Ok(s@),
                Err(e) => plate_settings_spec(line@) == Result::<
                    PlateSettingsV,
                    FormatErrorV,
                >::Err(e@),
            },
    {
        let toks = settings_tokens_vec(line);
        if toks.len() < 6 {
            return Err(FormatError::TruncatedSettings);
        }
        proof {
            assert(toks.deep_view()[1] =~= toks@[1]@);
            assert(toks.deep_view()[4] =~= toks@[4]@);
            assert(toks.deep_view()[5] =~= toks@[5]@);
        }
        let read_type = match ReadType::from_str(&toks[4]) {
            Ok(t) => t,
            Err(e) => {
                return Err(e);
            },
        };
        let read_mode = match ReadMode::from_str(&toks[5]) {
            Ok(m) => m,
            Err(e) => {
                return Err(e);
            },
        };
        let name = copy_range(&toks[1], 0, toks[1].len());
        proof {
            assert(name@ =~= toks@[1]@);
        }
        let keys = tail_fields(&toks, 6);
        let info = match PlateInfo::from_text(read_type, read_mode, &keys) {
            Ok(i) => i,
            Err(e) => {
                return Err(e);
            },
        };
        Ok(PlateSettings { name, read_type, read_mode, info })
    }
}

/// Layout determinism. Resolving a settings row is a pure function of
/// the (read type, read mode) pair and the tokens, so equal inputs give
/// equal layouts; and the pair alone selects the table row: the one
/// unsupported pair always fails, the two fluorescence variants share
/// one row, and each successful resolution takes every field from the
/// token index its table row names.
pub proof fn lemma_layout_table(keys: Seq<Seq<u8>>)
    ensures
        plate_info_spec(ReadType::WellScan, ReadMode::Absorbance, keys) == Result::<
            PlateInfoV,
            FormatErrorV,
        >::Err(FormatErrorV::UnsupportedVariant(ReadType::WellScan, ReadMode::Absorbance)),
        plate_info_spec(ReadType::Endpoint, ReadMode::Fluorescence, keys) == plate_info_spec(
            ReadType::WellScan,
            ReadMode::Fluorescence,
            keys,
        ),
        match plate_info_spec(ReadType::Endpoint, ReadMode::Absorbance, keys) {
            Result::Ok(info) => {
                &&& keys.len() > 14
                &&& info.reads == uint_val(keys[2])
                &&& info.row_start == uint_val(keys[13])
                &&& info.row_span == uint_val(keys[14])
                &&& info.col_start == uint_val(keys[10])
                &&& info.col_span == uint_val(keys[11])
                &&& info.plate_size == uint_val(keys[12])
                &&& abs_waves_spec(ws_tokens(keys[9]), uint_val(keys[8])) == Result::<
                    Seq<Wavelength>,
                    FormatErrorV,
                >::Ok(info.wavelengths)
            },
            Result::Err(e) => true,
        },
        match plate_info_spec(ReadType::Endpoint, ReadMode::Fluorescence, keys) {
            Result::Ok(info) => {
                &&& keys.len() > 24
                &&& info.reads == uint_val(keys[3])
                &&& info.row_start == uint_val(keys[23])
                &&& info.row_span == uint_val(keys[24])
                &&& info.col_start == uint_val(keys[11])
                &&& info.col_span == uint_val(keys[12])
                &&& info.plate_size == uint_val(keys[13])
                &&& fl_waves_spec(ws_tokens(keys[14]), ws_tokens(keys[10]), uint_val(keys[9]))
                    == Result::<Seq<Wavelength>, FormatErrorV>::Ok(info.wavelengths)
            },
            Result::Err(e) => true,
        },
{
    crate::num::lemma_uint_val_nonneg(keys[2]);
    crate::num::lemma_uint_val_nonneg(keys[3]);
    crate::num::lemma_uint_val_nonneg(keys[8]);
    crate::num::lemma_uint_val_nonneg(keys[9]);
    crate::num::lemma_uint_val_nonneg(keys[10]);
    crate::num::lemma_uint_val_nonneg(keys[11]);
    crate::num::lemma_uint_val_nonneg(keys[12]);
    crate::num::lemma_uint_val_nonneg(keys[13]);
    crate::num::lemma_uint_val_nonneg(keys[14]);
    crate::num::lemma_uint_val_nonneg(keys[23]);
    crate::num::lemma_uint_val_nonneg(keys[24]);
}

} // verus!
