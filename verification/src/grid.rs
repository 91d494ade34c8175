//! The read-grid parser: one read (timepoint) is `row_span` grid lines
//! followed by one discarded spacer line. Each grid line carries two
//! metadata columns (elapsed time and temperature, read once per read)
//! and then one window of `col_span + 1` columns per wavelength, the last
//! column of each window being a spacer that is discarded unread. Blank
//! cells are dropped, not zero-filled; numeric cells are carried as
//! validated float tokens.
use crate::bytes::copy_range;
use crate::bytes::find_byte;
use crate::bytes::find_byte_at;
use crate::bytes::split_tab;
use crate::bytes::split_tab_spec;
use crate::bytes::trim;
use crate::bytes::trim_bytes;
use crate::error::Field;
use crate::error::FormatError;
use crate::error::FormatErrorV;
use crate::error::ParseError;
use crate::error::ParseErrorV;
use crate::num::check_finite_float_token;
use crate::num::check_float_token;
use crate::num::is_finite_float_token;
use crate::num::is_float_token;
use crate::settings::PlateInfo;
use crate::settings::PlateInfoV;
use crate::settings::ReadType;
use crate::settings::Wavelength;
use vstd::prelude::*;

verus! {

/// An elapsed time of a WellScan read, as its `H:MM[:SS]` parts. Each
/// part is a finite float token; turning the three into one hour count is
/// arithmetic on the measured values and is left to the caller at the
/// boundary.
#[derive(Debug, Clone, PartialEq, Eq)]
pub struct ElapsedTime {
    pub hours: Vec<u8>,
    pub minutes: Vec<u8>,
    pub seconds: Option<Vec<u8>>,
}

/// The mathematical shape of an `ElapsedTime`.
pub struct ElapsedTimeV {
    pub hours: Seq<u8>,
    pub minutes: Seq<u8>,
    pub seconds: Option<Seq<u8>>,
}

impl View for ElapsedTime {
    type V = ElapsedTimeV;

    open spec fn view(&self) -> ElapsedTimeV {
        ElapsedTimeV {
            hours: self.hours@,
            minutes: self.minutes@,
            seconds: match self.seconds {
                Some(ref s) => Some(s@),
                None => None,
            },
        }
    }
}

/// Metadata shared by every well of one read: the temperature token, and
/// for WellScan reads the elapsed time.
#[derive(Debug, Clone, PartialEq, Eq)]
pub struct ReadInfo {
    pub temp: Vec<u8>,
    pub time: Option<ElapsedTime>,
}

/// The mathematical shape of a `ReadInfo`.
pub struct ReadInfoV {
    pub temp: Seq<u8>,
    pub time: Option<ElapsedTimeV>,
}

impl View for ReadInfo {
    type V = ReadInfoV;

    open spec fn view(&self) -> ReadInfoV {
        ReadInfoV {
            temp: self.temp@,
            time: match self.time {
                Some(ref t) => Some(t@),
                None => None,
            },
        }
    }
}

impl ReadInfo {
    /// The elapsed time of the read, present exactly for WellScan reads.
    pub fn get_time(&self) -> (r: Option<&ElapsedTime>)
        ensures
            match r {
                Some(t) => self@.time == Some(t@),
                None => self@.time is None,
            },
    {
        match &self.time {
            Some(t) => Some(t),
            None => None,
        }
    }
}

/// A well's zero-based (row, column) address.
pub type WellRC = (u8, u8);

/// One measured quantity: a channel, a zero-based (row, column) address,
/// and the value's token.
#[derive(Debug, PartialEq, Eq)]
pub struct WellValue {
    pub wavelength: Wavelength,
    pub well: WellRC,
    pub value: Vec<u8>,
}

/// The mathematical shape of a `WellValue`.
pub struct WellValueV {
    pub wavelength: Wavelength,
    pub well: (u8, u8),
    pub value: Seq<u8>,
}

impl View for WellValue {
    type V = WellValueV;

    open spec fn view(&self) -> WellValueV {
        WellValueV { wavelength: self.wavelength, well: self.well, value: self.value@ }
    }
}

/// The views of a well sequence.
pub open spec fn wells_deep(ws: Seq<WellValue>) -> Seq<WellValueV> {
    ws.map_values(|w: WellValue| w@)
}

/// The view of an optional read info.
pub open spec fn opt_info_view(oi: Option<ReadInfo>) -> Option<ReadInfoV> {
    match oi {
        Some(i) => Some(i@),
        None => None,
    }
}

/// What an elapsed-time token `H:MM[:SS]` means: the part before the
/// first ':' is hours, then minutes, then optionally seconds (anything
/// after a second ':' is the seconds part as it stands). Each part must
/// be a finite float token.
pub open spec fn parse_time_spec(s: Seq<u8>) -> Result<ElapsedTimeV, FormatErrorV> {
    let i = find_byte(s, 0x3a);
    let hours = if i == s.len() {
        s
    } else {
        s.take(i)
    };
    if !is_finite_float_token(hours) {
        Result::Err(FormatErrorV::FieldParseFailure(Field::TimeHours, hours))
    } else if i == s.len() {
        Result::Err(FormatErrorV::FieldParseFailure(Field::TimeMinutes, Seq::<u8>::empty()))
    } else {
        let rest = s.skip(i + 1);
        let j = find_byte(rest, 0x3a);
        let minutes = if j == rest.len() {
            rest
        } else {
            rest.take(j)
        };
        if !is_finite_float_token(minutes) {
            Result::Err(FormatErrorV::FieldParseFailure(Field::TimeMinutes, minutes))
        } else if j == rest.len() {
            Result::Ok(ElapsedTimeV { hours, minutes, seconds: None })
        } else {
            let seconds = rest.skip(j + 1);
            if !is_finite_float_token(seconds) {
                Result::Err(FormatErrorV::FieldParseFailure(Field::TimeSeconds, seconds))
            } else {
                Result::Ok(ElapsedTimeV { hours, minutes, seconds: Some(seconds) })
            }
        }
    }
}

/// Parses an elapsed-time token.
pub fn parse_time(tok: &Vec<u8>) -> (r: Result<ElapsedTime, FormatError>)
    ensures
        match r {
            Ok(t) => parse_time_spec(tok@) == Result::<ElapsedTimeV, FormatErrorV>::Ok(t@),
            Err(e) => parse_time_spec(tok@) == Result::<ElapsedTimeV, FormatErrorV>::Err(e@),
        },
{
    let i = find_byte_at(tok, 0, 0x3a);
    proof {
        assert(tok@.skip(0) =~= tok@);
    }
    let hours = copy_range(tok, 0, i);
    proof {
        if i == tok.len() {
            assert(hours@ =~= tok@);
        } else {
            assert(hours@ =~= tok@.take(i as int));
        }
    }
    if !check_finite_float_token(&hours) {
        return Err(FormatError::FieldParseFailure(Field::TimeHours, hours));
    }
    if i == tok.len() {
        return Err(FormatError::FieldParseFailure(Field::TimeMinutes, Vec::new()));
    }
    let ghost rest = tok@.skip(i + 1);
    let j = find_byte_at(tok, i + 1, 0x3a);
    let minutes = copy_range(tok, i + 1, j);
    proof {
        if j == tok.len() {
            assert(minutes@ =~= rest);
        } else {
            assert(minutes@ =~= rest.take(j - i - 1));
        }
    }
    if !check_finite_float_token(&minutes) {
        return Err(FormatError::FieldParseFailure(Field::TimeMinutes, minutes));
    }
    if j == tok.len() {
        return Ok(ElapsedTime { hours, minutes, seconds: None });
    }
    let seconds = copy_range(tok, j + 1, tok.len());
    proof {
        assert(seconds@ =~= rest.skip(j - i - 1 + 1));
    }
    if !check_finite_float_token(&seconds) {
        return Err(FormatError::FieldParseFailure(Field::TimeSeconds, seconds));
    }
    Ok(ElapsedTime { hours, minutes, seconds: Some(seconds) })
}

/// What the two metadata columns of a read's first grid line mean: for
/// Endpoint reads the first column is ignored and there is no time; for
/// WellScan reads it holds the elapsed time. The second column always
/// holds the temperature, a finite float token taken as it stands.
pub open spec fn read_info_spec(c1: Seq<u8>, c2: Seq<u8>, rt: ReadType) -> Result<
    ReadInfoV,
    FormatErrorV,
> {
    let time = match rt {
        ReadType::Endpoint => Result::Ok(None),
        ReadType::WellScan => match parse_time_spec(c1) {
            Result::Ok(t) => Result::Ok(Some(t)),
            Result::Err(e) => Result::Err(e),
        },
    };
    match time {
        Result::Err(e) => Result::Err(e),
        Result::Ok(t) => if is_finite_float_token(c2) {
            Result::Ok(ReadInfoV { temp: c2, time: t })
        } else {
            Result::Err(FormatErrorV::FieldParseFailure(Field::Temperature, c2))
        },
    }
}

impl ReadInfo {
    /// Reads the two metadata columns of a read's first grid line.
    pub fn parse_cols(c1: &Vec<u8>, c2: &Vec<u8>, rt: ReadType) -> (r: Result<
        ReadInfo,
        FormatError,
    >)
        ensures
            match r {
                Ok(i) => read_info_spec(c1@, c2@, rt) == Result::<ReadInfoV, FormatErrorV>::Ok(
                    i@,
                ),
                Err(e) => read_info_spec(c1@, c2@, rt) == Result::<
                    ReadInfoV,
                    FormatErrorV,
                >::Err(e@),
            },
    {
        let time = match rt {
            ReadType::Endpoint => None,
            ReadType::WellScan => match parse_time(c1) {
                Ok(t) => Some(t),
                Err(e) => {
                    return Err(e);
                },
            },
        };
        if check_finite_float_token(c2) {
            let temp = copy_range(c2, 0, c2.len());
            proof {
                assert(temp@ =~= c2@);
            }
            Ok(ReadInfo { temp, time })
        } else {
            let raw = copy_range(c2, 0, c2.len());
            proof {
                assert(raw@ =~= c2@);
            }
            Err(FormatError::FieldParseFailure(Field::Temperature, raw))
        }
    }
}

/// The cell at field position `idx`, trimmed; positions past the line's
/// fields are blank (the instrument may report fewer columns than the
/// declared span).
pub open spec fn cell_at(fields: Seq<Seq<u8>>, idx: int) -> Seq<u8> {
    if 0 <= idx < fields.len() {
        trim(fields[idx])
    } else {
        Seq::<u8>::empty()
    }
}

/// The wells of one wavelength window from data column `c` on: blank
/// cells are skipped, a non-float cell fails with its token, and each
/// value keeps its zero-based (row, column) address.
pub open spec fn window_wells_spec(
    fields: Seq<Seq<u8>>,
    wl: Wavelength,
    base: int,
    cs: int,
    r: u8,
    c: int,
) -> Result<Seq<WellValueV>, FormatErrorV>
    decreases cs - c,
{
    if c >= cs {
        Result::Ok(Seq::<WellValueV>::empty())
    } else {
        let cell = cell_at(fields, base + c);
        if cell.len() == 0 {
            window_wells_spec(fields, wl, base, cs, r, c + 1)
        } else if is_float_token(cell) {
            match window_wells_spec(fields, wl, base, cs, r, c + 1) {
                Result::Ok(rest) => Result::Ok(
                    seq![WellValueV { wavelength: wl, well: (r, c as u8), value: cell }] + rest,
                ),
                Result::Err(e) => Result::Err(e),
            }
        } else {
            Result::Err(FormatErrorV::FieldParseFailure(Field::WellValue, cell))
        }
    }
}

/// The wells of one grid line from wavelength window `w` on: window `w`
/// starts at field position `2 + w * (cs + 1)`, and its last column is
/// the discarded spacer.
pub open spec fn row_wells_spec(
    fields: Seq<Seq<u8>>,
    wls: Seq<Wavelength>,
    cs: int,
    r: u8,
    w: int,
) -> Result<Seq<WellValueV>, FormatErrorV>
    decreases wls.len() - w,
{
    if w >= wls.len() {
        Result::Ok(Seq::<WellValueV>::empty())
    } else {
        match window_wells_spec(fields, wls[w], 2 + w * (cs + 1), cs, r, 0) {
            Result::Err(e) => Result::Err(e),
            Result::Ok(ws) => match row_wells_spec(fields, wls, cs, r, w + 1) {
                Result::Ok(rest) => Result::Ok(ws + rest),
                Result::Err(e) => Result::Err(e),
            },
        }
    }
}

/// What one grid line means: two metadata columns (read only on the first
/// line of a read), then the wavelength windows.
pub open spec fn parse_row_spec(
    line: Seq<u8>,
    rt: ReadType,
    wls: Seq<Wavelength>,
    cs: int,
    r: u8,
    need_info: bool,
) -> Result<(Option<ReadInfoV>, Seq<WellValueV>), FormatErrorV> {
    let fields = split_tab_spec(line);
    if fields.len() < 2 {
        Result::Err(FormatErrorV::FieldParseFailure(Field::Temperature, Seq::<u8>::empty()))
    } else {
        let info = if need_info {
            match read_info_spec(fields[0], fields[1], rt) {
                Result::Ok(i) => Result::Ok(Some(i)),
                Result::Err(e) => Result::Err(e),
            }
        } else {
            Result::Ok(None)
        };
        match info {
            Result::Err(e) => Result::Err(e),
            Result::Ok(oi) => match row_wells_spec(fields, wls, cs, r, 0) {
                Result::Ok(ws) => Result::Ok((oi, ws)),
                Result::Err(e) => Result::Err(e),
            },
        }
    }
}

fn parse_row(
    line: &Vec<u8>,
    rt: ReadType,
    wls: &Vec<Wavelength>,
    cs: u8,
    r: u8,
    need_info: bool,
) -> (res: Result<(Option<ReadInfo>, Vec<WellValue>), FormatError>)
    ensures
        match res {
            Ok(p) => parse_row_spec(line@, rt, wls@, cs as int, r, need_info) == Result::<
                (Option<ReadInfoV>, Seq<WellValueV>),
                FormatErrorV,
            >::Ok((opt_info_view(p.0), wells_deep(p.1@))),
            Err(e) => parse_row_spec(line@, rt, wls@, cs as int, r, need_info) == Result::<
                (Option<ReadInfoV>, Seq<WellValueV>),
                FormatErrorV,
            >::Err(e@),
        },
{
    let fields = split_tab(line);
    let ghost fv = split_tab_spec(line@);
    if fields.len() < 2 {
        return Err(FormatError::FieldParseFailure(Field::Temperature, Vec::new()));
    }
    proof {
        assert(fields.deep_view()[0] =~= fields@[0]@);
        assert(fields.deep_view()[1] =~= fields@[1]@);
    }
    let info: Option<ReadInfo> = if need_info {
        match ReadInfo::parse_cols(&fields[0], &fields[1], rt) {
            Ok(i) => Some(i),
            Err(e) => {
                return Err(e);
            },
        }
    } else {
        None
    };
    let mut wells: Vec<WellValue> = Vec::new();
    let mut w: usize = 0;
    proof {
        assert(wells_deep(wells@) =~= Seq::<WellValueV>::empty());
        if let Result::Ok(rest) = row_wells_spec(fv, wls@, cs as int, r, 0) {
            assert(wells_deep(wells@) + rest =~= rest);
        }
    }
    while w < wls.len()
        invariant
            0 <= w <= wls@.len(),
            fv == split_tab_spec(line@),
            fields.deep_view() == fv,
            fields@.len() == fv.len(),
            fv.len() >= 2,
            match opt_info_view(info) {
                Some(iv) => need_info && read_info_spec(fv[0], fv[1], rt) == Result::<
                    ReadInfoV,
                    FormatErrorV,
                >::Ok(iv),
                None => !need_info,
            },
            row_wells_spec(fv, wls@, cs as int, r, 0) == match row_wells_spec(
                fv,
                wls@,
                cs as int,
                r,
                w as int,
            ) {
                Result::Ok(rest) => Result::<Seq<WellValueV>, FormatErrorV>::Ok(
                    wells_deep(wells@) + rest,
                ),
                Result::Err(e) => Result::<Seq<WellValueV>, FormatErrorV>::Err(e),
            },
        decreases wls@.len() - w,
    {
        let ghost base = 2 + (w as int) * ((cs as int) + 1);
        let mut win: Vec<WellValue> = Vec::new();
        let mut c: usize = 0;
        proof {
            assert(wells_deep(win@) =~= Seq::<WellValueV>::empty());
            if let Result::Ok(rest) = window_wells_spec(fv, wls@[w as int], base, cs as int, r, 0) {
                assert(wells_deep(win@) + rest =~= rest);
            }
        }
        while c < cs as usize
            invariant
                0 <= c <= cs,
                0 <= w < wls@.len(),
                base == 2 + (w as int) * ((cs as int) + 1),
                fv == split_tab_spec(line@),
                fields.deep_view() == fv,
                fields@.len() == fv.len(),
                fv.len() >= 2,
                match opt_info_view(info) {
                    Some(iv) => need_info && read_info_spec(fv[0], fv[1], rt) == Result::<
                        ReadInfoV,
                        FormatErrorV,
                    >::Ok(iv),
                    None => !need_info,
                },
                window_wells_spec(fv, wls@[w as int], base, cs as int, r, 0) == match
                    window_wells_spec(fv, wls@[w as int], base, cs as int, r, c as int) {
                    Result::Ok(rest) => Result::<Seq<WellValueV>, FormatErrorV>::Ok(
                        wells_deep(win@) + rest,
                    ),
                    Result::Err(e) => Result::<Seq<WellValueV>, FormatErrorV>::Err(e),
                },
                row_wells_spec(fv, wls@, cs as int, r, 0) == match row_wells_spec(
                    fv,
                    wls@,
                    cs as int,
                    r,
                    w as int,
                ) {
                    Result::Ok(rest) => Result::<Seq<WellValueV>, FormatErrorV>::Ok(
                        wells_deep(wells@) + rest,
                    ),
                    Result::Err(e) => Result::<Seq<WellValueV>, FormatErrorV>::Err(e),
                },
            decreases cs - c,
        {
            proof {
                assert((w as int) * ((cs as int) + 1) >= 0) by (nonlinear_arith)
                    requires
                        w >= 0,
                        cs >= 0,
                ;
                assert((w as int) * ((cs as int) + 1) <= (u64::MAX as int) * ((cs as int) + 1))
                    by (nonlinear_arith)
                    requires
                        w <= u64::MAX as int,
                        cs >= 0,
                ;
            }
            let idx_wide: u128 = 2 + (w as u128) * ((cs as u128) + 1) + (c as u128);
            proof {
                assert(idx_wide == base + c);
            }
            let cell: Vec<u8> = if idx_wide < fields.len() as u128 {
                let idx = idx_wide as usize;
                proof {
                    assert(fields.deep_view()[idx as int] =~= fields@[idx as int]@);
                }
                trim_bytes(&fields[idx])
            } else {
                Vec::new()
            };
            proof {
                assert(cell@ == cell_at(fv, base + c));
            }
            if cell.len() == 0 {
            } else if check_float_token(&cell) {
                let ghost old_win = wells_deep(win@);
                let wl = wls[w];
                win.push(WellValue { wavelength: wl, well: (r, c as u8), value: cell });
                proof {
                    assert(wells_deep(win@) =~~= old_win.push(
                        WellValueV {
                            wavelength: wls@[w as int],
                            well: (r, c as u8),
                            value: cell_at(fv, base + c),
                        },
                    ));
                    if let Result::Ok(rest) = window_wells_spec(
                        fv,
                        wls@[w as int],
                        base,
                        cs as int,
                        r,
                        c + 1,
                    ) {
                        assert(old_win + (seq![
                            WellValueV {
                                wavelength: wls@[w as int],
                                well: (r, c as u8),
                                value: cell_at(fv, base + c),
                            },
                        ] + rest) =~= wells_deep(win@) + rest);
                    }
                }
            } else {
                return Err(FormatError::FieldParseFailure(Field::WellValue, cell));
            }
            c = c + 1;
        }
        let ghost old_wells = wells_deep(wells@);
        let ghost winv = wells_deep(win@);
        let mut win_moved = win;
        wells.append(&mut win_moved);
        proof {
            assert(wells_deep(wells@) =~= old_wells + winv);
            if let Result::Ok(rest) = row_wells_spec(fv, wls@, cs as int, r, w + 1) {
                assert(old_wells + (winv + rest) =~= wells_deep(wells@) + rest);
            }
        }
        w = w + 1;
    }
    proof {
        if let Result::Ok(rest) = row_wells_spec(fv, wls@, cs as int, r, wls@.len() as int) {
            assert(wells_deep(wells@) + rest =~= wells_deep(wells@));
        }
    }
    Ok((info, wells))
}

/// The grid lines of one read from row `r` on: each consumes one line;
/// running out of lines is a premature end of the source; the read info
/// is taken from the first line and carried through. Errors carry the
/// zero-based row index.
pub open spec fn parse_rows_spec(
    lines: Seq<Seq<u8>>,
    pos: int,
    rt: ReadType,
    wls: Seq<Wavelength>,
    cs: int,
    r: int,
    rows: int,
    acc: Option<ReadInfoV>,
) -> Result<(Option<ReadInfoV>, Seq<WellValueV>, int), ParseErrorV>
    decreases rows - r,
{
    if r >= rows {
        Result::Ok((acc, Seq::<WellValueV>::empty(), pos))
    } else if pos >= lines.len() {
        Result::Err(ParseErrorV::bare(FormatErrorV::PrematureEof).at_row(r))
    } else {
        match parse_row_spec(lines[pos], rt, wls, cs, r as u8, acc is None) {
            Result::Err(e) => Result::Err(ParseErrorV::bare(e).at_row(r)),
            Result::Ok((oi, ws)) => {
                let acc2 = if acc is None {
                    oi
                } else {
                    acc
                };
                match parse_rows_spec(lines, pos + 1, rt, wls, cs, r + 1, rows, acc2) {
                    Result::Ok((fin, rest, p)) => Result::Ok((fin, ws + rest, p)),
                    Result::Err(e) => Result::Err(e),
                }
            },
        }
    }
}

/// What one read means: the plate size must be a supported one; then
/// `row_span` grid lines are consumed, then one spacer line is consumed
/// and discarded without validation when one is there; the read must
/// have yielded its metadata.
pub open spec fn parse_read_spec(
    lines: Seq<Seq<u8>>,
    pos: int,
    rt: ReadType,
    info: PlateInfoV,
) -> Result<((ReadInfoV, Seq<WellValueV>), int), ParseErrorV> {
    if info.plate_size != 96 && info.plate_size != 384 {
        Result::Err(ParseErrorV::bare(FormatErrorV::UnsupportedPlateSize(info.plate_size)))
    } else {
        match parse_rows_spec(
            lines,
            pos,
            rt,
            info.wavelengths,
            info.col_span as int,
            0,
            info.row_span as int,
            None,
        ) {
            Result::Err(e) => Result::Err(e),
            Result::Ok((oi, wells, p)) => match oi {
                None => Result::Err(
                    ParseErrorV::bare(
                        FormatErrorV::FieldParseFailure(Field::Temperature, Seq::<u8>::empty()),
                    ),
                ),
                Some(i) => Result::Ok(
                    ((i, wells), if p < lines.len() {
                        p + 1
                    } else {
                        p
                    }),
                ),
            },
        }
    }
}

/// Parses one read: `row_span` grid lines and the spacer line after
/// them. Returns the read's metadata, its wells, and the position of the
/// first unconsumed line.
pub fn parse_plate(lines: &Vec<Vec<u8>>, pos: usize, rt: ReadType, info: &PlateInfo) -> (res:
    Result<((ReadInfo, Vec<WellValue>), usize), ParseError>)
    requires
        pos <= lines@.len(),
    ensures
        match res {
            Ok(p) => parse_read_spec(lines.deep_view(), pos as int, rt, info@) == Result::<
                ((ReadInfoV, Seq<WellValueV>), int),
                ParseErrorV,
            >::Ok(((p.0.0@, wells_deep(p.0.1@)), p.1 as int)) && pos <= p.1 <= lines@.len(),
            Err(e) => parse_read_spec(lines.deep_view(), pos as int, rt, info@) == Result::<
                ((ReadInfoV, Seq<WellValueV>), int),
                ParseErrorV,
            >::Err(e@),
        },
{
    let ghost ld = lines.deep_view();
    let ps = info.plate_size;
    if ps != 96 && ps != 384 {
        return Err(ParseError::bare(FormatError::UnsupportedPlateSize(ps)));
    }
    let rows = info.row_span;
    let cs = info.col_span;
    let mut p: usize = pos;
    let mut acc: Option<ReadInfo> = None;
    let mut wells: Vec<WellValue> = Vec::new();
    let mut r: usize = 0;
    proof {
        assert(wells_deep(wells@) =~= Seq::<WellValueV>::empty());
        if let Result::Ok((fin, rest, pp)) = parse_rows_spec(
            ld,
            pos as int,
            rt,
            info@.wavelengths,
            cs as int,
            0,
            rows as int,
            None,
        ) {
            assert(wells_deep(wells@) + rest =~= rest);
        }
    }
    while r < rows as usize
        invariant
            0 <= r <= rows,
            pos <= p <= lines@.len(),
            ld == lines.deep_view(),
            cs == info.col_span,
            rows == info.row_span,
            info@.wavelengths == info.wavelengths@,
            info@.plate_size == 96 || info@.plate_size == 384,
            parse_rows_spec(
                ld,
                pos as int,
                rt,
                info.wavelengths@,
                cs as int,
                0,
                rows as int,
                None,
            ) == match parse_rows_spec(
                ld,
                p as int,
                rt,
                info.wavelengths@,
                cs as int,
                r as int,
                rows as int,
                opt_info_view(acc),
            ) {
                Result::Ok((fin, rest, pp)) => Result::<
                    (Option<ReadInfoV>, Seq<WellValueV>, int),
                    ParseErrorV,
                >::Ok((fin, wells_deep(wells@) + rest, pp)),
                Result::Err(e) => Result::<
                    (Option<ReadInfoV>, Seq<WellValueV>, int),
                    ParseErrorV,
                >::Err(e),
            },
        decreases rows - r,
    {
        if p == lines.len() {
            return Err(ParseError::bare(FormatError::PrematureEof).at_row(r));
        }
        proof {
            assert(ld[p as int] =~= lines@[p as int]@);
        }
        let need = acc.is_none();
        match parse_row(&lines[p], rt, &info.wavelengths, cs, r as u8, need) {
            Err(e) => {
                return Err(ParseError::bare(e).at_row(r));
            },
            Ok((oi, mut ws)) => {
                let ghost old_wells = wells_deep(wells@);
                let ghost wsv = wells_deep(ws@);
                if need {
                    acc = oi;
                }
                wells.append(&mut ws);
                proof {
                    assert(wells_deep(wells@) =~= old_wells + wsv);
                    if let Result::Ok((fin, rest, pp)) = parse_rows_spec(
                        ld,
                        p + 1,
                        rt,
                        info.wavelengths@,
                        cs as int,
                        r + 1,
                        rows as int,
                        opt_info_view(acc),
                    ) {
                        assert(old_wells + (wsv + rest) =~= wells_deep(wells@) + rest);
                    }
                }
                p = p + 1;
            },
        }
        r = r + 1;
    }
    let ri = match acc {
        Some(i) => i,
        None => {
            return Err(
                ParseError::bare(FormatError::FieldParseFailure(Field::Temperature, Vec::new())),
            );
        },
    };
    let p2 = if p < lines.len() {
        p + 1
    } else {
        p
    };
    proof {
        assert(wells_deep(wells@) + Seq::<WellValueV>::empty() =~= wells_deep(wells@));
    }
    Ok(((ri, wells), p2))
}

/// In a strict reading of the format, the spacer column ought to be
/// empty; the permissive default discards it unread. This hook lets a
/// caller validate it.
pub fn check_spacer(s: &Vec<u8>) -> (r: bool)
    ensures
        r == (s@.len() == 0),
{
    s.len() == 0
}

/// How many data cells of one window, from column `c` on, are blank.
pub open spec fn window_blanks(fields: Seq<Seq<u8>>, base: int, cs: int, c: int) -> int
    decreases cs - c,
{
    if c >= cs {
        0
    } else {
        (if cell_at(fields, base + c).len() == 0 {
            1int
        } else {
            0int
        }) + window_blanks(fields, base, cs, c + 1)
    }
}

/// How many data cells of one grid line, from window `w` on, are blank.
pub open spec fn row_blanks(fields: Seq<Seq<u8>>, nw: int, cs: int, w: int) -> int
    decreases nw - w,
{
    if w >= nw {
        0
    } else {
        window_blanks(fields, 2 + w * (cs + 1), cs, 0) + row_blanks(fields, nw, cs, w + 1)
    }
}

/// How many data cells of one read's `rows` grid lines, starting at line
/// `pos`, are blank.
pub open spec fn read_blanks(lines: Seq<Seq<u8>>, pos: int, nw: int, cs: int, rows: int) -> int
    decreases rows,
{
    if rows <= 0 {
        0
    } else {
        row_blanks(split_tab_spec(lines[pos]), nw, cs, 0) + read_blanks(
            lines,
            pos + 1,
            nw,
            cs,
            rows - 1,
        )
    }
}

proof fn lemma_window_count(fields: Seq<Seq<u8>>, wl: Wavelength, base: int, cs: int, r: u8, c: int)
    requires
        0 <= c <= cs,
    ensures
        window_blanks(fields, base, cs, c) >= 0,
        match window_wells_spec(fields, wl, base, cs, r, c) {
            Result::Ok(ws) => ws.len() + window_blanks(fields, base, cs, c) == cs - c,
            Result::Err(e) => true,
        },
    decreases cs - c,
{
    if c < cs {
        lemma_window_count(fields, wl, base, cs, r, c + 1);
    }
}

proof fn lemma_row_count(fields: Seq<Seq<u8>>, wls: Seq<Wavelength>, cs: int, r: u8, w: int)
    requires
        0 <= w <= wls.len(),
        cs >= 0,
    ensures
        row_blanks(fields, wls.len() as int, cs, w) >= 0,
        match row_wells_spec(fields, wls, cs, r, w) {
            Result::Ok(ws) => ws.len() + row_blanks(fields, wls.len() as int, cs, w) == (wls.len()
                - w) * cs,
            Result::Err(e) => true,
        },
    decreases wls.len() - w,
{
    if w < wls.len() {
        lemma_window_count(fields, wls[w], 2 + w * (cs + 1), cs, r, 0);
        lemma_row_count(fields, wls, cs, r, w + 1);
        assert((wls.len() - w) * cs == cs + (wls.len() - w - 1) * cs) by (nonlinear_arith);
    } else {
        assert((wls.len() - w) * cs == 0) by (nonlinear_arith)
            requires
                w == wls.len(),
        ;
    }
}

proof fn lemma_rows_count(
    lines: Seq<Seq<u8>>,
    pos: int,
    rt: ReadType,
    wls: Seq<Wavelength>,
    cs: int,
    r: int,
    rows: int,
    acc: Option<ReadInfoV>,
)
    requires
        cs >= 0,
        r <= rows,
    ensures
        read_blanks(lines, pos, wls.len() as int, cs, rows - r) >= 0,
        match parse_rows_spec(lines, pos, rt, wls, cs, r, rows, acc) {
            Result::Ok((fin, ws, p)) => ws.len() + read_blanks(
                lines,
                pos,
                wls.len() as int,
                cs,
                rows - r,
            ) == (rows - r) * (wls.len() * cs),
            Result::Err(e) => true,
        },
    decreases rows - r,
{
    if r < rows {
        lemma_rows_count(lines, pos + 1, rt, wls, cs, r + 1, rows, acc);
        lemma_row_count(split_tab_spec(lines[pos]), wls, cs, r as u8, 0);
        if pos < lines.len() {
            let fields = split_tab_spec(lines[pos]);
            if let Result::Ok((oi, ws)) = parse_row_spec(lines[pos], rt, wls, cs, r as u8, acc is None) {
                let acc2 = if acc is None {
                    oi
                } else {
                    acc
                };
                lemma_rows_count(lines, pos + 1, rt, wls, cs, r + 1, rows, acc2);
            }
            assert((rows - r) * (wls.len() * cs) == wls.len() * cs + (rows - r - 1) * (wls.len()
                * cs)) by (nonlinear_arith);
            assert((wls.len() - 0) * cs == wls.len() * cs) by (nonlinear_arith);
        }
    } else {
        assert((rows - r) * (wls.len() * cs) == 0) by (nonlinear_arith)
            requires
                r == rows,
        ;
    }
}

proof fn lemma_rows_pos(
    lines: Seq<Seq<u8>>,
    pos: int,
    rt: ReadType,
    wls: Seq<Wavelength>,
    cs: int,
    r: int,
    rows: int,
    acc: Option<ReadInfoV>,
)
    ensures
        match parse_rows_spec(lines, pos, rt, wls, cs, r, rows, acc) {
            Result::Ok((fin, ws, p)) => p >= pos,
            Result::Err(e) => true,
        },
    decreases rows - r,
{
    if r < rows && pos < lines.len() {
        if let Result::Ok((oi, ws)) = parse_row_spec(lines[pos], rt, wls, cs, r as u8, acc is None) {
            let acc2 = if acc is None {
                oi
            } else {
                acc
            };
            lemma_rows_pos(lines, pos + 1, rt, wls, cs, r + 1, rows, acc2);
        }
    }
}

/// A successfully parsed read never moves the cursor backwards.
pub proof fn lemma_read_pos(lines: Seq<Seq<u8>>, pos: int, rt: ReadType, info: PlateInfoV)
    ensures
        match parse_read_spec(lines, pos, rt, info) {
            Result::Ok((rd, p)) => p >= pos,
            Result::Err(e) => true,
        },
{
    lemma_rows_pos(
        lines,
        pos,
        rt,
        info.wavelengths,
        info.col_span as int,
        0,
        info.row_span as int,
        None,
    );
}

/// Well-count invariant. A successfully parsed read emits exactly one
/// value per non-blank data cell of its grid: never more than
/// `row_span * col_span * wavelengths`, and exactly that total minus the
/// blank cells.
pub proof fn lemma_well_count(lines: Seq<Seq<u8>>, pos: int, rt: ReadType, info: PlateInfoV)
    ensures
        match parse_read_spec(lines, pos, rt, info) {
            Result::Ok(((ri, wells), p)) => {
                &&& wells.len() + read_blanks(
                    lines,
                    pos,
                    info.wavelengths.len() as int,
                    info.col_span as int,
                    info.row_span as int,
                ) == (info.row_span as int) * (info.col_span as int) * info.wavelengths.len()
                &&& wells.len() <= (info.row_span as int) * (info.col_span as int)
                    * info.wavelengths.len()
            },
            Result::Err(e) => true,
        },
{
    lemma_rows_count(
        lines,
        pos,
        rt,
        info.wavelengths,
        info.col_span as int,
        0,
        info.row_span as int,
        None,
    );
    assert((info.row_span as int - 0) * (info.wavelengths.len() * (info.col_span as int)) == (
    info.row_span as int) * (info.col_span as int) * info.wavelengths.len()) by (nonlinear_arith);
}

proof fn lemma_window_immune(
    f1: Seq<Seq<u8>>,
    f2: Seq<Seq<u8>>,
    wl: Wavelength,
    base: int,
    cs: int,
    r: u8,
    c: int,
)
    requires
        forall|cc: int|
            c <= cc < cs ==> #[trigger] cell_at(f1, base + cc) == cell_at(f2, base + cc),
    ensures
        window_wells_spec(f1, wl, base, cs, r, c) == window_wells_spec(f2, wl, base, cs, r, c),
    decreases cs - c,
{
    if c < cs {
        lemma_window_immune(f1, f2, wl, base, cs, r, c + 1);
    }
}

proof fn lemma_row_immune(
    f1: Seq<Seq<u8>>,
    f2: Seq<Seq<u8>>,
    wls: Seq<Wavelength>,
    cs: int,
    r: u8,
    w: int,
)
    requires
        forall|ww: int, cc: int|
            w <= ww < wls.len() && 0 <= cc < cs ==> #[trigger] cell_at(f1, 2 + ww * (cs + 1) + cc)
                == cell_at(f2, 2 + ww * (cs + 1) + cc),
    ensures
        row_wells_spec(f1, wls, cs, r, w) == row_wells_spec(f2, wls, cs, r, w),
    decreases wls.len() - w,
{
    if w < wls.len() {
        let base = 2 + w * (cs + 1);
        assert forall|cc: int| 0 <= cc < cs implies #[trigger] cell_at(f1, base + cc) == cell_at(
            f2,
            base + cc,
        ) by {
            assert(cell_at(f1, 2 + w * (cs + 1) + cc) == cell_at(f2, 2 + w * (cs + 1) + cc));
        }
        lemma_window_immune(f1, f2, wls[w], base, cs, r, 0);
        lemma_row_immune(f1, f2, wls, cs, r, w + 1);
    }
}

/// Two field lists agree on every data cell: for each of the `nw`
/// wavelength windows, the `cs` data columns hold the same trimmed
/// content. Nothing is said of the metadata columns or of the spacer
/// column that closes each window.
pub open spec fn data_cells_agree(f1: Seq<Seq<u8>>, f2: Seq<Seq<u8>>, nw: int, cs: int) -> bool {
    forall|ww: int, cc: int|
        0 <= ww < nw && 0 <= cc < cs ==> #[trigger] cell_at(f1, 2 + ww * (cs + 1) + cc) == cell_at(
            f2,
            2 + ww * (cs + 1) + cc,
        )
}

/// Spacer immunity. The wells of a grid line depend only on its data
/// cells: the metadata columns and the spacer column that closes each
/// wavelength window are never read, so two lines that agree on every
/// data cell yield the same well values at the same coordinates,
/// whatever whitespace or other content stands in their spacers.
pub proof fn lemma_spacer_immunity(
    f1: Seq<Seq<u8>>,
    f2: Seq<Seq<u8>>,
    wls: Seq<Wavelength>,
    cs: int,
    r: u8,
)
    requires
        data_cells_agree(f1, f2, wls.len() as int, cs),
    ensures
        row_wells_spec(f1, wls, cs, r, 0) == row_wells_spec(f2, wls, cs, r, 0),
{
    lemma_row_immune(f1, f2, wls, cs, r, 0);
}

proof fn lemma_rows_spacer_immune(
    lines1: Seq<Seq<u8>>,
    pos1: int,
    lines2: Seq<Seq<u8>>,
    pos2: int,
    rt: ReadType,
    wls: Seq<Wavelength>,
    cs: int,
    r: int,
    rows: int,
    acc1: Option<ReadInfoV>,
    acc2: Option<ReadInfoV>,
)
    requires
        forall|k: int|
            0 <= k < rows - r ==> #[trigger] data_cells_agree(
                split_tab_spec(lines1[pos1 + k]),
                split_tab_spec(lines2[pos2 + k]),
                wls.len() as int,
                cs,
            ),
    ensures
        match (
            parse_rows_spec(lines1, pos1, rt, wls, cs, r, rows, acc1),
            parse_rows_spec(lines2, pos2, rt, wls, cs, r, rows, acc2),
        ) {
            (Result::Ok((fin1, ws1, p1)), Result::Ok((fin2, ws2, p2))) => ws1 == ws2,
            _ => true,
        },
    decreases rows - r,
{
    if r < rows && pos1 < lines1.len() && pos2 < lines2.len() {
        let f1 = split_tab_spec(lines1[pos1]);
        let f2 = split_tab_spec(lines2[pos2]);
        assert(data_cells_agree(
            split_tab_spec(lines1[pos1 + 0]),
            split_tab_spec(lines2[pos2 + 0]),
            wls.len() as int,
            cs,
        ));
        assert(data_cells_agree(f1, f2, wls.len() as int, cs));
        lemma_spacer_immunity(f1, f2, wls, cs, r as u8);
        let pr1 = parse_row_spec(lines1[pos1], rt, wls, cs, r as u8, acc1 is None);
        let pr2 = parse_row_spec(lines2[pos2], rt, wls, cs, r as u8, acc2 is None);
        if let (Result::Ok((oi1, ws1)), Result::Ok((oi2, ws2))) = (pr1, pr2) {
            let acc1n = if acc1 is None {
                oi1
            } else {
                acc1
            };
            let acc2n = if acc2 is None {
                oi2
            } else {
                acc2
            };
            assert forall|k: int| 0 <= k < rows - (r + 1) implies #[trigger] data_cells_agree(
                split_tab_spec(lines1[pos1 + 1 + k]),
                split_tab_spec(lines2[pos2 + 1 + k]),
                wls.len() as int,
                cs,
            ) by {
                assert(data_cells_agree(
                    split_tab_spec(lines1[pos1 + (k + 1)]),
                    split_tab_spec(lines2[pos2 + (k + 1)]),
                    wls.len() as int,
                    cs,
                ));
            }
            lemma_rows_spacer_immune(
                lines1,
                pos1 + 1,
                lines2,
                pos2 + 1,
                rt,
                wls,
                cs,
                r + 1,
                rows,
                acc1n,
                acc2n,
            );
        }
    }
}

/// Spacer immunity for a whole read. Two line sources whose
/// corresponding grid lines agree on every data cell — whatever content
/// stands in their metadata and spacer positions — yield the same well
/// values, at the same coordinates and wavelengths, whenever both reads
/// parse.
pub proof fn lemma_read_spacer_immunity(
    lines1: Seq<Seq<u8>>,
    pos1: int,
    lines2: Seq<Seq<u8>>,
    pos2: int,
    rt: ReadType,
    info: PlateInfoV,
)
    requires
        forall|k: int|
            0 <= k < info.row_span ==> #[trigger] data_cells_agree(
                split_tab_spec(lines1[pos1 + k]),
                split_tab_spec(lines2[pos2 + k]),
                info.wavelengths.len() as int,
                info.col_span as int,
            ),
    ensures
        match (parse_read_spec(lines1, pos1, rt, info), parse_read_spec(lines2, pos2, rt, info)) {
            (Result::Ok(((i1, w1), q1)), Result::Ok(((i2, w2), q2))) => w1 == w2,
            _ => true,
        },
{
    lemma_rows_spacer_immune(
        lines1,
        pos1,
        lines2,
        pos2,
        rt,
        info.wavelengths,
        info.col_span as int,
        0,
        info.row_span as int,
        None,
        None,
    );
}

} // verus!
