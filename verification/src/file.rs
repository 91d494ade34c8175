//! The block and file assemblers: a file is a block-count header line
//! followed by exactly that many blocks; a block is one settings row, one
//! temperature-unit header line, `read_count` reads, and an end sentinel.
//! A failure anywhere aborts the whole parse; there is no partial result.
use crate::bytes::bytes_eq;
use crate::bytes::contains_seq;
use crate::bytes::find_subseq;
use crate::bytes::split_tab;
use crate::bytes::split_tab_spec;
use crate::bytes::trim;
use crate::bytes::trim_bytes;
use crate::bytes::ws_tokens;
use crate::error::FormatError;
use crate::error::FormatErrorV;
use crate::error::ParseError;
use crate::error::ParseErrorV;
use crate::grid::parse_plate;
use crate::grid::parse_read_spec;
use crate::grid::wells_deep;
use crate::grid::ReadInfo;
use crate::grid::ReadInfoV;
use crate::grid::WellValue;
use crate::grid::WellValueV;
use crate::num::is_uint_token;
use crate::num::parse_u64;
use crate::num::uint_val;
use crate::settings::plate_settings_spec;
use crate::settings::PlateInfoV;
use crate::settings::PlateSettings;
use crate::settings::PlateSettingsV;
use vstd::prelude::*;

verus! {

/// "##BLOCKS=" in bytes, the file-level magic token.
pub open spec fn lit_blocks_magic() -> Seq<u8> {
    seq![0x23u8, 0x23u8, 0x42u8, 0x4cu8, 0x4fu8, 0x43u8, 0x4bu8, 0x53u8, 0x3du8]
}

/// Builds "##BLOCKS=" as a byte vector.
pub fn lit_blocks_magic_vec() -> (r: Vec<u8>)
    ensures
        r@ == lit_blocks_magic(),
{
    let mut v: Vec<u8> = Vec::new();
    v.push(0x23);
    v.push(0x23);
    v.push(0x42);
    v.push(0x4c);
    v.push(0x4f);
    v.push(0x43);
    v.push(0x4b);
    v.push(0x53);
    v.push(0x3d);
    proof {
        assert(v@ =~= lit_blocks_magic());
    }
    v
}

/// "~End" in bytes, the end-of-block sentinel.
pub open spec fn lit_sentinel() -> Seq<u8> {
    seq![0x7eu8, 0x45u8, 0x6eu8, 0x64u8]
}

/// Builds "~End" as a byte vector.
pub fn lit_sentinel_vec() -> (r: Vec<u8>)
    ensures
        r@ == lit_sentinel(),
{
    let mut v: Vec<u8> = Vec::new();
    v.push(0x7e);
    v.push(0x45);
    v.push(0x6e);
    v.push(0x64);
    proof {
        assert(v@ =~= lit_sentinel());
    }
    v
}

/// "Temperature(°C)" in bytes (UTF-8), the expected unit of the header
/// line's second column.
pub open spec fn lit_temp_header() -> Seq<u8> {
    seq![
        0x54u8, 0x65u8, 0x6du8, 0x70u8, 0x65u8, 0x72u8, 0x61u8, 0x74u8, 0x75u8, 0x72u8, 0x65u8,
        0x28u8, 0xc2u8, 0xb0u8, 0x43u8, 0x29u8,
    ]
}

/// Builds "Temperature(°C)" as a byte vector.
pub fn lit_temp_header_vec() -> (r: Vec<u8>)
    ensures
        r@ == lit_temp_header(),
{
    let mut v: Vec<u8> = Vec::new();
    v.push(0x54);
    v.push(0x65);
    v.push(0x6d);
    v.push(0x70);
    v.push(0x65);
    v.push(0x72);
    v.push(0x61);
    v.push(0x74);
    v.push(0x75);
    v.push(0x72);
    v.push(0x65);
    v.push(0x28);
    v.push(0xc2);
    v.push(0xb0);
    v.push(0x43);
    v.push(0x29);
    proof {
        assert(v@ =~= lit_temp_header());
    }
    v
}

/// What the first line of the file means: its first whitespace token must
/// be the magic token, its second must be an unsigned 16-bit count.
pub open spec fn block_count_spec(line: Seq<u8>) -> Result<u16, FormatErrorV> {
    let toks = ws_tokens(line);
    if toks.len() == 0 || toks[0] != lit_blocks_magic() {
        Result::Err(FormatErrorV::MissingMagic)
    } else if toks.len() < 2 || !(is_uint_token(toks[1]) && uint_val(toks[1]) <= u16::MAX) {
        Result::Err(FormatErrorV::MalformedCount)
    } else {
        Result::Ok(uint_val(toks[1]) as u16)
    }
}

/// Parses the block-count header line.
pub fn get_block_count(line: &Vec<u8>) -> (r: Result<u16, FormatError>)
    ensures
        match r {
            Ok(n) => block_count_spec(line@) == Result::<u16, FormatErrorV>::Ok(n),
            Err(e) => block_count_spec(line@) == Result::<u16, FormatErrorV>::Err(e@),
        },
{
    let toks = crate::bytes::split_whitespace_tokens(line);
    if toks.len() == 0 {
        return Err(FormatError::MissingMagic);
    }
    proof {
        assert(toks.deep_view()[0] =~= toks@[0]@);
    }
    let magic = lit_blocks_magic_vec();
    if !bytes_eq(&toks[0], &magic) {
        return Err(FormatError::MissingMagic);
    }
    if toks.len() < 2 {
        return Err(FormatError::MalformedCount);
    }
    proof {
        assert(toks.deep_view()[1] =~= toks@[1]@);
    }
    match parse_u64(&toks[1]) {
        Some(v) => {
            if v <= 65535 {
                Ok(v as u16)
            } else {
                Err(FormatError::MalformedCount)
            }
        },
        None => Err(FormatError::MalformedCount),
    }
}

/// What the temperature-unit header line must satisfy: its second
/// tab-delimited column holds the expected unit as a substring.
pub open spec fn unit_header_spec(line: Seq<u8>) -> Result<(), FormatErrorV> {
    let fields = split_tab_spec(line);
    if fields.len() < 2 {
        Result::Err(FormatErrorV::UnsupportedUnit(Seq::<u8>::empty()))
    } else if contains_seq(fields[1], lit_temp_header()) {
        Result::Ok(())
    } else {
        Result::Err(FormatErrorV::UnsupportedUnit(fields[1]))
    }
}

/// Checks the temperature-unit header line.
pub fn check_unit_header(line: &Vec<u8>) -> (r: Result<(), FormatError>)
    ensures
        match r {
            Ok(u) => unit_header_spec(line@) == Result::<(), FormatErrorV>::Ok(()),
            Err(e) => unit_header_spec(line@) == Result::<(), FormatErrorV>::Err(e@),
        },
{
    let fields = split_tab(line);
    if fields.len() < 2 {
        return Err(FormatError::UnsupportedUnit(Vec::new()));
    }
    proof {
        assert(fields.deep_view()[1] =~= fields@[1]@);
    }
    let expected = lit_temp_header_vec();
    if find_subseq(&fields[1], &expected) {
        Ok(())
    } else {
        let raw = crate::bytes::copy_range(&fields[1], 0, fields[1].len());
        proof {
            assert(raw@ =~= fields@[1]@);
        }
        Err(FormatError::UnsupportedUnit(raw))
    }
}

/// One independent plate run: its settings and, per read, the read's
/// metadata and wells.
#[derive(Debug)]
pub struct PlateBlock {
    pub settings: PlateSettings,
    pub data: Vec<(ReadInfo, Vec<WellValue>)>,
}

/// The mathematical shape of a `PlateBlock`.
pub struct PlateBlockV {
    pub settings: PlateSettingsV,
    pub data: Seq<(ReadInfoV, Seq<WellValueV>)>,
}

/// The views of a read sequence.
pub open spec fn reads_view(ds: Seq<(ReadInfo, Vec<WellValue>)>) -> Seq<
    (ReadInfoV, Seq<WellValueV>),
> {
    Seq::new(ds.len(), |i: int| (ds[i].0@, wells_deep(ds[i].1@)))
}

impl View for PlateBlock {
    type V = PlateBlockV;

    open spec fn view(&self) -> PlateBlockV {
        PlateBlockV { settings: self.settings@, data: reads_view(self.data@) }
    }
}

/// The reads of one block from read `i` on: each read's errors carry the
/// zero-based read index.
pub open spec fn parse_reads_spec(
    lines: Seq<Seq<u8>>,
    pos: int,
    rt: crate::settings::ReadType,
    info: PlateInfoV,
    i: int,
    n: int,
) -> Result<(Seq<(ReadInfoV, Seq<WellValueV>)>, int), ParseErrorV>
    decreases n - i,
{
    if i >= n {
        Result::Ok((Seq::<(ReadInfoV, Seq<WellValueV>)>::empty(), pos))
    } else {
        match parse_read_spec(lines, pos, rt, info) {
            Result::Err(e) => Result::Err(e.at_read(i)),
            Result::Ok((rd, p)) => match parse_reads_spec(lines, p, rt, info, i + 1, n) {
                Result::Ok((rest, p2)) => Result::Ok((seq![rd] + rest, p2)),
                Result::Err(e) => Result::Err(e),
            },
        }
    }
}

/// What one block means: a settings row, a unit-header line, the declared
/// number of reads, and the end sentinel (the line trimmed must be
/// exactly "~End", whether or not the reads parsed).
pub open spec fn parse_block_spec(lines: Seq<Seq<u8>>, pos: int) -> Result<
    (PlateBlockV, int),
    ParseErrorV,
> {
    if pos >= lines.len() {
        Result::Err(ParseErrorV::bare(FormatErrorV::PrematureEof))
    } else {
        match plate_settings_spec(lines[pos]) {
            Result::Err(e) => Result::Err(ParseErrorV::bare(e)),
            Result::Ok(settings) => {
                if pos + 1 >= lines.len() {
                    Result::Err(ParseErrorV::bare(FormatErrorV::PrematureEof))
                } else {
                    match unit_header_spec(lines[pos + 1]) {
                        Result::Err(e) => Result::Err(ParseErrorV::bare(e)),
                        Result::Ok(u) => {
                            match parse_reads_spec(
                                lines,
                                pos + 2,
                                settings.read_type,
                                settings.info,
                                0,
                                settings.info.reads as int,
                            ) {
                                Result::Err(e) => Result::Err(e),
                                Result::Ok((data, p2)) => {
                                    if p2 >= lines.len() {
                                        Result::Err(ParseErrorV::bare(FormatErrorV::PrematureEof))
                                    } else if trim(lines[p2]) == lit_sentinel() {
                                        Result::Ok((PlateBlockV { settings, data }, p2 + 1))
                                    } else {
                                        Result::Err(
                                            ParseErrorV::bare(FormatErrorV::MissingSentinel),
                                        )
                                    }
                                },
                            }
                        },
                    }
                }
            },
        }
    }
}

impl PlateBlock {
    /// Parses one block starting at line `pos`; returns the block and the
    /// position of the first unconsumed line.
    pub fn parse(lines: &Vec<Vec<u8>>, pos: usize) -> (r: Result<(PlateBlock, usize), ParseError>)
        requires
            pos <= lines@.len(),
        ensures
            match r {
                Ok(p) => parse_block_spec(lines.deep_view(), pos as int) == Result::<
                    (PlateBlockV, int),
                    ParseErrorV,
                >::Ok((p.0@, p.1 as int)) && pos <= p.1 <= lines@.len(),
                Err(e) => parse_block_spec(lines.deep_view(), pos as int) == Result::<
                    (PlateBlockV, int),
                    ParseErrorV,
                >::Err(e@),
            },
    {
        let ghost ld = lines.deep_view();
        if pos == lines.len() {
            return Err(ParseError::bare(FormatError::PrematureEof));
        }
        proof {
            assert(ld[pos as int] =~= lines@[pos as int]@);
        }
        let settings = match PlateSettings::parse(&lines[pos]) {
            Ok(s) => s,
            Err(e) => {
                return Err(ParseError::bare(e));
            },
        };
        if pos + 1 == lines.len() {
            return Err(ParseError::bare(FormatError::PrematureEof));
        }
        proof {
            assert(ld[pos + 1] =~= lines@[pos + 1]@);
        }
        match check_unit_header(&lines[pos + 1]) {
            Ok(u) => {},
            Err(e) => {
                return Err(ParseError::bare(e));
            },
        }
        let n = settings.info.reads;
        let mut data: Vec<(ReadInfo, Vec<WellValue>)> = Vec::new();
        let mut p: usize = pos + 2;
        let mut i: usize = 0;
        proof {
            assert(reads_view(data@) =~= Seq::<(ReadInfoV, Seq<WellValueV>)>::empty());
            if let Result::Ok((rest, p2)) = parse_reads_spec(
                ld,
                pos + 2,
                settings.read_type,
                settings@.info,
                0,
                n as int,
            ) {
                assert(reads_view(data@) + rest =~= rest);
            }
        }
        while i < n
            invariant
                0 <= i <= n,
                pos + 2 <= p <= lines@.len(),
                ld == lines.deep_view(),
                n == settings.info.reads,
                pos + 1 < lines@.len(),
                plate_settings_spec(ld[pos as int]) == Result::<
                    PlateSettingsV,
                    FormatErrorV,
                >::Ok(settings@),
                unit_header_spec(ld[pos + 1]) == Result::<(), FormatErrorV>::Ok(()),
                parse_reads_spec(ld, pos + 2, settings.read_type, settings@.info, 0, n as int)
                    == match parse_reads_spec(
                    ld,
                    p as int,
                    settings.read_type,
                    settings@.info,
                    i as int,
                    n as int,
                ) {
                    Result::Ok((rest, p2)) => Result::<
                        (Seq<(ReadInfoV, Seq<WellValueV>)>, int),
                        ParseErrorV,
                    >::Ok((reads_view(data@) + rest, p2)),
                    Result::Err(e) => Result::<
                        (Seq<(ReadInfoV, Seq<WellValueV>)>, int),
                        ParseErrorV,
                    >::Err(e),
                },
            decreases n - i,
        {
            match parse_plate(lines, p, settings.read_type, &settings.info) {
                Err(e) => {
                    return Err(e.at_read(i));
                },
                Ok((rd, p_next)) => {
                    let ghost old_view = reads_view(data@);
                    let ghost rdv = (rd.0@, wells_deep(rd.1@));
                    data.push(rd);
                    proof {
                        assert(reads_view(data@) =~= old_view.push(rdv));
                        if let Result::Ok((rest, p2)) = parse_reads_spec(
                            ld,
                            p_next as int,
                            settings.read_type,
                            settings@.info,
                            i + 1,
                            n as int,
                        ) {
                            assert(old_view + (seq![rdv] + rest) =~= reads_view(data@) + rest);
                        }
                    }
                    p = p_next;
                },
            }
            i = i + 1;
        }
        if p == lines.len() {
            return Err(ParseError::bare(FormatError::PrematureEof));
        }
        proof {
            assert(ld[p as int] =~= lines@[p as int]@);
        }
        let trimmed = trim_bytes(&lines[p]);
        let sentinel = lit_sentinel_vec();
        if !bytes_eq(&trimmed, &sentinel) {
            return Err(ParseError::bare(FormatError::MissingSentinel));
        }
        proof {
            assert(reads_view(data@) + Seq::<(ReadInfoV, Seq<WellValueV>)>::empty() =~= reads_view(
                data@,
            ));
        }
        Ok((PlateBlock { settings, data }, p + 1))
    }
}

/// One decoded file: its blocks, in order.
#[derive(Debug)]
pub struct M5File(pub Vec<PlateBlock>);

/// The views of a block sequence.
pub open spec fn blocks_view(bs: Seq<PlateBlock>) -> Seq<PlateBlockV> {
    Seq::new(bs.len(), |i: int| bs[i]@)
}

impl View for M5File {
    type V = Seq<PlateBlockV>;

    open spec fn view(&self) -> Seq<PlateBlockV> {
        blocks_view(self.0@)
    }
}

/// The blocks of the file from block `i` on: each block's errors carry
/// the zero-based block index.
pub open spec fn parse_blocks_spec(lines: Seq<Seq<u8>>, pos: int, i: int, n: int) -> Result<
    (Seq<PlateBlockV>, int),
    ParseErrorV,
>
    decreases n - i,
{
    if i >= n {
        Result::Ok((Seq::<PlateBlockV>::empty(), pos))
    } else {
        match parse_block_spec(lines, pos) {
            Result::Err(e) => Result::Err(e.at_block(i)),
            Result::Ok((b, p)) => match parse_blocks_spec(lines, p, i + 1, n) {
                Result::Ok((rest, p2)) => Result::Ok((seq![b] + rest, p2)),
                Result::Err(e) => Result::Err(e),
            },
        }
    }
}

/// What the whole file means: the block-count header, then exactly that
/// many blocks. The declared count must be met in full; lines after the
/// last block are left unread.
pub open spec fn parse_file_spec(lines: Seq<Seq<u8>>) -> Result<Seq<PlateBlockV>, ParseErrorV> {
    if lines.len() == 0 {
        Result::Err(ParseErrorV::bare(FormatErrorV::PrematureEof))
    } else {
        match block_count_spec(lines[0]) {
            Result::Err(e) => Result::Err(ParseErrorV::bare(e)),
            Result::Ok(n) => match parse_blocks_spec(lines, 1, 0, n as int) {
                Result::Ok((bs, p)) => Result::Ok(bs),
                Result::Err(e) => Result::Err(e),
            },
        }
    }
}

impl M5File {
    /// Decodes a whole file, given as its lines without terminators.
    #[verifier::rlimit(50)]
    pub fn parse(lines: &Vec<Vec<u8>>) -> (r: Result<M5File, ParseError>)
        ensures
            match r {
                Ok(f) => parse_file_spec(lines.deep_view()) == Result::<
                    Seq<PlateBlockV>,
                    ParseErrorV,
                >::Ok(f@),
                Err(e) => parse_file_spec(lines.deep_view()) == Result::<
                    Seq<PlateBlockV>,
                    ParseErrorV,
                >::Err(e@),
            },
    {
        let ghost ld = lines.deep_view();
        if lines.len() == 0 {
            return Err(ParseError::bare(FormatError::PrematureEof));
        }
        proof {
            assert(ld[0] =~= lines@[0]@);
        }
        let n = match get_block_count(&lines[0]) {
            Ok(n) => n,
            Err(e) => {
                return Err(ParseError::bare(e));
            },
        };
        let mut blocks: Vec<PlateBlock> = Vec::new();
        let mut p: usize = 1;
        let mut i: usize = 0;
        proof {
            assert(blocks_view(blocks@) =~= Seq::<PlateBlockV>::empty());
            if let Result::Ok((rest, p2)) = parse_blocks_spec(ld, 1, 0, n as int) {
                assert(blocks_view(blocks@) + rest =~= rest);
            }
        }
        while i < n as usize
            invariant
                0 <= i <= n,
                1 <= p <= lines@.len(),
                lines@.len() >= 1,
                ld == lines.deep_view(),
                block_count_spec(ld[0]) == Result::<u16, FormatErrorV>::Ok(n),
                parse_blocks_spec(ld, 1, 0, n as int) == match parse_blocks_spec(
                    ld,
                    p as int,
                    i as int,
                    n as int,
                ) {
                    Result::Ok((rest, p2)) => Result::<(Seq<PlateBlockV>, int), ParseErrorV>::Ok(
                        (blocks_view(blocks@) + rest, p2),
                    ),
                    Result::Err(e) => Result::<(Seq<PlateBlockV>, int), ParseErrorV>::Err(e),
                },
            decreases n - i,
        {
            match PlateBlock::parse(lines, p) {
                Err(e) => {
                    return Err(e.at_block(i));
                },
                Ok((b, p_next)) => {
                    let ghost old_view = blocks_view(blocks@);
                    let ghost bv = b@;
                    blocks.push(b);
                    proof {
                        assert(blocks_view(blocks@) =~= old_view.push(bv));
                        if let Result::Ok((rest, p2)) = parse_blocks_spec(
                            ld,
                            p_next as int,
                            i + 1,
                            n as int,
                        ) {
                            assert(old_view + (seq![bv] + rest) =~= blocks_view(blocks@) + rest);
                        }
                    }
                    p = p_next;
                },
            }
            i = i + 1;
        }
        proof {
            assert(blocks_view(blocks@) + Seq::<PlateBlockV>::empty() =~= blocks_view(blocks@));
        }
        Ok(M5File(blocks))
    }
}

/// Round-trip law for the header: for every count `n`, the line made of
/// the magic token, a tab, and `n` in decimal parses to exactly `n`.
pub proof fn lemma_block_count_round_trip(n: u16)
    ensures
        block_count_spec(lit_blocks_magic() + seq![crate::bytes::TAB] + crate::num::dec_digits(
            n as int,
        )) == Result::<u16, FormatErrorV>::Ok(n),
{
    let magic = lit_blocks_magic();
    let digits = crate::num::dec_digits(n as int);
    let line = magic + seq![crate::bytes::TAB] + digits;
    crate::num::lemma_dec_digits_val(n as int);
    crate::num::lemma_dec_digits_uint_token(n as int);
    assert(forall|j: int| 0 <= j < magic.len() ==> !crate::bytes::is_ws(line[j]));
    assert(crate::bytes::is_ws(line[magic.len() as int]));
    crate::bytes::lemma_ws_tokens_run(line, magic.len() as int);
    assert(line.take(magic.len() as int) =~= magic);
    let rest = line.skip(magic.len() as int);
    assert(rest[0] == crate::bytes::TAB);
    assert(rest.skip(1) =~= digits);
    assert(ws_tokens(rest) == ws_tokens(digits));
    assert(forall|j: int|
        0 <= j < digits.len() ==> crate::num::is_digit(digits[j]) && !crate::bytes::is_ws(
            digits[j],
        ));
    crate::bytes::lemma_ws_tokens_run(digits, digits.len() as int);
    assert(digits.take(digits.len() as int) =~= digits);
    assert(digits.skip(digits.len() as int) =~= Seq::<u8>::empty());
    assert(ws_tokens(Seq::<u8>::empty()) =~= Seq::<Seq<u8>>::empty());
    assert(ws_tokens(line) =~= seq![magic, digits]);
}

/// The other half of the header law: a line whose first whitespace token
/// is not the magic token (or which has no token at all) fails with the
/// missing-magic error.
pub proof fn lemma_missing_magic(line: Seq<u8>)
    requires
        ws_tokens(line).len() == 0 || ws_tokens(line)[0] != lit_blocks_magic(),
    ensures
        block_count_spec(line) == Result::<u16, FormatErrorV>::Err(FormatErrorV::MissingMagic),
{
}

proof fn lemma_reads_pos(
    lines: Seq<Seq<u8>>,
    pos: int,
    rt: crate::settings::ReadType,
    info: PlateInfoV,
    i: int,
    n: int,
)
    ensures
        match parse_reads_spec(lines, pos, rt, info, i, n) {
            Result::Ok((ds, p)) => p >= pos,
            Result::Err(e) => true,
        },
    decreases n - i,
{
    if i < n {
        crate::grid::lemma_read_pos(lines, pos, rt, info);
        if let Result::Ok((rd, p)) = crate::grid::parse_read_spec(lines, pos, rt, info) {
            lemma_reads_pos(lines, p, rt, info, i + 1, n);
        }
    }
}

/// Sentinel enforcement, success direction: a block only parses when the
/// line consumed last, after its reads, is exactly the sentinel once
/// trimmed.
pub proof fn lemma_sentinel_on_success(lines: Seq<Seq<u8>>, pos: int)
    requires
        pos >= 0,
    ensures
        match parse_block_spec(lines, pos) {
            Result::Ok((b, p)) => 1 <= p <= lines.len() && trim(lines[p - 1]) == lit_sentinel(),
            Result::Err(e) => true,
        },
{
    if pos < lines.len() {
        if let Result::Ok(s) = plate_settings_spec(lines[pos]) {
            lemma_reads_pos(lines, pos + 2, s.read_type, s.info, 0, s.info.reads as int);
        }
    }
}

/// Sentinel enforcement, failure direction: when the settings row, the
/// unit header and every read parse, and the next line is present but is
/// not the sentinel once trimmed, the block fails with the
/// missing-sentinel error — the reads' success does not excuse it.
pub proof fn lemma_sentinel_required(
    lines: Seq<Seq<u8>>,
    pos: int,
    s: PlateSettingsV,
    data: Seq<(ReadInfoV, Seq<WellValueV>)>,
    p2: int,
)
    requires
        0 <= pos,
        pos + 1 < lines.len(),
        plate_settings_spec(lines[pos]) == Result::<PlateSettingsV, FormatErrorV>::Ok(s),
        unit_header_spec(lines[pos + 1]) == Result::<(), FormatErrorV>::Ok(()),
        parse_reads_spec(lines, pos + 2, s.read_type, s.info, 0, s.info.reads as int) == Result::<
            (Seq<(ReadInfoV, Seq<WellValueV>)>, int),
            ParseErrorV,
        >::Ok((data, p2)),
        0 <= p2 < lines.len(),
        trim(lines[p2]) != lit_sentinel(),
    ensures
        parse_block_spec(lines, pos) == Result::<(PlateBlockV, int), ParseErrorV>::Err(
            ParseErrorV::bare(FormatErrorV::MissingSentinel),
        ),
{
}

proof fn lemma_blocks_len(lines: Seq<Seq<u8>>, pos: int, i: int, n: int)
    requires
        i <= n,
    ensures
        match parse_blocks_spec(lines, pos, i, n) {
            Result::Ok((bs, p)) => bs.len() == n - i,
            Result::Err(e) => true,
        },
    decreases n - i,
{
    if i < n {
        if let Result::Ok((b, p)) = parse_block_spec(lines, pos) {
            lemma_blocks_len(lines, p, i + 1, n);
        }
    }
}

/// The block count declared in the header must be met in full: a parsed
/// file holds exactly as many blocks as its header declared. A shortfall
/// is a hard failure, never a truncation.
pub proof fn lemma_declared_count_met(lines: Seq<Seq<u8>>)
    ensures
        match parse_file_spec(lines) {
            Result::Ok(bs) => lines.len() > 0 && block_count_spec(lines[0]) == Result::<
                u16,
                FormatErrorV,
            >::Ok(bs.len() as u16),
            Result::Err(e) => true,
        },
{
    if lines.len() > 0 {
        if let Result::Ok(n) = block_count_spec(lines[0]) {
            lemma_blocks_len(lines, 1, 0, n as int);
        }
    }
}

} // verus!
