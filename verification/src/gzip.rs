//! The decompression adapter: a streaming gzip inflater. The gzip framing
//! (magic number, header fields, trailer) is parsed and checked here, with
//! a proved parser that accepts the header in arbitrarily small pieces;
//! the raw deflate stream inside is handed to an outside inflater.

use vstd::prelude::*;
use vstd::slice::{slice_subrange, slice_to_vec};
use crate::error::Error;

verus! {

/// The outside inflater type, opaque to the proofs: only the wrappers
/// below touch it.
#[verifier::external_type_specification]
#[verifier::external_body]
pub struct ExDecompress(flate2::Decompress);

/// Relies on `flate2::Decompress::new(false)`: a fresh streaming inflater
/// for a raw deflate stream without a zlib or gzip wrapper.
#[verifier::external_body]
fn inflater_new() -> flate2::Decompress {
    flate2::Decompress::new(false)
}

/// Relies on `flate2::Decompress::decompress_vec` with `FlushDecompress::None`:
/// it consumes a prefix of `input` (never more than all of it, measured by
/// `total_in`), appends up to one buffer of inflated bytes, reports whether
/// the deflate stream ended, and fails only on corrupt input.
#[verifier::external_body]
fn inflate_step(d: &mut flate2::Decompress, input: &[u8]) -> (r: Result<(Vec<u8>, usize, bool), ()>)
    ensures
        r matches Ok(t) ==> t.1 <= input@.len(),
{
    let mut out: Vec<u8> = Vec::with_capacity(32 * 1024);
    let before = d.total_in();
    match d.decompress_vec(input, &mut out, flate2::FlushDecompress::None) {
        Ok(status) => {
            let consumed = (d.total_in() - before) as usize;
            Ok((out, consumed, status == flate2::Status::StreamEnd))
        },
        Err(_) => Err(()),
    }
}

/// What a scan of a gzip header prefix can conclude.
pub enum GzipScan {
    /// The bytes so far are a proper prefix of a well-formed header.
    NeedMore,
    /// The bytes can never begin a well-formed header.
    Invalid,
    /// A complete header occupies exactly this many leading bytes.
    Parsed(int),
}

/// The position of the first zero byte at or after `from`, if any.
pub open spec fn find_zero(s: Seq<u8>, from: int) -> Option<int>
    decreases s.len() - from,
{
    if from < 0 || from >= s.len() {
        Option::None
    } else if s[from] == 0 {
        Option::Some(from)
    } else {
        find_zero(s, from + 1)
    }
}

/// Scans past the optional zero-terminated file-name field.
pub open spec fn scan_name(s: Seq<u8>, flg: u8, pos: int) -> GzipScan {
    if flg & 8 == 0 {
        scan_comment(s, flg, pos)
    } else {
        match find_zero(s, pos) {
            Option::None => GzipScan::NeedMore,
            Option::Some(z) => scan_comment(s, flg, z + 1),
        }
    }
}

/// Scans past the optional zero-terminated comment field.
pub open spec fn scan_comment(s: Seq<u8>, flg: u8, pos: int) -> GzipScan {
    if flg & 16 == 0 {
        scan_crc(s, flg, pos)
    } else {
        match find_zero(s, pos) {
            Option::None => GzipScan::NeedMore,
            Option::Some(z) => scan_crc(s, flg, z + 1),
        }
    }
}

/// Scans past the optional two-byte header checksum.
pub open spec fn scan_crc(s: Seq<u8>, flg: u8, pos: int) -> GzipScan {
    let end = if flg & 2 == 0 {
        pos
    } else {
        pos + 2
    };
    if end <= s.len() {
        GzipScan::Parsed(end)
    } else {
        GzipScan::NeedMore
    }
}

/// Scans a gzip member header at the start of `s`: the two magic bytes,
/// the deflate compression method, a flag byte without reserved bits, six
/// fixed bytes, then the optional extra, name, comment and checksum
/// fields.
pub open spec fn gzip_scan(s: Seq<u8>) -> GzipScan {
    if s.len() >= 1 && s[0] != 0x1f {
        GzipScan::Invalid
    } else if s.len() >= 2 && s[1] != 0x8b {
        GzipScan::Invalid
    } else if s.len() >= 3 && s[2] != 8 {
        GzipScan::Invalid
    } else if s.len() >= 4 && s[3] & 0xe0 != 0 {
        GzipScan::Invalid
    } else if s.len() < 10 {
        GzipScan::NeedMore
    } else {
        let flg = s[3];
        if flg & 4 == 0 {
            scan_name(s, flg, 10)
        } else if s.len() < 12 {
            GzipScan::NeedMore
        } else {
            scan_name(s, flg, 12 + s[10] + 256 * s[11])
        }
    }
}

/// The exec-level verdict of a header scan.
pub enum HeaderStatus {
    NeedMore,
    Invalid,
    Parsed(usize),
}

/// Finds the first zero byte at or after `from`.
fn find_zero_exec(s: &[u8], from: usize) -> (r: Option<usize>)
    ensures
        r matches Some(z) ==> from <= z < s@.len() && find_zero(s@, from as int)
            == Option::Some(z as int),
        r is None ==> find_zero(s@, from as int) is None,
{
    let mut i: usize = from;
    if i >= s.len() {
        return None;
    }
    while i < s.len()
        invariant
            from <= i <= s.len(),
            find_zero(s@, from as int) == find_zero(s@, i as int),
        decreases s.len() - i,
    {
        if s[i] == 0 {
            return Some(i);
        }
        i = i + 1;
    }
    None
}

/// Scans a header prefix, mirroring `gzip_scan`.
fn parse_header(s: &[u8]) -> (r: HeaderStatus)
    ensures
        r is NeedMore <==> gzip_scan(s@) is NeedMore,
        r is Invalid <==> gzip_scan(s@) is Invalid,
        r matches HeaderStatus::Parsed(n) ==> gzip_scan(s@) == GzipScan::Parsed(n as int) && n
            <= s@.len(),
{
    if s.len() >= 1 && s[0] != 0x1f {
        return HeaderStatus::Invalid;
    }
    if s.len() >= 2 && s[1] != 0x8b {
        return HeaderStatus::Invalid;
    }
    if s.len() >= 3 && s[2] != 8 {
        return HeaderStatus::Invalid;
    }
    if s.len() >= 4 && s[3] & 0xe0 != 0 {
        return HeaderStatus::Invalid;
    }
    if s.len() < 10 {
        return HeaderStatus::NeedMore;
    }
    let flg = s[3];
    let mut pos: usize;
    if flg & 4 == 0 {
        pos = 10;
    } else {
        if s.len() < 12 {
            return HeaderStatus::NeedMore;
        }
        let xlen: usize = (s[10] as usize) + 256 * (s[11] as usize);
        pos = 12 + xlen;
    }
    let ghost name_pos: int = pos as int;
    if flg & 8 != 0 {
        match find_zero_exec(s, pos) {
            Some(z) => {
                pos = z + 1;
            },
            None => {
                return HeaderStatus::NeedMore;
            },
        }
    }
    let ghost comment_pos: int = pos as int;
    if flg & 16 != 0 {
        match find_zero_exec(s, pos) {
            Some(z) => {
                pos = z + 1;
            },
            None => {
                return HeaderStatus::NeedMore;
            },
        }
    }
    proof {
        assert(scan_name(s@, flg, name_pos) == scan_crc(s@, flg, pos as int));
    }
    if flg & 2 != 0 {
        if pos > s.len() || s.len() - pos < 2 {
            return HeaderStatus::NeedMore;
        }
        pos = pos + 2;
    } else {
        if pos > s.len() {
            return HeaderStatus::NeedMore;
        }
    }
    HeaderStatus::Parsed(pos)
}

/// Where a decoder stands in the gzip member it is reading.
pub enum GzipStage {
    /// Still collecting header bytes.
    Header,
    /// Inside the deflate stream.
    Body,
    /// The deflate stream ended; everything further (the trailer) is
    /// swallowed.
    Finished,
}

/// A streaming gzip decoder: feed it raw body chunks, receive inflated
/// bytes. Inflate state persists across chunks of any size.
pub struct GzipDecoder {
    stage: GzipStage,
    header_buf: Vec<u8>,
    inflater: flate2::Decompress,
}

impl GzipDecoder {
    /// Which stage the decoder is in.
    pub closed spec fn stage(&self) -> GzipStage {
        self.stage
    }

    /// The header bytes buffered so far.
    pub closed spec fn buffered(&self) -> Seq<u8> {
        self.header_buf@
    }

    /// A decoder waiting for the start of a gzip header.
    pub fn new() -> (r: GzipDecoder)
        ensures
            r.stage() is Header,
            r.buffered() == Seq::<u8>::empty(),
    {
        GzipDecoder { stage: GzipStage::Header, header_buf: Vec::new(), inflater: inflater_new() }
    }

    /// Runs the inflater over all of `data`, collecting its output.
    ///
    /// The inflated bytes themselves are whatever the outside inflater
    /// produces; corrupt input is reported as an upstream error.
    fn inflate_all(&mut self, data: &[u8], out: &mut Vec<u8>) -> (r: Result<bool, Error>)
        ensures
            final(self).stage() == old(self).stage(),
            final(self).buffered() == old(self).buffered(),
            r matches Err(e) ==> e is Custom,
    {
        let mut offset: usize = 0;
        // Deflate expands each input byte into at most ~1032 output bytes,
        // so the inflater can fill the step's 32 KiB buffer without
        // consuming input at most about len/31 times per feed; this bound
        // is far above that, and only corrupt state could exhaust it.
        let mut fuel: usize = data.len() / 16 + 8;
        loop
            invariant
                offset <= data.len(),
                self.stage == old(self).stage,
                self.header_buf@ == old(self).header_buf@,
            decreases data.len() - offset + fuel,
        {
            let remaining: usize = data.len() - offset;
            if remaining == 0 {
                return Ok(false);
            }
            let piece: &[u8] = slice_subrange(data, offset, data.len());
            match inflate_step(&mut self.inflater, piece) {
                Ok((produced, consumed, ended)) => {
                    let mut produced = produced;
                    let produced_len = produced.len();
                    out.append(&mut produced);
                    offset = offset + consumed;
                    if ended {
                        return Ok(true);
                    }
                    if consumed == 0 {
                        if produced_len == 0 {
                            // The inflater is stalled mid-stream: it needs
                            // bytes a later chunk will bring.
                            return Ok(false);
                        }
                        if fuel == 0 {
                            return Err(Error::custom(String::from_str(
                                "gzip stream produced implausibly much output",
                            )));
                        }
                        fuel = fuel - 1;
                    }
                },
                Err(_) => {
                    return Err(Error::custom(String::from_str("corrupt deflate stream")));
                },
            }
        }
    }

    /// Feeds one chunk of the compressed body; returns the inflated bytes
    /// it yields.
    ///
    /// While the header is incomplete the chunk is buffered and nothing is
    /// produced; a chunk that makes the header unreadable fails the
    /// stream; once the deflate stream inside has ended, any further bytes
    /// (the gzip trailer) are swallowed.
    pub fn feed(&mut self, chunk: &[u8]) -> (r: Result<Vec<u8>, Error>)
        ensures
            old(self).stage() is Finished ==> ({
                &&& *final(self) == *old(self)
                &&& r matches Ok(v) && v@ == Seq::<u8>::empty()
            }),
            (old(self).stage() is Header && gzip_scan(old(self).buffered() + chunk@) is NeedMore)
                ==> ({
                &&& final(self).stage() is Header
                &&& final(self).buffered() == old(self).buffered() + chunk@
                &&& r matches Ok(v) && v@ == Seq::<u8>::empty()
            }),
            (old(self).stage() is Header && gzip_scan(old(self).buffered() + chunk@) is Invalid)
                ==> (r matches Err(e) && e is Custom),
            r matches Err(e) ==> e is Custom,
    {
        match self.stage {
            GzipStage::Finished => Ok(Vec::new()),
            GzipStage::Header => {
                let mut whole = self.header_buf.split_off(0);
                let mut incoming = slice_to_vec(chunk);
                whole.append(&mut incoming);
                proof {
                    assert(whole@ == old(self).buffered() + chunk@);
                }
                match parse_header(whole.as_slice()) {
                    HeaderStatus::NeedMore => {
                        self.header_buf = whole;
                        Ok(Vec::new())
                    },
                    HeaderStatus::Invalid => {
                        Err(Error::custom(String::from_str("invalid gzip header")))
                    },
                    HeaderStatus::Parsed(n) => {
                        self.stage = GzipStage::Body;
                        let rest: &[u8] = slice_subrange(whole.as_slice(), n, whole.len());
                        let mut out: Vec<u8> = Vec::new();
                        match self.inflate_all(rest, &mut out) {
                            Ok(ended) => {
                                if ended {
                                    self.stage = GzipStage::Finished;
                                }
                                Ok(out)
                            },
                            Err(e) => Err(e),
                        }
                    },
                }
            },
            GzipStage::Body => {
                let mut out: Vec<u8> = Vec::new();
                match self.inflate_all(chunk, &mut out) {
                    Ok(ended) => {
                        if ended {
                            self.stage = GzipStage::Finished;
                        }
                        Ok(out)
                    },
                    Err(e) => Err(e),
                }
            },
        }
    }
}

} // verus!
