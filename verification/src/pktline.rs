//! Length-prefixed packet framing.
//!
//! A packet is four ASCII hex digits followed by a payload. The digits give
//! the length of the whole packet, prefix included, so a data packet counts
//! at least four. The prefix `0000` is a flush packet and carries nothing.

use vstd::prelude::*;

verus! {

/// Largest payload that one data packet carries.
pub const MAX_PAYLOAD: usize = 65516;

/// Why a byte stream could not be framed.
#[derive(Clone, Copy, Debug, PartialEq, Eq, Structural)]
pub enum FrameError {
    /// The stream ends inside a prefix or inside a payload.
    Truncated,
    /// The prefix is not four hex digits, or counts one, two or three.
    BadLength,
    /// The payload is larger than `MAX_PAYLOAD`.
    TooLong,
}

/// Value of one ASCII hex digit, in either case.
pub open spec fn hex_val(b: u8) -> Option<int> {
    if 48 <= b <= 57 {
        Some(b - 48)
    } else if 97 <= b <= 102 {
        Some(b - 87)
    } else if 65 <= b <= 70 {
        Some(b - 55)
    } else {
        None
    }
}

/// Lower-case ASCII digit for a value below sixteen.
pub open spec fn hex_char(d: int) -> u8 {
    if d < 10 {
        (48 + d) as u8
    } else {
        (87 + d) as u8
    }
}

/// The four digits that announce a packet of `n` bytes.
pub open spec fn length_prefix(n: int) -> Seq<u8> {
    seq![hex_char(n / 4096), hex_char(n / 256 % 16), hex_char(n / 16 % 16), hex_char(n % 16)]
}

/// The number that the four bytes at `pos` spell, if they are hex digits.
pub open spec fn prefix_value(s: Seq<u8>, pos: int) -> Option<int>
    recommends
        0 <= pos,
        pos + 4 <= s.len(),
{
    match (hex_val(s[pos]), hex_val(s[pos + 1]), hex_val(s[pos + 2]), hex_val(s[pos + 3])) {
        (Some(a), Some(b), Some(c), Some(d)) => Some(a * 4096 + b * 256 + c * 16 + d),
        _ => None,
    }
}

/// A data packet on the wire.
pub open spec fn frame(payload: Seq<u8>) -> Seq<u8> {
    length_prefix(payload.len() as int + 4) + payload
}

/// A flush packet on the wire.
pub open spec fn flush_frame() -> Seq<u8> {
    seq![48u8, 48u8, 48u8, 48u8]
}

/// The packet that starts at `pos`, and where the next one starts.
/// `None` stands for a flush packet.
pub open spec fn packet_at(s: Seq<u8>, pos: int) -> Result<(Option<Seq<u8>>, int), FrameError> {
    if pos + 4 > s.len() {
        Err(FrameError::Truncated)
    } else {
        match prefix_value(s, pos) {
            None => Err(FrameError::BadLength),
            Some(n) => if n == 0 {
                Ok((None, pos + 4))
            } else if n < 4 {
                Err(FrameError::BadLength)
            } else if pos + n > s.len() {
                Err(FrameError::Truncated)
            } else {
                Ok((Some(s.subrange(pos + 4, pos + n)), pos + n))
            },
        }
    }
}

/// Whether an executable read agrees with `packet_at`.
pub open spec fn read_matches(
    r: Result<(Option<Vec<u8>>, usize), FrameError>,
    s: Result<(Option<Seq<u8>>, int), FrameError>,
) -> bool {
    match (r, s) {
        (Ok((Some(v), next)), Ok((Some(p), snext))) => v@ == p && next == snext,
        (Ok((None, next)), Ok((None, snext))) => next == snext,
        (Err(e), Err(se)) => e == se,
        _ => false,
    }
}

fn hex_digit(b: u8) -> (r: Option<usize>)
    ensures
        match (r, hex_val(b)) {
            (Some(v), Some(s)) => v == s,
            (None, None) => true,
            _ => false,
        },
{
    if 48 <= b && b <= 57 {
        Some((b - 48) as usize)
    } else if 97 <= b && b <= 102 {
        Some((b - 87) as usize)
    } else if 65 <= b && b <= 70 {
        Some((b - 55) as usize)
    } else {
        None
    }
}

fn digit_char(d: usize) -> (r: u8)
    requires
        d < 16,
    ensures
        r == hex_char(d as int),
{
    if d < 10 {
        (48 + d) as u8
    } else {
        (87 + d) as u8
    }
}

/// The length that the prefix at `pos` announces: zero for a flush packet,
/// else the length of the whole packet.
pub open spec fn size_at(s: Seq<u8>, pos: int) -> Result<int, FrameError> {
    if pos + 4 > s.len() {
        Err(FrameError::Truncated)
    } else {
        match prefix_value(s, pos) {
            None => Err(FrameError::BadLength),
            Some(n) => if 0 < n < 4 {
                Err(FrameError::BadLength)
            } else {
                Ok(n)
            },
        }
    }
}

/// Reads the prefix at `pos`, for a caller that has yet to read the
/// payload.
pub fn packet_size(buf: &[u8], pos: usize) -> (r: Result<usize, FrameError>)
    requires
        pos <= buf@.len(),
    ensures
        match (r, size_at(buf@, pos as int)) {
            (Ok(n), Ok(m)) => n == m,
            (Err(e), Err(f)) => e == f,
            _ => false,
        },
{
    if buf.len() - pos < 4 {
        return Err(FrameError::Truncated);
    }
    let a = hex_digit(buf[pos]);
    let b = hex_digit(buf[pos + 1]);
    let c = hex_digit(buf[pos + 2]);
    let d = hex_digit(buf[pos + 3]);
    match (a, b, c, d) {
        (Some(a), Some(b), Some(c), Some(d)) => {
            let n: usize = a * 4096 + b * 256 + c * 16 + d;
            if 0 < n && n < 4 {
                Err(FrameError::BadLength)
            } else {
                Ok(n)
            }
        },
        _ => Err(FrameError::BadLength),
    }
}

/// Reads the packet that starts at `pos`.
pub fn read_packet(buf: &[u8], pos: usize) -> (r: Result<(Option<Vec<u8>>, usize), FrameError>)
    requires
        pos <= buf@.len(),
    ensures
        read_matches(r, packet_at(buf@, pos as int)),
{
    if buf.len() - pos < 4 {
        return Err(FrameError::Truncated);
    }
    let a = hex_digit(buf[pos]);
    let b = hex_digit(buf[pos + 1]);
    let c = hex_digit(buf[pos + 2]);
    let d = hex_digit(buf[pos + 3]);
    match (a, b, c, d) {
        (Some(a), Some(b), Some(c), Some(d)) => {
            let n: usize = a * 4096 + b * 256 + c * 16 + d;
            if n == 0 {
                Ok((None, pos + 4))
            } else if n < 4 {
                Err(FrameError::BadLength)
            } else if buf.len() - pos < n {
                Err(FrameError::Truncated)
            } else {
                let mut payload: Vec<u8> = Vec::new();
                let end: usize = pos + n;
                let mut i: usize = pos + 4;
                while i < end
                    invariant
                        pos + 4 <= i <= end,
                        end <= buf@.len(),
                        payload@ == buf@.subrange(pos + 4, i as int),
                    decreases end - i,
                {
                    payload.push(buf[i]);
                    i += 1;
                    assert(payload@ =~= buf@.subrange(pos + 4, i as int));
                }
                Ok((Some(payload), end))
            }
        },
        _ => Err(FrameError::BadLength),
    }
}

/// Appends `payload` as one data packet. A payload over `MAX_PAYLOAD` is
/// refused and nothing is written.
pub fn write_packet(out: &mut Vec<u8>, payload: &[u8]) -> (r: Result<(), FrameError>)
    ensures
        payload@.len() <= MAX_PAYLOAD ==> r.is_ok() && final(out)@ == old(out)@ + frame(payload@),
        payload@.len() > MAX_PAYLOAD ==> r == Err::<(), FrameError>(FrameError::TooLong)
            && final(out)@ == old(out)@,
{
    if payload.len() > MAX_PAYLOAD {
        return Err(FrameError::TooLong);
    }
    let n: usize = payload.len() + 4;
    out.push(digit_char(n / 4096));
    out.push(digit_char(n / 256 % 16));
    out.push(digit_char(n / 16 % 16));
    out.push(digit_char(n % 16));
    assert(out@ =~= old(out)@ + length_prefix(n as int));
    let mut i: usize = 0;
    while i < payload.len()
        invariant
            i <= payload@.len(),
            out@ == old(out)@ + length_prefix(n as int) + payload@.subrange(0, i as int),
        decreases payload@.len() - i,
    {
        out.push(payload[i]);
        i += 1;
        assert(out@ =~= old(out)@ + length_prefix(n as int) + payload@.subrange(0, i as int));
    }
    assert(payload@.subrange(0, i as int) =~= payload@);
    assert(out@ =~= old(out)@ + frame(payload@));
    Ok(())
}

/// Appends a flush packet.
pub fn write_flush(out: &mut Vec<u8>)
    ensures
        final(out)@ == old(out)@ + flush_frame(),
{
    out.push(48u8);
    out.push(48u8);
    out.push(48u8);
    out.push(48u8);
    assert(out@ =~= old(out)@ + flush_frame());
}

/// The digits of a length spell that length.
pub proof fn lemma_prefix_digits(n: int)
    requires
        0 <= n < 65536,
    ensures
        hex_val(hex_char(n / 4096)) == Some(n / 4096),
        hex_val(hex_char(n / 256 % 16)) == Some(n / 256 % 16),
        hex_val(hex_char(n / 16 % 16)) == Some(n / 16 % 16),
        hex_val(hex_char(n % 16)) == Some(n % 16),
        (n / 4096) * 4096 + (n / 256 % 16) * 256 + (n / 16 % 16) * 16 + n % 16 == n,
{
}

/// A written data packet is read back as it was, wherever it stands in a
/// stream.
pub proof fn lemma_frame_round_trip(before: Seq<u8>, payload: Seq<u8>, after: Seq<u8>)
    requires
        payload.len() <= MAX_PAYLOAD,
    ensures
        packet_at(before + frame(payload) + after, before.len() as int) == Ok::<
            (Option<Seq<u8>>, int),
            FrameError,
        >((Some(payload), (before.len() + payload.len() + 4) as int)),
{
    let s = before + frame(payload) + after;
    let pos = before.len() as int;
    let n = payload.len() as int + 4;
    lemma_prefix_digits(n);
    assert(s[pos] == hex_char(n / 4096));
    assert(s[pos + 1] == hex_char(n / 256 % 16));
    assert(s[pos + 2] == hex_char(n / 16 % 16));
    assert(s[pos + 3] == hex_char(n % 16));
    assert(prefix_value(s, pos) == Some(n));
    assert(s.subrange(pos + 4, pos + n) =~= payload);
}

/// A written flush packet is read back as a flush.
pub proof fn lemma_flush_round_trip(before: Seq<u8>, after: Seq<u8>)
    ensures
        packet_at(before + flush_frame() + after, before.len() as int) == Ok::<
            (Option<Seq<u8>>, int),
            FrameError,
        >((None, before.len() as int + 4)),
{
    let s = before + flush_frame() + after;
    let pos = before.len() as int;
    assert(s[pos] == 48u8 && s[pos + 1] == 48u8 && s[pos + 2] == 48u8 && s[pos + 3] == 48u8);
}

} // verus!
