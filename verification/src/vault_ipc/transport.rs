//! Frames: a length of four bytes, most significant first, then the body.
use vstd::prelude::*;
use vstd::slice::slice_subrange;

verus! {

/// Longest body of a frame.
pub const MAX_FRAME: u32 = 16_777_216;

/// Why bytes are not a frame, or cannot become one.
#[derive(Clone, Copy, Debug, PartialEq, Eq, Structural)]
pub enum FrameError {
    /// The length does not fit into four bytes.
    TooLargeForLength,
    /// The body is longer than [`MAX_FRAME`].
    ExceedsMax,
    /// The length announces more than [`MAX_FRAME`].
    LengthExceedsMax,
    /// The bytes end before the frame does.
    UnexpectedEof,
}

/// `n` as four bytes, most significant first.
pub open spec fn length_bytes(n: int) -> Seq<u8> {
    seq![
        (n / 0x100_0000 % 256) as u8,
        (n / 0x1_0000 % 256) as u8,
        (n / 0x100 % 256) as u8,
        (n % 256) as u8,
    ]
}

/// The number that four bytes stand for, most significant first.
pub open spec fn length_of(h: Seq<u8>) -> int {
    h[0] * 0x100_0000 + h[1] * 0x1_0000 + h[2] * 0x100 + h[3]
}

/// The frame around a body.
pub open spec fn framed(body: Seq<u8>) -> Result<Seq<u8>, FrameError> {
    if body.len() > 0xFFFF_FFFF {
        Err(FrameError::TooLargeForLength)
    } else if body.len() > MAX_FRAME {
        Err(FrameError::ExceedsMax)
    } else {
        Ok(length_bytes(body.len() as int) + body)
    }
}

/// The body of the frame at the start of `bytes`, and what follows it.
pub open spec fn unframed(bytes: Seq<u8>) -> Result<(Seq<u8>, Seq<u8>), FrameError> {
    if bytes.len() < 4 {
        Err(FrameError::UnexpectedEof)
    } else {
        let n = length_of(bytes.take(4));
        if n > MAX_FRAME {
            Err(FrameError::LengthExceedsMax)
        } else if bytes.len() < 4 + n {
            Err(FrameError::UnexpectedEof)
        } else {
            Ok((bytes.subrange(4, 4 + n), bytes.skip(4 + n)))
        }
    }
}

proof fn length_reads_back(n: int)
    requires
        0 <= n <= 0xFFFF_FFFF,
    ensures
        length_of(length_bytes(n)) == n,
{
}

/// Reading a stream that starts with the frame around a body gives the body
/// and leaves what follows.
pub proof fn frame_reads_back(body: Seq<u8>, rest: Seq<u8>)
    requires
        body.len() <= MAX_FRAME,
    ensures
        framed(body) is Ok,
        unframed(framed(body)->Ok_0 + rest) == Ok::<(Seq<u8>, Seq<u8>), FrameError>((body, rest)),
{
    let n = body.len() as int;
    let s = framed(body)->Ok_0 + rest;
    length_reads_back(n);
    assert(s.take(4) =~= length_bytes(n));
    assert(s.subrange(4, 4 + n) =~= body);
    assert(s.skip(4 + n) =~= rest);
}

/// The frame around a body.
pub fn encode_frame(body: &[u8]) -> (r: Result<Vec<u8>, FrameError>)
    ensures
        r matches Ok(f) ==> framed(body@) == Ok::<Seq<u8>, FrameError>(f@),
        r matches Err(e) ==> framed(body@) == Err::<Seq<u8>, FrameError>(e),
{
    let n: u64 = body.len() as u64;
    if n > 0xFFFF_FFFF {
        return Err(FrameError::TooLargeForLength);
    }
    if n > MAX_FRAME as u64 {
        return Err(FrameError::ExceedsMax);
    }
    let mut out: Vec<u8> = Vec::new();
    out.push((n / 0x100_0000 % 256) as u8);
    out.push((n / 0x1_0000 % 256) as u8);
    out.push((n / 0x100 % 256) as u8);
    out.push((n % 256) as u8);
    assert(out@ =~= length_bytes(n as int));
    out.extend_from_slice(body);
    assert(out@ =~= length_bytes(n as int) + body@);
    Ok(out)
}

/// The length that the head of a frame announces.
pub fn frame_length(head: &[u8; 4]) -> (r: Result<usize, FrameError>)
    ensures
        length_of(head@) <= MAX_FRAME ==> r == Ok::<usize, FrameError>(length_of(head@) as usize),
        length_of(head@) > MAX_FRAME ==> r == Err::<usize, FrameError>(
            FrameError::LengthExceedsMax,
        ),
{
    let n: u64 = head[0] as u64 * 0x100_0000 + head[1] as u64 * 0x1_0000 + head[2] as u64 * 0x100
        + head[3] as u64;
    if n > MAX_FRAME as u64 {
        return Err(FrameError::LengthExceedsMax);
    }
    Ok(n as usize)
}

/// The body of the frame at the start of `bytes`, and how many bytes the frame
/// takes.
pub fn decode_frame(bytes: &[u8]) -> (r: Result<(Vec<u8>, usize), FrameError>)
    ensures
        r matches Ok((body, used)) ==> used <= bytes@.len() && unframed(bytes@) == Ok::<
            (Seq<u8>, Seq<u8>),
            FrameError,
        >((body@, bytes@.skip(used as int))),
        r matches Err(e) ==> unframed(bytes@) == Err::<(Seq<u8>, Seq<u8>), FrameError>(e),
{
    if bytes.len() < 4 {
        return Err(FrameError::UnexpectedEof);
    }
    let head: [u8; 4] = [bytes[0], bytes[1], bytes[2], bytes[3]];
    assert(head@ =~= bytes@.take(4));
    let n: usize = frame_length(&head)?;
    if bytes.len() - 4 < n {
        return Err(FrameError::UnexpectedEof);
    }
    let mut body: Vec<u8> = Vec::new();
    body.extend_from_slice(slice_subrange(bytes, 4, 4 + n));
    assert(body@ =~= bytes@.subrange(4, 4 + n));
    Ok((body, 4 + n))
}

impl FrameError {
    /// The text that describes the error.
    pub fn message(&self) -> (out: &'static str)
        ensures
            out@ == (match *self {
                FrameError::TooLargeForLength => "frame too large for u32 length"@,
                FrameError::ExceedsMax => "frame exceeds MAX_FRAME"@,
                FrameError::LengthExceedsMax => "frame length exceeds MAX_FRAME"@,
                FrameError::UnexpectedEof => "unexpected end of file"@,
            }),
    {
        match self {
            FrameError::TooLargeForLength => "frame too large for u32 length",
            FrameError::ExceedsMax => "frame exceeds MAX_FRAME",
            FrameError::LengthExceedsMax => "frame length exceeds MAX_FRAME",
            FrameError::UnexpectedEof => "unexpected end of file",
        }
    }
}

/// A frame is four bytes longer than its body and ends with it. The four bytes
/// are the length of the body, each worth 256 times the next.
pub proof fn frame_is_length_and_body(body: Seq<u8>)
    requires
        body.len() <= 16_777_216,
    ensures
        framed(body) matches Ok(f) && {
            &&& f.len() == body.len() + 4
            &&& f.skip(4) == body
            &&& ((f[0] * 256 + f[1]) * 256 + f[2]) * 256 + f[3] == body.len()
        },
{
    let n = body.len() as int;
    length_reads_back(n);
    let f = framed(body)->Ok_0;
    assert(f.skip(4) =~= body);
}

/// A body of more than sixteen mebibytes is refused, and so is a frame that
/// announces one, before anything of it is read.
pub proof fn long_frames_are_refused(body: Seq<u8>, bytes: Seq<u8>)
    ensures
        16_777_216 < body.len() < 0x1_0000_0000 ==> framed(body) == Err::<Seq<u8>, FrameError>(
            FrameError::ExceedsMax,
        ),
        body.len() >= 0x1_0000_0000 ==> framed(body) == Err::<Seq<u8>, FrameError>(
            FrameError::TooLargeForLength,
        ),
        bytes.len() >= 4 && ((bytes[0] * 256 + bytes[1]) * 256 + bytes[2]) * 256 + bytes[3]
            > 16_777_216 ==> unframed(bytes) == Err::<(Seq<u8>, Seq<u8>), FrameError>(
            FrameError::LengthExceedsMax,
        ),
{
}

/// What is read from a stream is where it stands: behind the four bytes that
/// give its length. Where the stream ends too early nothing is read.
pub proof fn body_is_what_the_length_covers(bytes: Seq<u8>)
    ensures
        unframed(bytes) matches Ok((body, rest)) ==> {
            &&& bytes.len() >= 4
            &&& body.len() == ((bytes[0] * 256 + bytes[1]) * 256 + bytes[2]) * 256 + bytes[3]
            &&& bytes == bytes.take(4) + body + rest
        },
        bytes.len() < 4 ==> unframed(bytes) == Err::<(Seq<u8>, Seq<u8>), FrameError>(
            FrameError::UnexpectedEof,
        ),
        unframed(bytes) == Err::<(Seq<u8>, Seq<u8>), FrameError>(FrameError::UnexpectedEof)
            ==> bytes.len() < 4 || bytes.len() - 4 < ((bytes[0] * 256 + bytes[1]) * 256 + bytes[2])
            * 256 + bytes[3],
{
    if let Ok((body, rest)) = unframed(bytes) {
        assert(bytes =~= bytes.take(4) + body + rest);
    }
}

} // verus!
