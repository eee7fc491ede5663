//! What the GIF export decides before and while the encoder runs.

use vstd::prelude::*;
use crate::editor::Frame;
use crate::raster::Image;

verus! {

#[verifier::external_type_specification]
#[verifier::external_body]
pub struct ExIoError(std::io::Error);

/// Why exporting a GIF failed.
#[derive(Debug)]
pub enum EncodeError {
    NoFrames,
    Encoding(String),
    Io(std::io::Error),
}

/// Calls `ToString::to_string` on the I/O error, through its `Display` impl.
/// Nothing is claimed of the text.
#[verifier::external_body]
fn io_error_text(err: &std::io::Error) -> String {
    err.to_string()
}

impl EncodeError {
    /// A sentence describing the error.
    pub fn message(&self) -> (r: String)
        ensures
            self matches EncodeError::NoFrames ==> r@ == "cannot encode an empty frame list"@,
            self matches EncodeError::Encoding(msg) ==> r@ == "gif encoding failed: "@ + msg@,
            self matches EncodeError::Io(_) ==> exists|detail: Seq<char>|
                r@ == "could not write gif file: "@ + detail,
    {
        match self {
            EncodeError::NoFrames => String::from_str("cannot encode an empty frame list"),
            EncodeError::Encoding(msg) => {
                let mut r = String::from_str("gif encoding failed: ");
                r.append(msg.as_str());
                r
            },
            EncodeError::Io(err) => {
                let detail = io_error_text(err);
                let mut r = String::from_str("could not write gif file: ");
                r.append(detail.as_str());
                r
            },
        }
    }
}

/// Refuses to encode an empty list of frames.
pub fn check_frames(frames: &[Frame]) -> (r: Result<(), EncodeError>)
    ensures
        frames@.len() == 0 <==> r matches Err(EncodeError::NoFrames),
        frames@.len() > 0 <==> r is Ok,
{
    if frames.len() == 0 {
        Err(EncodeError::NoFrames)
    } else {
        Ok(())
    }
}

/// The pixels of `image` as RGBA quadruples, row by row.
pub fn rgba_pixels(image: &Image) -> (r: Vec<[u8; 4]>)
    ensures
        r@.len() == image@.width * image@.height,
        forall|p: int, c: int|
            0 <= p < r@.len() && 0 <= c < 4 ==> #[trigger] r@[p]@[c] == image@.pixels[4 * p + c],
{
    let bytes = image.pixels();
    let len = bytes.len();
    let n = len / 4;
    assert(bytes@.len() == 4 * (image@.width * image@.height)) by (nonlinear_arith)
        requires
            bytes@.len() == image@.width * image@.height * 4,
    ;
    let mut out: Vec<[u8; 4]> = Vec::new();
    for p in 0..n
        invariant
            n == image@.width * image@.height,
            bytes@ == image@.pixels,
            bytes@.len() == 4 * n,
            len == bytes@.len(),
            out@.len() == p,
            forall|q: int, c: int|
                0 <= q < p && 0 <= c < 4 ==> #[trigger] out@[q]@[c] == image@.pixels[4 * q + c],
    {
        let b = 4 * p;
        out.push([bytes[b], bytes[b + 1], bytes[b + 2], bytes[b + 3]]);
    }
    out
}

/// Counts the frames the encoder has written out of a known total.
pub struct ProgressCounter {
    total: usize,
    current: usize,
}

impl ProgressCounter {
    pub closed spec fn total_spec(&self) -> usize {
        self.total
    }

    pub closed spec fn current_spec(&self) -> usize {
        self.current
    }

    /// A counter at zero out of `total`.
    pub fn new(total: usize) -> (r: Self)
        ensures
            r.total_spec() == total,
            r.current_spec() == 0,
    {
        ProgressCounter { total, current: 0 }
    }

    pub fn current(&self) -> (r: usize)
        ensures
            r == self.current_spec(),
    {
        self.current
    }

    pub fn total(&self) -> (r: usize)
        ensures
            r == self.total_spec(),
    {
        self.total
    }

    /// Records one more written frame and gives `(written, total)`.
    pub fn increase(&mut self) -> (r: (usize, usize))
        requires
            old(self).current_spec() < usize::MAX,
        ensures
            final(self).current_spec() == old(self).current_spec() + 1,
            final(self).total_spec() == old(self).total_spec(),
            r == (final(self).current_spec(), final(self).total_spec()),
    {
        self.current = self.current + 1;
        (self.current, self.total)
    }
}

} // verus!
