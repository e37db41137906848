//! Probing an emote's image: what the first bytes of the file say of its
//! format and size, and which names were probed already.

use crate::emote::{fallback_meta, EmoteMeta, ImageFormat};
use crate::names::{index_entries, NameIndex};
use vstd::prelude::*;
use vstd::string::*;

verus! {

/// The last byte of the prefix that a probe asks the server for. The header
/// of a PNG, GIF or WebP file lies well within it.
pub const PREFIX_LAST_BYTE: u32 = 8096;

/// What the `image` crate reads from the start of a file: the format that
/// `image::guess_format` finds by the magic bytes, and the width and height
/// that `ImageReader::into_dimensions` decodes from the header as of that
/// format. `None` where the format is not recognised or the header cannot be
/// decoded.
pub uninterp spec fn header_of(bytes: Seq<u8>) -> Option<EmoteMeta>;

/// Calls `image::guess_format`, then `ImageReader::with_format` and
/// `into_dimensions` on the same bytes. Trusted: the result is the one that
/// `header_of` names, that is, it depends on the bytes alone.
#[verifier::external_body]
fn read_header(bytes: &[u8]) -> (r: Option<EmoteMeta>)
    ensures
        r == header_of(bytes@),
{
    let guessed = image::guess_format(bytes).ok()?;
    let reader = image::ImageReader::with_format(std::io::Cursor::new(bytes), guessed);
    let (width, height) = reader.into_dimensions().ok()?;
    let format = match guessed {
        image::ImageFormat::Png => ImageFormat::Png,
        image::ImageFormat::Jpeg => ImageFormat::Jpeg,
        image::ImageFormat::Gif => ImageFormat::Gif,
        image::ImageFormat::WebP => ImageFormat::WebP,
        image::ImageFormat::Bmp => ImageFormat::Bmp,
        _ => ImageFormat::Other,
    };
    Some(EmoteMeta { width, height, format })
}

/// The result of a probe whose header was read as `header`: the header's
/// content, or the fallback where there is none.
pub open spec fn probe_result(header: Option<EmoteMeta>) -> EmoteMeta {
    match header {
        Some(meta) => meta,
        None => fallback_meta(),
    }
}

/// The result of a probe that fetched `body`, or nothing.
pub open spec fn probe_outcome(body: Option<Seq<u8>>) -> EmoteMeta {
    match body {
        Some(bytes) => probe_result(header_of(bytes)),
        None => fallback_meta(),
    }
}

/// The result of a probe whose header was read as `header`. A probe never
/// fails: where the header could not be read, the result is the fallback.
pub fn meta_or_fallback(header: Option<EmoteMeta>) -> (r: EmoteMeta)
    ensures
        r == probe_result(header),
{
    match header {
        Some(meta) => meta,
        None => EmoteMeta::fallback(),
    }
}

/// Probes the first bytes of an image file.
pub fn probe_bytes(bytes: &[u8]) -> (r: EmoteMeta)
    ensures
        r == probe_result(header_of(bytes@)),
{
    meta_or_fallback(read_header(bytes))
}

/// The result of a probe, from what the request for the file's prefix
/// brought: the bytes, or nothing where the request failed.
pub fn probe_response(body: Option<&[u8]>) -> (r: EmoteMeta)
    ensures
        r == probe_outcome(
            match body {
                Some(bytes) => Some(bytes@),
                None => None,
            },
        ),
{
    match body {
        Some(bytes) => probe_bytes(bytes),
        None => EmoteMeta::fallback(),
    }
}

/// The names whose images were probed, or are being probed, in this session.
pub struct ProbeLog {
    index: NameIndex,
}

impl View for ProbeLog {
    type V = Set<Seq<char>>;

    closed spec fn view(&self) -> Set<Seq<char>> {
        index_entries(self.index).dom()
    }
}

impl ProbeLog {
    /// A log without names.
    pub fn new() -> (r: ProbeLog)
        ensures
            r@ == Set::<Seq<char>>::empty(),
    {
        let log = ProbeLog { index: NameIndex::new() };
        proof {
            assert(log@ =~= Set::<Seq<char>>::empty());
        }
        log
    }

    /// Whether the name is in the log.
    pub fn contains(&self, name: &str) -> (r: bool)
        ensures
            r == self@.contains(name@),
    {
        self.index.get(name).is_some()
    }

    /// Enters a name in the log. Returns whether the name is new, that is,
    /// whether its image is to be probed now: this happens once for a name.
    pub fn first_sighting(&mut self, name: &str) -> (r: bool)
        ensures
            r == !old(self)@.contains(name@),
            final(self)@ == old(self)@.insert(name@),
    {
        if self.index.get(name).is_some() {
            proof {
                assert(self@ =~= old(self)@.insert(name@));
            }
            false
        } else {
            self.index.insert(String::from_str(name), 0);
            proof {
                assert(self@ =~= old(self)@.insert(name@));
            }
            true
        }
    }
}

} // verus!
