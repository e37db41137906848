//! The records of the channel-wide emote provider, and what the catalog
//! takes from them.

use crate::emote::{Emote, EmoteSource, EmoteView, ImageFormat};
use crate::text::{ends_with, has_suffix, replace, replaced};
use vstd::prelude::*;
use vstd::std_specs::convert::FromSpecImpl;
use vstd::string::*;

verus! {

/// One image file of an emote, as the provider lists it.
#[derive(Debug)]
pub struct SevenTVEmoteFile {
    pub name: String,
    pub static_name: String,
    pub width: u32,
    pub height: u32,
}

/// Where the image files of an emote are.
#[derive(Debug)]
pub struct SevenTVEmoteHost {
    /// The address of the directory, without the scheme.
    pub url: String,
    pub files: Vec<SevenTVEmoteFile>,
}

/// An emote as the provider describes it.
#[derive(Debug)]
pub struct RawSevenTVEmote {
    pub id: String,
    pub name: String,
    pub animated: bool,
    pub host: SevenTVEmoteHost,
}

/// One member of an emote set.
#[derive(Debug)]
pub struct SevenTVEmoteBundle {
    pub data: RawSevenTVEmote,
}

/// The emote set of a channel.
#[derive(Debug)]
pub struct SevenTVEmoteSet {
    pub emotes: Vec<SevenTVEmoteBundle>,
}

/// The provider's answer for a channel.
#[derive(Debug)]
pub struct SevenTVResponse {
    pub emote_set: SevenTVEmoteSet,
}

/// An emote of the provider reduced to its name and the address of its
/// image as a GIF.
#[derive(Debug)]
pub struct SevenTVEmote {
    pub id: String,
    pub name: String,
    pub emote_url: String,
}

/// The mathematical value of a `SevenTVEmoteFile`.
pub struct FileView {
    pub name: Seq<char>,
    pub static_name: Seq<char>,
    pub width: u32,
    pub height: u32,
}

/// The mathematical value of a `RawSevenTVEmote`.
pub struct RawView {
    pub id: Seq<char>,
    pub name: Seq<char>,
    pub animated: bool,
    pub host_url: Seq<char>,
    pub files: Seq<FileView>,
}

/// The mathematical value of a `SevenTVEmote`.
pub struct GifView {
    pub id: Seq<char>,
    pub name: Seq<char>,
    pub emote_url: Seq<char>,
}

impl View for SevenTVEmoteFile {
    type V = FileView;

    open spec fn view(&self) -> FileView {
        FileView {
            name: self.name@,
            static_name: self.static_name@,
            width: self.width,
            height: self.height,
        }
    }
}

/// The values of a list of files.
pub open spec fn file_views(files: Seq<SevenTVEmoteFile>) -> Seq<FileView> {
    Seq::new(files.len(), |i: int| files[i]@)
}

impl View for RawSevenTVEmote {
    type V = RawView;

    open spec fn view(&self) -> RawView {
        RawView {
            id: self.id@,
            name: self.name@,
            animated: self.animated,
            host_url: self.host.url@,
            files: file_views(self.host.files@),
        }
    }
}

impl View for SevenTVEmote {
    type V = GifView;

    open spec fn view(&self) -> GifView {
        GifView { id: self.id@, name: self.name@, emote_url: self.emote_url@ }
    }
}

/// Whether the file is a WebP image, by its name.
pub open spec fn is_webp(file: FileView) -> bool {
    has_suffix(file.name, ".webp"@)
}

/// The index of the widest WebP file of the list; of several that are
/// equally wide, the last.
pub open spec fn widest_webp(files: Seq<FileView>) -> Option<int>
    decreases files.len(),
{
    if files.len() == 0 {
        None
    } else {
        let last = files.len() - 1;
        match widest_webp(files.drop_last()) {
            Some(best) => if is_webp(files[last]) && files[best].width <= files[last].width {
                Some(last)
            } else {
                Some(best)
            },
            None => if is_webp(files[last]) {
                Some(last)
            } else {
                None
            },
        }
    }
}

/// The widest WebP file is a WebP file, no WebP file is wider, and none
/// behind it is as wide.
pub proof fn lemma_widest_webp(files: Seq<FileView>)
    ensures
        match widest_webp(files) {
            Some(best) => {
                &&& 0 <= best < files.len()
                &&& is_webp(files[best])
                &&& forall|i: int|
                    0 <= i < files.len() && is_webp(#[trigger] files[i]) ==> files[i].width
                        <= files[best].width
                &&& forall|i: int|
                    best < i < files.len() && is_webp(#[trigger] files[i]) ==> files[i].width
                        < files[best].width
            },
            None => forall|i: int| 0 <= i < files.len() ==> !is_webp(#[trigger] files[i]),
        },
    decreases files.len(),
{
    if files.len() > 0 {
        let front = files.drop_last();
        lemma_widest_webp(front);
        assert forall|i: int| 0 <= i < front.len() implies front[i] == files[i] by {}
        match widest_webp(files) {
            Some(best) => {
                assert forall|i: int| 0 <= i < files.len() && is_webp(
                    #[trigger] files[i],
                ) implies files[i].width <= files[best].width by {
                    if i < front.len() {
                        assert(front[i] == files[i]);
                    }
                }
                assert forall|i: int| best < i < files.len() && is_webp(
                    #[trigger] files[i],
                ) implies files[i].width < files[best].width by {
                    if i < front.len() {
                        assert(front[i] == files[i]);
                    }
                }
            },
            None => {
                assert forall|i: int| 0 <= i < files.len() implies !is_webp(
                    #[trigger] files[i],
                ) by {
                    if i < front.len() {
                        assert(front[i] == files[i]);
                    }
                }
            },
        }
    }
}

/// Finds the widest WebP file of the list; of several that are equally wide,
/// the last.
pub fn widest_webp_file(files: &Vec<SevenTVEmoteFile>) -> (r: Option<usize>)
    ensures
        r.is_some() == widest_webp(file_views(files@)).is_some(),
        r matches Some(best) ==> best < files.len() && widest_webp(file_views(files@)) == Some(
            best as int,
        ),
{
    let ghost views = file_views(files@);
    let mut best: Option<usize> = None;
    let mut i: usize = 0;
    while i < files.len()
        invariant
            i <= files.len(),
            views == file_views(files@),
            best.is_some() == widest_webp(views.take(i as int)).is_some(),
            best matches Some(b) ==> b < i && widest_webp(views.take(i as int)) == Some(b as int),
        decreases files.len() - i,
    {
        proof {
            assert(views.take(i + 1).drop_last() =~= views.take(i as int));
            assert(views.take(i + 1)[i as int] == files@[i as int]@);
            if let Some(b) = best {
                assert(views.take(i + 1)[b as int] == files@[b as int]@);
            }
        }
        if ends_with(files[i].name.as_str(), ".webp") {
            match best {
                Some(b) => {
                    if files[b].width <= files[i].width {
                        best = Some(i);
                    }
                },
                None => {
                    best = Some(i);
                },
            }
        }
        i = i + 1;
    }
    proof {
        assert(views.take(files.len() as int) =~= views);
    }
    best
}

/// The address of the image shown for an emote that lists no WebP file.
pub const FALLBACK_URL: &'static str = "https://cdn.7tv.app/emote/63384017cf7eb48c4e731a79/4x.webp";

/// The width and height assumed for the fallback image, in pixels.
pub const FALLBACK_SIZE: u32 = 128;

/// The address of a file in a host's directory.
pub open spec fn file_url(host_url: Seq<char>, file_name: Seq<char>) -> Seq<char> {
    "https:"@ + host_url + "/"@ + file_name
}

/// The catalog entry for an emote of the provider. It points at the widest
/// WebP file that the provider lists and takes its size from there. An emote
/// without a WebP file is shown as the animated fallback image.
pub open spec fn provider_emote(raw: RawView) -> EmoteView {
    match widest_webp(raw.files) {
        Some(best) => EmoteView {
            id: raw.id,
            name: raw.name,
            animated: raw.animated,
            emote_url: file_url(raw.host_url, raw.files[best].name),
            source: EmoteSource::SevenTV,
            format: Some(ImageFormat::WebP),
            width: Some(raw.files[best].width),
            height: Some(raw.files[best].height),
        },
        None => EmoteView {
            id: raw.id,
            name: raw.name,
            animated: true,
            emote_url: FALLBACK_URL@,
            source: EmoteSource::SevenTV,
            format: Some(ImageFormat::WebP),
            width: Some(FALLBACK_SIZE),
            height: Some(FALLBACK_SIZE),
        },
    }
}

/// An emote of the provider with the address of its image as a GIF: the
/// widest WebP file's address with `.gif` in place of every `.webp` in the
/// file's name, or the fallback image.
pub open spec fn provider_gif(raw: RawView) -> GifView {
    GifView {
        id: raw.id,
        name: raw.name,
        emote_url: match widest_webp(raw.files) {
            Some(best) => file_url(
                raw.host_url,
                replaced(raw.files[best].name, ".webp"@, ".gif"@),
            ),
            None => FALLBACK_URL@,
        },
    }
}

/// Builds the address of a file in a host's directory.
fn build_file_url(host_url: &str, file_name: &str) -> (r: String)
    ensures
        r@ == file_url(host_url@, file_name@),
{
    let mut url = String::from_str("https:");
    url.append(host_url);
    url.append("/");
    url.append(file_name);
    url
}

impl From<RawSevenTVEmote> for Emote {
    /// The catalog entry for an emote of the provider.
    fn from(raw: RawSevenTVEmote) -> (r: Emote)
        ensures
            r@ == provider_emote(raw@),
    {
        match widest_webp_file(&raw.host.files) {
            Some(best) => {
                let file = &raw.host.files[best];
                proof {
                    assert(raw@.files[best as int] == file@);
                }
                let url = build_file_url(raw.host.url.as_str(), file.name.as_str());
                let width = file.width;
                let height = file.height;
                Emote {
                    id: raw.id,
                    name: raw.name,
                    animated: raw.animated,
                    emote_url: url,
                    source: EmoteSource::SevenTV,
                    format: Some(ImageFormat::WebP),
                    width: Some(width),
                    height: Some(height),
                }
            },
            None => Emote {
                id: raw.id,
                name: raw.name,
                animated: true,
                emote_url: String::from_str(FALLBACK_URL),
                source: EmoteSource::SevenTV,
                format: Some(ImageFormat::WebP),
                width: Some(FALLBACK_SIZE),
                height: Some(FALLBACK_SIZE),
            },
        }
    }
}

impl FromSpecImpl<RawSevenTVEmote> for Emote {
    /// Two strings of the same text are not known to be the same value, so
    /// the conversion is described on `from` itself, by views.
    open spec fn obeys_from_spec() -> bool {
        false
    }

    open spec fn from_spec(raw: RawSevenTVEmote) -> Emote {
        arbitrary()
    }
}

impl From<RawSevenTVEmote> for SevenTVEmote {
    /// The emote with the address of its image as a GIF.
    fn from(raw: RawSevenTVEmote) -> (r: SevenTVEmote)
        ensures
            r@ == provider_gif(raw@),
    {
        let url = match widest_webp_file(&raw.host.files) {
            Some(best) => {
                let file = &raw.host.files[best];
                proof {
                    assert(raw@.files[best as int] == file@);
                    reveal_strlit(".webp");
                }
                let name = replace(file.name.as_str(), ".webp", ".gif");
                build_file_url(raw.host.url.as_str(), name.as_str())
            },
            None => String::from_str(FALLBACK_URL),
        };
        SevenTVEmote { id: raw.id, name: raw.name, emote_url: url }
    }
}

impl FromSpecImpl<RawSevenTVEmote> for SevenTVEmote {
    /// Two strings of the same text are not known to be the same value, so
    /// the conversion is described on `from` itself, by views.
    open spec fn obeys_from_spec() -> bool {
        false
    }

    open spec fn from_spec(raw: RawSevenTVEmote) -> SevenTVEmote {
        arbitrary()
    }
}

/// The values of the emotes in a provider's answer, in order.
pub open spec fn response_views(response: SevenTVResponse) -> Seq<RawView> {
    Seq::new(response.emote_set.emotes@.len(), |i: int| response.emote_set.emotes@[i].data@)
}

/// The catalog entries for the emotes of a provider's answer, in order.
pub open spec fn provider_emotes(raws: Seq<RawView>) -> Seq<EmoteView> {
    Seq::new(raws.len(), |i: int| provider_emote(raws[i]))
}

/// Turns a provider's answer into catalog entries, in the answer's order.
pub fn emotes_from_response(response: SevenTVResponse) -> (r: Vec<Emote>)
    ensures
        crate::catalog::emote_views(r@) == provider_emotes(response_views(response)),
{
    let ghost raws = response_views(response);
    let mut emotes: Vec<Emote> = Vec::new();
    for bundle in it: response.emote_set.emotes
        invariant
            it.seq().len() == raws.len(),
            forall|i: int| 0 <= i < raws.len() ==> (#[trigger] it.seq()[i]).data@ == raws[i],
            emotes@.len() == it.index(),
            forall|i: int|
                0 <= i < it.index() ==> (#[trigger] emotes@[i])@ == provider_emote(raws[i]),
    {
        let emote = Emote::from(bundle.data);
        emotes.push(emote);
    }
    proof {
        assert(crate::catalog::emote_views(emotes@) =~= provider_emotes(raws));
    }
    emotes
}

} // verus!
