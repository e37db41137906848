//! The emote model: what is known of one emote, and of its loaded image.

use vstd::prelude::*;
use vstd::string::*;

verus! {

/// Where an emote comes from.
#[derive(Clone, Copy, Debug, PartialEq, Eq, Structural)]
pub enum EmoteSource {
    /// The channel-wide emote provider.
    SevenTV,
    /// An emote that the chat protocol itself tags in a message.
    Twitch,
}

/// The container format of an emote's image.
#[derive(Clone, Copy, Debug, PartialEq, Eq, Structural)]
pub enum ImageFormat {
    Png,
    Jpeg,
    Gif,
    WebP,
    Bmp,
    /// A recognised format that is none of the above.
    Other,
}

/// The format assumed for an image whose header could not be read.
pub open spec fn fallback_format() -> ImageFormat {
    ImageFormat::Png
}

/// Whether images of this format are drawn as animations: GIF and WebP are,
/// every other format is drawn as a still image.
pub open spec fn format_is_animated(format: ImageFormat) -> bool {
    format == ImageFormat::Gif || format == ImageFormat::WebP
}

/// Whether the format is one of the three that emotes are expected in. An
/// image of another format is still drawn, as a still image, and deserves a
/// warning.
pub open spec fn format_is_expected(format: ImageFormat) -> bool {
    format == ImageFormat::Png || format_is_animated(format)
}

impl ImageFormat {
    /// Whether images of this format are drawn as animations.
    pub fn is_animated(&self) -> (r: bool)
        ensures
            r == format_is_animated(*self),
    {
        match self {
            ImageFormat::Gif => true,
            ImageFormat::WebP => true,
            _ => false,
        }
    }

    /// Whether the format is PNG, GIF or WebP.
    pub fn is_expected(&self) -> (r: bool)
        ensures
            r == format_is_expected(*self),
    {
        match self {
            ImageFormat::Png => true,
            ImageFormat::Gif => true,
            ImageFormat::WebP => true,
            _ => false,
        }
    }
}

/// What a look at an image's header found.
#[derive(Clone, Copy, Debug, PartialEq, Eq, Structural)]
pub struct EmoteMeta {
    pub width: u32,
    pub height: u32,
    pub format: ImageFormat,
}

/// The result that stands for an image whose header could not be read: no
/// size, and the fallback format.
pub open spec fn fallback_meta() -> EmoteMeta {
    EmoteMeta { width: 0, height: 0, format: fallback_format() }
}

impl EmoteMeta {
    /// The result that stands for an image whose header could not be read.
    pub fn fallback() -> (r: EmoteMeta)
        ensures
            r == fallback_meta(),
            !format_is_animated(r.format),
    {
        EmoteMeta { width: 0, height: 0, format: ImageFormat::Png }
    }
}

/// A reference to an image asset. The asset cache owns the one strong
/// reference to each asset; everything else holds weak ones.
#[derive(Clone, Copy, Debug, PartialEq, Eq, Structural)]
pub struct Handle {
    /// Which asset: its number in the order of load requests.
    pub slot: usize,
    /// Whether this reference keeps the asset alive.
    pub strong: bool,
}

impl Handle {
    /// A weak reference to the same asset.
    pub fn clone_weak(&self) -> (r: Handle)
        ensures
            r == (Handle { slot: self.slot, strong: false }),
    {
        Handle { slot: self.slot, strong: false }
    }
}

/// One emote: its identity, where its image is, and what is known of the image.
#[derive(Debug)]
pub struct Emote {
    /// The provider's identifier.
    pub id: String,
    /// The token that stands for the emote in chat text, case-sensitive.
    pub name: String,
    /// Whether the image is an animation. A hint until the image is probed.
    pub animated: bool,
    pub emote_url: String,
    pub source: EmoteSource,
    /// `None` until the image is probed.
    pub format: Option<ImageFormat>,
    /// Natural width in pixels. `None` until the image is probed.
    pub width: Option<u32>,
    /// Natural height in pixels. `None` until the image is probed.
    pub height: Option<u32>,
}

/// The mathematical value of an `Emote`.
pub struct EmoteView {
    pub id: Seq<char>,
    pub name: Seq<char>,
    pub animated: bool,
    pub emote_url: Seq<char>,
    pub source: EmoteSource,
    pub format: Option<ImageFormat>,
    pub width: Option<u32>,
    pub height: Option<u32>,
}

impl View for Emote {
    type V = EmoteView;

    open spec fn view(&self) -> EmoteView {
        EmoteView {
            id: self.id@,
            name: self.name@,
            animated: self.animated,
            emote_url: self.emote_url@,
            source: self.source,
            format: self.format,
            width: self.width,
            height: self.height,
        }
    }
}

impl EmoteView {
    /// Format, width and height are all known.
    pub open spec fn is_probed(self) -> bool {
        self.format is Some && self.width is Some && self.height is Some
    }

    /// The emote once a probe's result is written to it. An emote that is
    /// already probed stays as it is; otherwise size and format are filled in
    /// and the animation flag follows the format.
    pub open spec fn with_probe(self, meta: EmoteMeta) -> EmoteView {
        if self.is_probed() {
            self
        } else {
            EmoteView {
                animated: format_is_animated(meta.format),
                format: Some(meta.format),
                width: Some(meta.width),
                height: Some(meta.height),
                ..self
            }
        }
    }

    /// The width that the layout works with: zero while unknown.
    pub open spec fn layout_width(self) -> int {
        match self.width {
            Some(w) => w as int,
            None => 0,
        }
    }

    /// The height that the layout works with: zero while unknown.
    pub open spec fn layout_height(self) -> int {
        match self.height {
            Some(h) => h as int,
            None => 0,
        }
    }
}

impl Clone for Emote {
    fn clone(&self) -> (r: Self)
        ensures
            r@ == self@,
    {
        Emote {
            id: self.id.clone(),
            name: self.name.clone(),
            animated: self.animated,
            emote_url: self.emote_url.clone(),
            source: self.source,
            format: self.format,
            width: self.width,
            height: self.height,
        }
    }
}

/// The address of a chat-native emote's image, for the emote's identifier.
pub open spec fn twitch_url(id: Seq<char>) -> Seq<char> {
    "https://static-cdn.jtvnw.net/emoticons/v2/"@ + id + "/default/light/4.0"@
}

/// The hint that a chat-native emote tag gives: a still image whose size and
/// format are not yet known.
pub open spec fn twitch_hint(id: Seq<char>, code: Seq<char>) -> EmoteView {
    EmoteView {
        id,
        name: code,
        animated: false,
        emote_url: twitch_url(id),
        source: EmoteSource::Twitch,
        format: None,
        width: None,
        height: None,
    }
}

/// An emote's image, once its load was requested.
#[derive(Debug)]
pub struct LoadedEmote {
    pub name: String,
    pub animated: bool,
    pub animated_image: Option<Handle>,
    pub static_image: Option<Handle>,
}

/// The mathematical value of a `LoadedEmote`.
pub struct LoadedView {
    pub name: Seq<char>,
    pub animated: bool,
    pub animated_image: Option<Handle>,
    pub static_image: Option<Handle>,
}

impl View for LoadedEmote {
    type V = LoadedView;

    open spec fn view(&self) -> LoadedView {
        LoadedView {
            name: self.name@,
            animated: self.animated,
            animated_image: self.animated_image,
            static_image: self.static_image,
        }
    }
}

impl LoadedView {
    /// Exactly one of the two handles is there, and it is the animated one
    /// exactly when the emote is animated.
    pub open spec fn consistent(self) -> bool {
        if self.animated {
            self.animated_image is Some && self.static_image is None
        } else {
            self.animated_image is None && self.static_image is Some
        }
    }

    /// The handle that is there, if one is; the animated one comes first.
    pub open spec fn handle(self) -> Option<Handle> {
        if self.animated_image is Some {
            self.animated_image
        } else {
            self.static_image
        }
    }
}

impl LoadedEmote {
    /// The handle that is there, if one is; the animated one comes first.
    pub fn handle(&self) -> (r: Option<Handle>)
        ensures
            r == self@.handle(),
    {
        if self.animated_image.is_some() {
            self.animated_image
        } else {
            self.static_image
        }
    }
}

impl Emote {
    /// The hint that a chat-native emote tag gives, from the tag's identifier
    /// and code.
    pub fn from_twitch(id: &str, code: &str) -> (r: Emote)
        ensures
            r@ == twitch_hint(id@, code@),
    {
        let mut url = String::from_str("https://static-cdn.jtvnw.net/emoticons/v2/");
        url.append(id);
        url.append("/default/light/4.0");
        Emote {
            id: String::from_str(id),
            name: String::from_str(code),
            animated: false,
            emote_url: url,
            source: EmoteSource::Twitch,
            format: None,
            width: None,
            height: None,
        }
    }

    /// Format, width and height are all known.
    pub fn is_probed(&self) -> (r: bool)
        ensures
            r == self@.is_probed(),
    {
        self.format.is_some() && self.width.is_some() && self.height.is_some()
    }

    /// Writes a probe's result to the emote, unless it is probed already.
    /// Returns whether the emote changed.
    pub fn apply_probe(&mut self, meta: EmoteMeta) -> (changed: bool)
        ensures
            final(self)@ == old(self)@.with_probe(meta),
            changed == !old(self)@.is_probed(),
    {
        if self.is_probed() {
            false
        } else {
            self.width = Some(meta.width);
            self.height = Some(meta.height);
            self.format = Some(meta.format);
            self.animated = meta.format.is_animated();
            true
        }
    }

    /// The record of this emote's image as an animation behind `handle`.
    pub fn add_animated(&self, handle: Handle) -> (r: LoadedEmote)
        ensures
            r@ == (LoadedView {
                name: self@.name,
                animated: self@.animated,
                animated_image: Some(handle),
                static_image: None,
            }),
            r@.consistent() <==> self@.animated,
    {
        LoadedEmote {
            name: self.name.clone(),
            animated: self.animated,
            animated_image: Some(handle),
            static_image: None,
        }
    }

    /// The record of this emote's image as a still image behind `handle`.
    pub fn add_static(&self, handle: Handle) -> (r: LoadedEmote)
        ensures
            r@ == (LoadedView {
                name: self@.name,
                animated: self@.animated,
                animated_image: None,
                static_image: Some(handle),
            }),
            r@.consistent() <==> !self@.animated,
    {
        LoadedEmote {
            name: self.name.clone(),
            animated: self.animated,
            animated_image: None,
            static_image: Some(handle),
        }
    }
}

} // verus!
