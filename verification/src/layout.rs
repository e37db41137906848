//! The layout of a message: its lines of text, its emote images with their
//! assets, and the box behind them.

use crate::cache::{asset_ref, requested, AssetCache};
use crate::catalog::Catalog;
use crate::config::{lemma_metric_bounds, Config, MAX_MAGNITUDE};
use crate::emote::{EmoteView, Handle, LoadedView};
use crate::text::{split_tokens, texts, tokens};
use crate::token::{classified, classify, token_views, Token, TokenView};
use crate::wrap::{
    closed_segments, draft_views, emotes_of, lemma_spots, lemma_wrapped_single, spot_emote,
    spot_emotes, spots_fit, wrap_tokens, wrapped, Draft, Spot,
};
use vstd::prelude::*;

verus! {

/// A colour, by its red, green, blue and opacity parts.
#[derive(Clone, Copy, Debug, PartialEq, Eq, Structural)]
pub struct Rgba {
    pub red: u8,
    pub green: u8,
    pub blue: u8,
    pub alpha: u8,
}

/// How the text of a segment is drawn.
#[derive(Clone, Copy, Debug, PartialEq, Eq, Structural)]
pub struct TextStyle {
    /// Font size in length units.
    pub font_size: u64,
    pub color: Rgba,
}

/// The colour of message text: opaque white.
pub open spec fn text_color() -> Rgba {
    Rgba { red: 255, green: 255, blue: 255, alpha: 255 }
}

/// The style of every segment of a message.
pub open spec fn text_style(cfg: Config) -> TextStyle {
    TextStyle { font_size: cfg.spec_font_size() as u64, color: text_color() }
}

/// The text of one wrapped line, with its style.
#[derive(Debug)]
pub struct Segment {
    pub text: String,
    pub style: TextStyle,
}

/// The mathematical value of a `Segment`.
pub struct SegmentView {
    pub text: Seq<char>,
    pub style: TextStyle,
}

impl View for Segment {
    type V = SegmentView;

    open spec fn view(&self) -> SegmentView {
        SegmentView { text: self.text@, style: self.style }
    }
}

/// An emote's image in a message: which asset, and where and how large it
/// is drawn.
#[derive(Debug)]
pub struct Placement {
    /// The emote's name.
    pub name: String,
    /// The asset. A strong handle says that the load was requested for this
    /// placement and is still to be carried out.
    pub handle: Handle,
    /// Whether the asset is an animation.
    pub animated: bool,
    /// Horizontal centre, in length units.
    pub x: i128,
    /// Vertical centre, in length units.
    pub y: i128,
    /// The factor by which the image is drawn, in ratio units.
    pub scale: u64,
}

/// The mathematical value of a `Placement`.
pub struct PlacementView {
    pub name: Seq<char>,
    pub handle: Handle,
    pub animated: bool,
    pub x: int,
    pub y: int,
    pub scale: int,
}

impl View for Placement {
    type V = PlacementView;

    open spec fn view(&self) -> PlacementView {
        PlacementView {
            name: self.name@,
            handle: self.handle,
            animated: self.animated,
            x: self.x as int,
            y: self.y as int,
            scale: self.scale as int,
        }
    }
}

/// The background box of a message. Its anchor is its top left corner.
#[derive(Clone, Copy, Debug)]
pub struct Backdrop {
    pub width: i128,
    pub height: i128,
    /// The left edge, in length units from the avatar's centre.
    pub x: i128,
    /// The top edge, in length units above the avatar.
    pub y: i128,
}

/// The mathematical value of a `Backdrop`.
pub struct BackdropView {
    pub width: int,
    pub height: int,
    pub x: int,
    pub y: int,
}

impl View for Backdrop {
    type V = BackdropView;

    open spec fn view(&self) -> BackdropView {
        BackdropView {
            width: self.width as int,
            height: self.height as int,
            x: self.x as int,
            y: self.y as int,
        }
    }
}

/// How a message is drawn: its lines of text, its emote images, and the box
/// behind them.
#[derive(Debug)]
pub struct MessageLayout {
    /// One segment for each line that holds text, in order.
    pub segments: Vec<Segment>,
    /// One placement for each emote, in the order of the tokens.
    pub placements: Vec<Placement>,
    /// The number of lines.
    pub line_count: u128,
    /// The number of tokens in the message.
    pub token_count: usize,
    /// The background box; none behind a lone emote.
    pub background: Option<Backdrop>,
}

/// The mathematical value of a `MessageLayout`.
pub struct LayoutView {
    pub segments: Seq<SegmentView>,
    pub placements: Seq<PlacementView>,
    pub line_count: int,
    pub token_count: int,
    pub background: Option<BackdropView>,
}

/// The values of a list of segments.
pub open spec fn segment_views(list: Seq<Segment>) -> Seq<SegmentView> {
    Seq::new(list.len(), |i: int| list[i]@)
}

/// The values of a list of placements.
pub open spec fn placement_views(list: Seq<Placement>) -> Seq<PlacementView> {
    Seq::new(list.len(), |i: int| list[i]@)
}

impl View for MessageLayout {
    type V = LayoutView;

    open spec fn view(&self) -> LayoutView {
        LayoutView {
            segments: segment_views(self.segments@),
            placements: placement_views(self.placements@),
            line_count: self.line_count as int,
            token_count: self.token_count as int,
            background: match self.background {
                Some(b) => Some(b@),
                None => None,
            },
        }
    }
}

/// The factor by which a lone emote is drawn, in ratio units.
pub const SINGLE_EMOTE_SCALE: u64 = 450_000;

/// The height of a lone emote's centre above the avatar, in length units.
pub const SINGLE_EMOTE_RISE: i128 = 50_000_000;

/// The room below the last line of a box, in length units.
pub const BOX_PADDING: u64 = 10_000_000;

/// The records of the cache after the images of the emotes were asked for,
/// one after the other.
pub open spec fn cache_after(loaded: Seq<LoadedView>, emotes: Seq<EmoteView>) -> Seq<LoadedView>
    decreases emotes.len(),
{
    if emotes.len() == 0 {
        loaded
    } else {
        requested(cache_after(loaded, emotes.drop_last()), emotes.last())
    }
}

/// The placement of spot `j`: the spot's place, with the asset that the cache
/// hands out once it was asked for the images of the spots before.
pub open spec fn placement_at(
    list: Seq<TokenView>,
    spots: Seq<Spot>,
    loaded: Seq<LoadedView>,
    j: int,
) -> PlacementView {
    let emote = spot_emote(list, spots[j]);
    let asset = asset_ref(cache_after(loaded, spot_emotes(list, spots).take(j)), emote);
    PlacementView {
        name: emote.name,
        handle: asset.handle,
        animated: asset.animated,
        x: spots[j].x,
        y: spots[j].y,
        scale: spots[j].scale,
    }
}

/// The placements of all the spots.
pub open spec fn placements_of(
    list: Seq<TokenView>,
    spots: Seq<Spot>,
    loaded: Seq<LoadedView>,
) -> Seq<PlacementView> {
    Seq::new(spots.len(), |j: int| placement_at(list, spots, loaded, j))
}

/// Asks the cache for the image of each drafted emote, in order, and joins
/// each draft with the asset it got.
pub fn resolve_placements(list: &Vec<Token>, drafts: &Vec<Draft>, cache: &mut AssetCache) -> (r:
    Vec<Placement>)
    requires
        old(cache).wf(),
        spots_fit(token_views(list@), draft_views(drafts@)),
    ensures
        final(cache).wf(),
        final(cache)@ == cache_after(
            old(cache)@,
            spot_emotes(token_views(list@), draft_views(drafts@)),
        ),
        placement_views(r@) == placements_of(
            token_views(list@),
            draft_views(drafts@),
            old(cache)@,
        ),
{
    let ghost views = token_views(list@);
    let ghost spots = draft_views(drafts@);
    let ghost emotes = spot_emotes(views, spots);
    let mut placements: Vec<Placement> = Vec::new();
    let mut j: usize = 0;
    while j < drafts.len()
        invariant
            j <= drafts.len(),
            cache.wf(),
            views == token_views(list@),
            spots == draft_views(drafts@),
            emotes == spot_emotes(views, spots),
            spots_fit(views, spots),
            cache@ == cache_after(old(cache)@, emotes.take(j as int)),
            placements@.len() == j,
            forall|k: int|
                0 <= k < j ==> (#[trigger] placements@[k])@ == placement_at(
                    views,
                    spots,
                    old(cache)@,
                    k,
                ),
        decreases drafts.len() - j,
    {
        let draft = drafts[j];
        proof {
            assert(spots[j as int] == draft@);
            assert(views[draft.token as int] == list@[draft.token as int]@);
            assert(emotes.take(j + 1).drop_last() =~= emotes.take(j as int));
            assert(emotes.take(j + 1).last() == spot_emote(views, spots[j as int]));
        }
        match &list[draft.token] {
            Token::Emote(emote) => {
                let asset = cache.get_or_request(emote);
                placements.push(
                    Placement {
                        name: emote.name.clone(),
                        handle: asset.handle,
                        animated: asset.animated,
                        x: draft.x,
                        y: draft.y,
                        scale: draft.scale,
                    },
                );
            },
            Token::Word(_) => {
                proof {
                    assert(false);
                }
            },
        }
        j = j + 1;
    }
    proof {
        assert(emotes.take(drafts.len() as int) =~= emotes);
        assert(placement_views(placements@) =~= placements_of(views, spots, old(cache)@));
    }
    placements
}

/// The line pitch: the glyph height and the gap between two lines.
pub open spec fn line_pitch(cfg: Config) -> int {
    cfg.spec_font_height() + cfg.spec_line_space()
}

/// The height of the box behind a message whose last line has the given
/// number: room for every line, the top margin and the padding.
pub open spec fn box_height(cfg: Config, line_number: int) -> int {
    (line_number + 1) * line_pitch(cfg) + cfg.spec_top_margin() + BOX_PADDING
}

/// The box behind a message whose last line has the given number. It is
/// centred on the avatar, and its lower edge stands at the configured offset,
/// so that text grows downwards from the top edge.
pub open spec fn backdrop_of(cfg: Config, line_number: int) -> BackdropView {
    BackdropView {
        width: cfg.spec_box_width(),
        height: box_height(cfg, line_number),
        x: -(cfg.spec_box_width() / 2),
        y: cfg.spec_vertical_offset() + box_height(cfg, line_number),
    }
}

/// The lines of a message as segments.
pub open spec fn styled(cfg: Config, lines: Seq<Seq<char>>) -> Seq<SegmentView> {
    Seq::new(lines.len(), |i: int| SegmentView { text: lines[i], style: text_style(cfg) })
}

/// The placement of an emote that is a message of its own: the same asset,
/// enlarged to the fixed scale and centred above the avatar.
pub open spec fn lone_placement(placement: PlacementView) -> PlacementView {
    PlacementView {
        name: placement.name,
        handle: placement.handle,
        animated: placement.animated,
        x: 0,
        y: SINGLE_EMOTE_RISE as int,
        scale: SINGLE_EMOTE_SCALE as int,
    }
}

/// Whether the message is a single emote and nothing else.
pub open spec fn is_lone_emote(list: Seq<TokenView>) -> bool {
    list.len() == 1 && list[0] is Emote
}

/// The layout of a message, given what the cache has recorded before. A
/// message that is a single emote is drawn as that emote alone: one enlarged
/// placement, no text, no box. Every other message is drawn as wrapped.
pub open spec fn layout_of(cfg: Config, list: Seq<TokenView>, loaded: Seq<LoadedView>) -> LayoutView {
    let w = wrapped(cfg, list);
    let placements = placements_of(list, w.spots, loaded);
    if is_lone_emote(list) {
        LayoutView {
            segments: Seq::empty(),
            placements: seq![lone_placement(placements[0])],
            line_count: 1,
            token_count: 1,
            background: None,
        }
    } else {
        LayoutView {
            segments: styled(cfg, closed_segments(w)),
            placements,
            line_count: w.line_number + 1,
            token_count: list.len() as int,
            background: Some(backdrop_of(cfg, w.line_number)),
        }
    }
}

/// The box behind a message whose last line has the given number.
pub fn backdrop(cfg: &Config, line_number: usize) -> (r: Backdrop)
    requires
        cfg.wf(),
    ensures
        r@ == backdrop_of(*cfg, line_number as int),
{
    let pitch = cfg.font_height() as i128 + cfg.line_space() as i128;
    let lines = line_number as i128 + 1;
    proof {
        lemma_metric_bounds(cfg.spec_font_size());
        assert(0 <= lines * pitch <= 0x1_0000_0000_0000_0000 * (2 * MAX_MAGNITUDE))
            by (nonlinear_arith)
            requires
                0 <= lines <= 0x1_0000_0000_0000_0000,
                0 <= pitch <= 2 * MAX_MAGNITUDE,
        ;
    }
    let height = lines * pitch + cfg.top_margin() as i128 + BOX_PADDING as i128;
    let width = cfg.message_box_width() as i128;
    Backdrop {
        width,
        height,
        x: -(width / 2),
        y: cfg.message_box_vertical_offset() as i128 + height,
    }
}

/// Lays out the tokens of a message and asks the cache for the image of
/// every emote among them.
pub fn layout_tokens(cfg: &Config, list: &Vec<Token>, cache: &mut AssetCache) -> (r: MessageLayout)
    requires
        cfg.wf(),
        old(cache).wf(),
    ensures
        final(cache).wf(),
        final(cache)@ == cache_after(old(cache)@, emotes_of(token_views(list@))),
        r@ == layout_of(*cfg, token_views(list@), old(cache)@),
{
    let ghost views = token_views(list@);
    let ghost w = wrapped(*cfg, views);
    let wrapping = wrap_tokens(cfg, list);
    proof {
        lemma_spots(*cfg, views);
    }
    let ghost lines = texts(wrapping.segments@);
    let mut placements = resolve_placements(list, &wrapping.drafts, cache);
    let ghost resolved = placement_views(placements@);
    proof {
        assert(resolved.len() == w.spots.len());
    }
    if list.len() == 1 && placements.len() == 1 {
        proof {
            lemma_wrapped_single(*cfg, views);
        }
        let first = placements.remove(0);
        let lone = Placement {
            name: first.name,
            handle: first.handle,
            animated: first.animated,
            x: 0,
            y: SINGLE_EMOTE_RISE,
            scale: SINGLE_EMOTE_SCALE,
        };
        let mut only: Vec<Placement> = Vec::new();
        only.push(lone);
        let layout = MessageLayout {
            segments: Vec::new(),
            placements: only,
            line_count: 1,
            token_count: 1,
            background: None,
        };
        proof {
            assert(resolved[0] == first@);
            assert(layout@.segments =~= Seq::<SegmentView>::empty());
            assert(layout@.placements =~= seq![lone_placement(resolved[0])]);
            assert(layout@ == layout_of(*cfg, views, old(cache)@));
        }
        layout
    } else {
        proof {
            if is_lone_emote(views) {
                lemma_wrapped_single(*cfg, views);
            }
        }
        let style = TextStyle {
            font_size: cfg.font_size(),
            color: Rgba { red: 255, green: 255, blue: 255, alpha: 255 },
        };
        let mut segments: Vec<Segment> = Vec::new();
        for text in it: wrapping.segments
            invariant
                texts(it.seq()) == lines,
                style == text_style(*cfg),
                segment_views(segments@) == styled(*cfg, lines.take(it.index() as int)),
        {
            let ghost before = segments@;
            let ghost at = it.index() as int;
            proof {
                assert(lines[at] == text@);
            }
            segments.push(Segment { text, style });
            proof {
                assert(segment_views(segments@) =~= segment_views(before).push(segments@.last()@));
                assert(styled(*cfg, lines.take(at + 1)) =~= styled(*cfg, lines.take(at)).push(
                    segments@.last()@,
                ));
            }
        }
        proof {
            assert(lines.take(lines.len() as int) =~= lines);
        }
        let layout = MessageLayout {
            segments,
            placements,
            line_count: wrapping.line_number as u128 + 1,
            token_count: list.len(),
            background: Some(backdrop(cfg, wrapping.line_number)),
        };
        proof {
            let goal = layout_of(*cfg, views, old(cache)@);
            assert(layout@.segments == goal.segments);
            assert(layout@.placements == goal.placements);
            assert(layout@.line_count == goal.line_count);
            assert(layout@.token_count == goal.token_count);
            assert(layout@.background == goal.background);
        }
        layout
    }
}

/// Lays out a chat message: splits it into tokens, tells emotes from words
/// by the catalog, wraps the tokens into the box, and asks the cache for the
/// image of every emote.
pub fn layout_message(
    message: &str,
    catalog: &Catalog,
    cache: &mut AssetCache,
    cfg: &Config,
) -> (r: MessageLayout)
    requires
        cfg.wf(),
        catalog.wf(),
        old(cache).wf(),
    ensures
        final(cache).wf(),
        final(cache)@ == cache_after(
            old(cache)@,
            emotes_of(classified(catalog@, tokens(message@))),
        ),
        r@ == layout_of(*cfg, classified(catalog@, tokens(message@)), old(cache)@),
{
    let words = split_tokens(message);
    let list = classify(catalog, words);
    layout_tokens(cfg, &list, cache)
}

} // verus!
