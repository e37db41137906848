//! Greedy line wrapping of words and emotes in a box of fixed width, and
//! the place of every emote image on its line.

use crate::config::{lemma_metric_bounds, Config, MAX_MAGNITUDE, UNITS};
use crate::emote::{Emote, EmoteView};
use crate::text::{byte_len, push_char, spaces, texts};
use crate::token::{token_views, Token, TokenView};
use vstd::prelude::*;
use vstd::string::*;

verus! {

/// The factor by which an emote's image is drawn, in ratio units: the glyph
/// height times the configured multiplier, over the image's height, rounded
/// down. An image without height is drawn with factor zero.
pub open spec fn emote_scale(cfg: Config, emote: EmoteView) -> int {
    if emote.layout_height() == 0 {
        0
    } else {
        cfg.spec_font_height() * cfg.spec_emote_size_multiplier() / (emote.layout_height()
            * UNITS)
    }
}

/// The number of character columns that the scaled image of an emote covers:
/// its scaled width over the column width, rounded up.
pub open spec fn emote_columns(cfg: Config, emote: EmoteView) -> int {
    (emote.layout_width() * emote_scale(cfg, emote) + cfg.spec_font_width() - 1)
        / cfg.spec_font_width()
}

/// The number of character columns that a token takes on its line: a word
/// takes one for each of its bytes and one for the space behind it.
pub open spec fn token_columns(cfg: Config, token: TokenView) -> int {
    match token {
        TokenView::Word(text) => byte_len(text) as int + 1,
        TokenView::Emote(emote) => emote_columns(cfg, emote),
    }
}

/// The width of a token on its line, in length units.
pub open spec fn token_width(cfg: Config, token: TokenView) -> int {
    token_columns(cfg, token) * cfg.spec_font_width()
}

/// The text that a token adds to its line: a word adds itself and a space,
/// an emote adds one space for each column that its image covers.
pub open spec fn token_text(cfg: Config, token: TokenView) -> Seq<char> {
    match token {
        TokenView::Word(text) => text.push(' '),
        TokenView::Emote(emote) => spaces(emote_columns(cfg, emote) as nat),
    }
}

/// Where an emote's image goes, before its asset is known.
pub struct Spot {
    /// The index of the emote's token in the message.
    pub token: int,
    pub x: int,
    pub y: int,
    pub scale: int,
}

/// The horizontal centre of an image whose columns end at `line_length`:
/// half the width of the columns, rounded down, before that end.
pub open spec fn spot_x(cfg: Config, line_length: int, columns: int) -> int {
    line_length - cfg.spec_font_width() * columns / 2
}

/// The vertical centre of the images on a line: half a glyph height, rounded
/// down, below the line's upper edge. Lines grow downwards from the top
/// margin, one line pitch each.
pub open spec fn spot_y(cfg: Config, line_number: int) -> int {
    -(line_number * (cfg.spec_font_height() + cfg.spec_line_space())) - cfg.spec_top_margin()
        - cfg.spec_font_height() / 2
}

/// The state of the wrap after some tokens.
pub struct Wrap {
    /// The texts of the lines that are complete and not empty.
    pub segments: Seq<Seq<char>>,
    /// The places of the emotes met so far.
    pub spots: Seq<Spot>,
    /// The text of the current line.
    pub line: Seq<char>,
    /// The width of the current line.
    pub line_length: int,
    /// The number of the current line, from zero.
    pub line_number: int,
}

/// The state before the first token.
pub open spec fn wrap_start() -> Wrap {
    Wrap {
        segments: Seq::empty(),
        spots: Seq::empty(),
        line: Seq::empty(),
        line_length: 0,
        line_number: 0,
    }
}

/// The segments once the current line is closed: a line without text leaves
/// no segment.
pub open spec fn closed_segments(w: Wrap) -> Seq<Seq<char>> {
    if w.line.len() > 0 {
        w.segments.push(w.line)
    } else {
        w.segments
    }
}

/// The state after a line break.
pub open spec fn wrap_break(w: Wrap) -> Wrap {
    Wrap {
        segments: closed_segments(w),
        spots: w.spots,
        line: Seq::empty(),
        line_length: 0,
        line_number: w.line_number + 1,
    }
}

/// Whether the token at hand no longer fits on the current line. The width
/// of a word counts the space behind it.
pub open spec fn overflows(cfg: Config, w: Wrap, token: TokenView) -> bool {
    w.line_length + token_width(cfg, token) > cfg.spec_box_width()
}

/// The state after one more token, which stands at `index` in the message.
/// A token that no longer fits opens a new line first; a token is never
/// split, even where it is wider than the box.
pub open spec fn wrap_step(cfg: Config, w: Wrap, index: int, token: TokenView) -> Wrap {
    let at = if overflows(cfg, w, token) {
        wrap_break(w)
    } else {
        w
    };
    let line_length = at.line_length + token_width(cfg, token);
    Wrap {
        segments: at.segments,
        spots: match token {
            TokenView::Word(_) => at.spots,
            TokenView::Emote(emote) => at.spots.push(
                Spot {
                    token: index,
                    x: spot_x(cfg, line_length, emote_columns(cfg, emote)),
                    y: spot_y(cfg, at.line_number),
                    scale: emote_scale(cfg, emote),
                },
            ),
        },
        line: at.line + token_text(cfg, token),
        line_length,
        line_number: at.line_number,
    }
}

/// The state after all the tokens of a message, taken in order.
pub open spec fn wrapped(cfg: Config, list: Seq<TokenView>) -> Wrap
    decreases list.len(),
{
    if list.len() == 0 {
        wrap_start()
    } else {
        wrap_step(cfg, wrapped(cfg, list.drop_last()), list.len() - 1, list.last())
    }
}

/// Largest width that a single token can have.
pub open spec fn width_limit() -> int {
    0x1_0000_0000_0000_0000 * MAX_MAGNITUDE
}

/// Scale, columns and width of a token are never negative and stay within
/// what the wide integers of the layout hold.
pub proof fn lemma_token_bounds(cfg: Config, token: TokenView)
    requires
        cfg.wf(),
        token matches TokenView::Word(text) ==> byte_len(text) <= usize::MAX,
    ensures
        0 <= token_columns(cfg, token) <= width_limit(),
        0 <= token_width(cfg, token) <= width_limit(),
        token_text(cfg, token).len() == 0 <==> token_width(cfg, token) == 0,
        token matches TokenView::Emote(emote) ==> 0 <= emote_scale(cfg, emote)
            <= MAX_MAGNITUDE * UNITS && (emote.layout_height() == 0 ==> emote_columns(cfg, emote)
            == 0),
{
    lemma_metric_bounds(cfg.spec_font_size());
    let fw = cfg.spec_font_width();
    let fh = cfg.spec_font_height();
    match token {
        TokenView::Word(text) => {
            let columns = byte_len(text) + 1;
            assert(0 < columns * fw <= 0x1_0000_0000_0000_0000 * MAX_MAGNITUDE)
                by (nonlinear_arith)
                requires
                    0 < columns <= 0x1_0000_0000_0000_0000,
                    0 < fw <= MAX_MAGNITUDE,
            ;
        },
        TokenView::Emote(emote) => {
            let scale = emote_scale(cfg, emote);
            let height = emote.layout_height();
            let width = emote.layout_width();
            let mult = cfg.spec_emote_size_multiplier();
            if height != 0 {
                assert(0 <= fh * mult / (height * UNITS) <= MAX_MAGNITUDE * UNITS)
                    by (nonlinear_arith)
                    requires
                        0 <= fh <= MAX_MAGNITUDE,
                        0 <= mult <= MAX_MAGNITUDE,
                        1 <= height,
                        UNITS == 1_000_000,
                        MAX_MAGNITUDE == 1_000_000_000_000,
                ;
            }
            let area = width * scale;
            if height == 0 {
                assert(width * 0 == 0);
            }
            assert(0 <= area <= 0xffff_ffff * (MAX_MAGNITUDE * UNITS)) by (nonlinear_arith)
                requires
                    area == width * scale,
                    0 <= width <= 0xffff_ffff,
                    0 <= scale <= MAX_MAGNITUDE * UNITS,
            ;
            let columns = (area + fw - 1) / fw;
            assert(0 <= columns && columns * fw <= area + fw - 1 && columns <= area + fw - 1
                && (area == 0 ==> columns == 0) && (columns == 0 <==> columns * fw == 0))
                by (nonlinear_arith)
                requires
                    columns == (area + fw - 1) / fw,
                    0 <= area,
                    0 < fw,
            ;
        },
    }
}

/// Where an emote's image goes, before its asset is known.
#[derive(Clone, Copy, Debug)]
pub struct Draft {
    /// The index of the emote's token in the message.
    pub token: usize,
    /// Horizontal centre, in length units from the left edge of the box.
    pub x: i128,
    /// Vertical centre, in length units from the top edge of the box; lines
    /// grow downwards, so it is negative.
    pub y: i128,
    /// The factor by which the image is drawn, in ratio units.
    pub scale: u64,
}

impl View for Draft {
    type V = Spot;

    open spec fn view(&self) -> Spot {
        Spot { token: self.token as int, x: self.x as int, y: self.y as int, scale: self.scale as int }
    }
}

/// The values of a list of drafts.
pub open spec fn draft_views(list: Seq<Draft>) -> Seq<Spot> {
    Seq::new(list.len(), |i: int| list[i]@)
}

/// The factor by which an emote's image is drawn, in ratio units.
pub fn scale_of(cfg: &Config, emote: &Emote) -> (r: u64)
    requires
        cfg.wf(),
    ensures
        r == emote_scale(*cfg, emote@),
{
    let height: u32 = match emote.height {
        Some(h) => h,
        None => 0,
    };
    if height == 0 {
        0
    } else {
        let fh = cfg.font_height() as u128;
        let mult = cfg.emote_size_multiplier() as u128;
        proof {
            lemma_token_bounds(*cfg, TokenView::Emote(emote@));
            lemma_metric_bounds(cfg.spec_font_size());
            assert(0 <= fh * mult <= MAX_MAGNITUDE * MAX_MAGNITUDE) by (nonlinear_arith)
                requires
                    0 <= fh <= MAX_MAGNITUDE,
                    0 <= mult <= MAX_MAGNITUDE,
            ;
            assert(0 < height * UNITS <= 0xffff_ffff * 1_000_000) by (nonlinear_arith)
                requires
                    0 < height <= 0xffff_ffff,
                    UNITS == 1_000_000,
            ;
        }
        ((fh * mult) / (height as u128 * (UNITS as u128))) as u64
    }
}

/// The number of character columns that the scaled image of an emote covers.
pub fn columns_of(cfg: &Config, emote: &Emote) -> (r: u128)
    requires
        cfg.wf(),
    ensures
        r == emote_columns(*cfg, emote@),
{
    let width: u32 = match emote.width {
        Some(w) => w,
        None => 0,
    };
    let scale = scale_of(cfg, emote);
    let fw = cfg.font_width() as u128;
    proof {
        lemma_token_bounds(*cfg, TokenView::Emote(emote@));
        lemma_metric_bounds(cfg.spec_font_size());
        assert(0 <= width * scale <= 0xffff_ffff * (MAX_MAGNITUDE * UNITS)) by (nonlinear_arith)
            requires
                0 <= width <= 0xffff_ffff,
                0 <= scale <= MAX_MAGNITUDE * UNITS,
        ;
    }
    (width as u128 * (scale as u128) + fw - 1) / fw
}

/// The place of an emote whose columns end at `line_length` on line
/// `line_number`.
fn emote_transform(
    cfg: &Config,
    line_length: u128,
    line_number: usize,
    columns: u128,
    scale: u64,
    token: usize,
) -> (r: Draft)
    requires
        cfg.wf(),
        columns * cfg.spec_font_width() <= line_length <= 2 * width_limit(),
    ensures
        r@ == (Spot {
            token: token as int,
            x: spot_x(*cfg, line_length as int, columns as int),
            y: spot_y(*cfg, line_number as int),
            scale: scale as int,
        }),
{
    let fw = cfg.font_width() as u128;
    let fh = cfg.font_height() as i128;
    let pitch = fh + cfg.line_space() as i128;
    proof {
        lemma_metric_bounds(cfg.spec_font_size());
        assert(fw * columns == columns * cfg.spec_font_width()) by (nonlinear_arith)
            requires
                fw == cfg.spec_font_width(),
        ;
        assert(0 <= line_number * pitch <= 0xffff_ffff_ffff_ffff * (2 * MAX_MAGNITUDE))
            by (nonlinear_arith)
            requires
                0 <= line_number <= 0xffff_ffff_ffff_ffff,
                0 <= pitch <= 2 * MAX_MAGNITUDE,
        ;
    }
    let half = fw * columns / 2;
    let x = (line_length - half) as i128;
    let y = -(line_number as i128 * pitch) - cfg.top_margin() as i128 - fh / 2;
    Draft { token, x, y, scale }
}

/// The outcome of wrapping a message.
#[derive(Debug)]
pub struct Wrapping {
    /// The texts of the lines that hold text, in order.
    pub segments: Vec<String>,
    /// The places of the emotes, in the order of their tokens.
    pub drafts: Vec<Draft>,
    /// The number of the last line, from zero.
    pub line_number: usize,
}

/// The state of the wrap that the given pieces stand for.
pub open spec fn wrap_state(
    segments: Seq<String>,
    drafts: Seq<Draft>,
    line: Seq<char>,
    line_length: int,
    line_number: int,
) -> Wrap {
    Wrap {
        segments: texts(segments),
        spots: draft_views(drafts),
        line,
        line_length,
        line_number,
    }
}

/// One more token extends the wrap by one step.
pub proof fn lemma_wrapped_step(cfg: Config, list: Seq<TokenView>, i: int)
    requires
        0 <= i < list.len(),
    ensures
        wrapped(cfg, list.take(i + 1)) == wrap_step(cfg, wrapped(cfg, list.take(i)), i, list[i]),
{
    assert(list.take(i + 1).drop_last() =~= list.take(i));
}

/// Appends `count` spaces to a line.
fn push_spaces(line: &mut String, count: u128)
    ensures
        final(line)@ == old(line)@ + spaces(count as nat),
{
    let mut done: u128 = 0;
    proof {
        assert(line@ + spaces(0) =~= line@);
    }
    while done < count
        invariant
            done <= count,
            line@ == old(line)@ + spaces(done as nat),
        decreases count - done,
    {
        push_char(line, ' ');
        done = done + 1;
        proof {
            assert(line@ =~= old(line)@ + spaces(done as nat));
        }
    }
}

/// Wraps the tokens of a message greedily into lines of the box's width.
pub fn wrap_tokens(cfg: &Config, list: &Vec<Token>) -> (r: Wrapping)
    requires
        cfg.wf(),
    ensures
        texts(r.segments@) == closed_segments(wrapped(*cfg, token_views(list@))),
        draft_views(r.drafts@) == wrapped(*cfg, token_views(list@)).spots,
        r.line_number == wrapped(*cfg, token_views(list@)).line_number,
{
    let ghost views = token_views(list@);
    let fw = cfg.font_width() as u128;
    let box_width = cfg.message_box_width() as u128;
    let mut segments: Vec<String> = Vec::new();
    let mut drafts: Vec<Draft> = Vec::new();
    let mut line = String::new();
    let mut line_length: u128 = 0;
    let mut line_number: usize = 0;
    let mut i: usize = 0;
    proof {
        assert(texts(segments@) =~= Seq::<Seq<char>>::empty());
        assert(draft_views(drafts@) =~= Seq::<Spot>::empty());
    }
    while i < list.len()
        invariant
            cfg.wf(),
            i <= list.len(),
            views == token_views(list@),
            fw == cfg.spec_font_width(),
            box_width == cfg.spec_box_width(),
            0 <= line_length <= width_limit(),
            line_number <= i,
            wrap_state(segments@, drafts@, line@, line_length as int, line_number as int)
                == wrapped(*cfg, views.take(i as int)),
        decreases list.len() - i,
    {
        let ghost before = wrapped(*cfg, views.take(i as int));
        let ghost token = views[i as int];
        let ghost old_segments = segments@;
        let ghost old_drafts = drafts@;
        let ghost old_line = line@;
        let columns: u128 = match &list[i] {
            Token::Word(text) => text.as_str().as_bytes().len() as u128 + 1,
            Token::Emote(emote) => columns_of(cfg, emote),
        };
        proof {
            assert(token == list@[i as int]@);
            lemma_wrapped_step(*cfg, views, i as int);
            lemma_token_bounds(*cfg, token);
            assert(columns * fw == token_width(*cfg, token)) by (nonlinear_arith)
                requires
                    columns == token_columns(*cfg, token),
                    fw == cfg.spec_font_width(),
                    token_width(*cfg, token) == token_columns(*cfg, token) * cfg.spec_font_width(),
            ;
        }
        let width = columns * fw;
        if line_length + width > box_width {
            if !line.as_str().is_empty() {
                segments.push(line);
                proof {
                    assert(texts(segments@) =~= texts(old_segments).push(old_line));
                }
            }
            line = String::new();
            line_length = 0;
            line_number = line_number + 1;
        }
        let ghost at = if overflows(*cfg, before, token) {
            wrap_break(before)
        } else {
            before
        };
        assert(wrap_state(segments@, drafts@, line@, line_length as int, line_number as int) == at);
        let ghost at_line = line@;
        line_length = line_length + width;
        match &list[i] {
            Token::Word(text) => {
                line.append(text.as_str());
                push_char(&mut line, ' ');
                proof {
                    assert(line@ =~= at_line + token_text(*cfg, token));
                }
            },
            Token::Emote(emote) => {
                push_spaces(&mut line, columns);
                let draft = emote_transform(
                    cfg,
                    line_length,
                    line_number,
                    columns,
                    scale_of(cfg, emote),
                    i,
                );
                drafts.push(draft);
                proof {
                    assert(draft_views(drafts@) =~= draft_views(old_drafts).push(draft@));
                }
            },
        }
        i = i + 1;
    }
    proof {
        assert(views.take(list.len() as int) =~= views);
    }
    if !line.as_str().is_empty() {
        let ghost old_segments = segments@;
        let ghost old_line = line@;
        segments.push(line);
        proof {
            assert(texts(segments@) =~= texts(old_segments).push(old_line));
        }
    }
    Wrapping { segments, drafts, line_number }
}

/// The emote that a spot belongs to.
pub open spec fn spot_emote(list: Seq<TokenView>, spot: Spot) -> EmoteView {
    list[spot.token]->Emote_0
}

/// The emotes of the spots, in order.
pub open spec fn spot_emotes(list: Seq<TokenView>, spots: Seq<Spot>) -> Seq<EmoteView> {
    Seq::new(spots.len(), |j: int| spot_emote(list, spots[j]))
}

/// Every spot belongs to an emote token of the list.
pub open spec fn spots_fit(list: Seq<TokenView>, spots: Seq<Spot>) -> bool {
    forall|j: int|
        0 <= j < spots.len() ==> 0 <= (#[trigger] spots[j]).token < list.len()
            && list[spots[j].token] is Emote
}

/// The emotes among the tokens, in order.
pub open spec fn emotes_of(list: Seq<TokenView>) -> Seq<EmoteView>
    decreases list.len(),
{
    if list.len() == 0 {
        Seq::empty()
    } else {
        match list.last() {
            TokenView::Emote(emote) => emotes_of(list.drop_last()).push(emote),
            TokenView::Word(_) => emotes_of(list.drop_last()),
        }
    }
}

/// The wrap makes one spot for each emote token and none for a word: the
/// spots belong, in order, to the emote tokens of the message.
pub proof fn lemma_spots(cfg: Config, list: Seq<TokenView>)
    ensures
        spots_fit(list, wrapped(cfg, list).spots),
        spot_emotes(list, wrapped(cfg, list).spots) == emotes_of(list),
        wrapped(cfg, list).spots.len() == emotes_of(list).len(),
    decreases list.len(),
{
    if list.len() > 0 {
        let front = list.drop_last();
        let before = wrapped(cfg, front);
        let after = wrapped(cfg, list);
        lemma_spots(cfg, front);
        assert forall|j: int| 0 <= j < before.spots.len() implies after.spots[j]
            == before.spots[j] && spot_emote(list, before.spots[j]) == spot_emote(
            front,
            before.spots[j],
        ) by {
            assert(0 <= before.spots[j].token < front.len());
            assert(front[before.spots[j].token] == list[before.spots[j].token]);
        }
        assert forall|j: int| 0 <= j < after.spots.len() implies 0 <= (
        #[trigger] after.spots[j]).token < list.len() && list[after.spots[j].token] is Emote by {
            if j < before.spots.len() {
                assert(after.spots[j] == before.spots[j]);
                assert(front[before.spots[j].token] == list[before.spots[j].token]);
            }
        }
        match list.last() {
            TokenView::Emote(emote) => {
                assert(after.spots.len() == before.spots.len() + 1);
                assert(spot_emotes(list, after.spots) =~= spot_emotes(front, before.spots).push(
                    emote,
                ));
            },
            TokenView::Word(_) => {
                assert(after.spots == before.spots);
                assert(spot_emotes(list, after.spots) =~= spot_emotes(front, before.spots));
            },
        }
    } else {
        assert(spot_emotes(list, wrapped(cfg, list).spots) =~= emotes_of(list));
    }
}

/// A message of one token is wrapped in one step from the start.
pub proof fn lemma_wrapped_single(cfg: Config, list: Seq<TokenView>)
    requires
        list.len() == 1,
    ensures
        wrapped(cfg, list) == wrap_step(cfg, wrap_start(), 0, list[0]),
        wrapped(cfg, list).spots.len() == 1 <==> list[0] is Emote,
{
    assert(list.drop_last().len() == 0);
    assert(wrapped(cfg, list.drop_last()) == wrap_start());
}

} // verus!
