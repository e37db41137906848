//! What holds of every layout: theorems about the wrap and the cache,
//! stated over the functions that the contracts of the crate use.

use crate::cache::{asset_ref, loaded_names, orderly, requested, lemma_requested_orderly};
use crate::config::{lemma_metric_bounds, Config};
use crate::emote::{fallback_meta, EmoteView, LoadedView};
use crate::layout::{
    cache_after, is_lone_emote, layout_of, placements_of, SINGLE_EMOTE_RISE, SINGLE_EMOTE_SCALE,
};
use crate::token::{classified, TokenView};
use crate::wrap::{
    closed_segments, emote_columns, emote_scale, emotes_of, lemma_spots, lemma_wrapped_single,
    lemma_wrapped_step, overflows, spot_emotes, token_text, token_width, wrapped,
};
use crate::names::{lemma_position_push, position};
use crate::text::{byte_len, flat, spaces};
use vstd::prelude::*;

verus! {

/// The sum of the widths of the tokens.
pub open spec fn total_width(cfg: Config, list: Seq<TokenView>) -> int
    decreases list.len(),
{
    if list.len() == 0 {
        0
    } else {
        total_width(cfg, list.drop_last()) + token_width(cfg, list.last())
    }
}

/// The texts of the tokens, one after the other: every word followed by one
/// space, every emote as its placeholder spaces.
pub open spec fn joined(cfg: Config, list: Seq<TokenView>) -> Seq<char>
    decreases list.len(),
{
    if list.len() == 0 {
        Seq::empty()
    } else {
        joined(cfg, list.drop_last()) + token_text(cfg, list.last())
    }
}

/// Every token of the list is a word.
pub open spec fn all_words(list: Seq<TokenView>) -> bool {
    forall|i: int| 0 <= i < list.len() ==> #[trigger] list[i] is Word
}

/// The width of a token is not negative, and it is zero exactly when the
/// token adds no text to its line. A word always has a width.
pub proof fn lemma_token_width(cfg: Config, token: TokenView)
    requires
        cfg.wf(),
    ensures
        0 <= token_width(cfg, token),
        token_width(cfg, token) == 0 <==> token_text(cfg, token).len() == 0,
        token is Word ==> token_width(cfg, token) > 0,
{
    lemma_metric_bounds(cfg.spec_font_size());
    let fw = cfg.spec_font_width();
    match token {
        TokenView::Word(text) => {
            let columns = byte_len(text) as int + 1;
            assert(columns * fw > 0) by (nonlinear_arith)
                requires
                    columns > 0,
                    fw > 0,
            ;
        },
        TokenView::Emote(emote) => {
            let scale = emote_scale(cfg, emote);
            let fh = cfg.spec_font_height();
            let mult = cfg.spec_emote_size_multiplier();
            let height = emote.layout_height();
            if height != 0 {
                assert(0 <= fh * mult / (height * 1_000_000)) by (nonlinear_arith)
                    requires
                        0 <= fh,
                        0 <= mult,
                        1 <= height,
                ;
            }
            let area = emote.layout_width() * scale;
            assert(0 <= area) by (nonlinear_arith)
                requires
                    area == emote.layout_width() * scale,
                    0 <= emote.layout_width(),
                    0 <= scale,
            ;
            let columns = (area + fw - 1) / fw;
            assert(0 <= columns && (columns == 0 <==> columns * fw == 0) && 0 <= columns * fw)
                by (nonlinear_arith)
                requires
                    columns == (area + fw - 1) / fw,
                    0 <= area,
                    0 < fw,
            ;
        },
    }
}

/// An emote whose image has no height, as after a probe that failed, is
/// drawn with scale zero and takes no room on its line.
pub proof fn lemma_unsized_emote(cfg: Config, emote: EmoteView)
    requires
        cfg.wf(),
        emote.layout_height() == 0,
    ensures
        emote_scale(cfg, emote) == 0,
        emote_columns(cfg, emote) == 0,
        token_width(cfg, TokenView::Emote(emote)) == 0,
        token_text(cfg, TokenView::Emote(emote)) == Seq::<char>::empty(),
{
    lemma_metric_bounds(cfg.spec_font_size());
    let fw = cfg.spec_font_width();
    assert(emote.layout_width() * 0 == 0);
    assert((0 + fw - 1) / fw == 0) by (nonlinear_arith)
        requires
            0 < fw,
    ;
    assert(0 * fw == 0);
    assert(spaces(0) =~= Seq::<char>::empty());
}

/// An emote that takes the fallback result of a failed probe has no height.
pub proof fn lemma_fallback_is_unsized(emote: EmoteView)
    requires
        !emote.is_probed(),
    ensures
        emote.with_probe(fallback_meta()).layout_height() == 0,
        emote.with_probe(fallback_meta()).layout_width() == 0,
        !emote.with_probe(fallback_meta()).animated,
{
}

/// At every point of the wrap the width of the current line is not
/// negative and is zero exactly when the line has no text, lines are counted
/// from zero, every closed line holds text, and no more lines are closed than
/// were begun.
pub proof fn lemma_wrap_shape(cfg: Config, list: Seq<TokenView>)
    requires
        cfg.wf(),
    ensures
        0 <= wrapped(cfg, list).line_length,
        0 <= wrapped(cfg, list).line_number <= list.len(),
        wrapped(cfg, list).segments.len() <= wrapped(cfg, list).line_number,
        wrapped(cfg, list).line_length == 0 <==> wrapped(cfg, list).line.len() == 0,
        forall|k: int|
            0 <= k < wrapped(cfg, list).segments.len() ==> (#[trigger] wrapped(
                cfg,
                list,
            ).segments[k]).len() > 0,
    decreases list.len(),
{
    if list.len() > 0 {
        let before = wrapped(cfg, list.drop_last());
        lemma_wrap_shape(cfg, list.drop_last());
        lemma_token_width(cfg, list.last());
    }
}

/// Every segment of a layout holds text, and there are at most as many
/// segments as lines.
pub proof fn lemma_segments_hold_text(cfg: Config, list: Seq<TokenView>)
    requires
        cfg.wf(),
    ensures
        closed_segments(wrapped(cfg, list)).len() <= wrapped(cfg, list).line_number + 1,
        forall|k: int|
            0 <= k < closed_segments(wrapped(cfg, list)).len() ==> (#[trigger] closed_segments(
                wrapped(cfg, list),
            )[k]).len() > 0,
{
    lemma_wrap_shape(cfg, list);
}

/// Appending a segment appends its text.
proof fn lemma_flat_push(segments: Seq<Seq<char>>, line: Seq<char>)
    ensures
        flat(segments.push(line)) == flat(segments) + line,
{
    assert(segments.push(line).drop_last() =~= segments);
}

/// No text is lost, cut or reordered by the wrap: the segments of a layout,
/// read one after the other, are the texts of the tokens in order.
pub proof fn lemma_text_is_kept(cfg: Config, list: Seq<TokenView>)
    ensures
        flat(wrapped(cfg, list).segments) + wrapped(cfg, list).line == joined(cfg, list),
        flat(closed_segments(wrapped(cfg, list))) == joined(cfg, list),
    decreases list.len(),
{
    let after = wrapped(cfg, list);
    if list.len() > 0 {
        let before = wrapped(cfg, list.drop_last());
        let token = list.last();
        lemma_text_is_kept(cfg, list.drop_last());
        lemma_flat_push(before.segments, before.line);
        if overflows(cfg, before, token) {
            assert(flat(closed_segments(before)) + Seq::<char>::empty() =~= flat(
                closed_segments(before),
            ));
            assert(Seq::<char>::empty() + token_text(cfg, token) =~= token_text(cfg, token));
            assert(after.line =~= token_text(cfg, token));
        } else {
            assert(flat(before.segments) + (before.line + token_text(cfg, token)) =~= (flat(
                before.segments,
            ) + before.line) + token_text(cfg, token));
        }
    } else {
        assert(flat(after.segments) + after.line =~= joined(cfg, list));
    }
    lemma_flat_push(after.segments, after.line);
    if after.line.len() == 0 {
        assert(flat(after.segments) + after.line =~= flat(after.segments));
    }
}

/// A message whose tokens fit the box side by side is laid out on a single
/// line, number zero, and that line reads as the tokens' texts in order.
pub proof fn lemma_fitting_message(cfg: Config, list: Seq<TokenView>)
    requires
        cfg.wf(),
        total_width(cfg, list) <= cfg.spec_box_width(),
    ensures
        0 <= total_width(cfg, list),
        wrapped(cfg, list).line_number == 0,
        wrapped(cfg, list).segments == Seq::<Seq<char>>::empty(),
        wrapped(cfg, list).line == joined(cfg, list),
        wrapped(cfg, list).line_length == total_width(cfg, list),
    decreases list.len(),
{
    if list.len() > 0 {
        lemma_token_width(cfg, list.last());
        lemma_total_width(cfg, list.drop_last());
        lemma_fitting_message(cfg, list.drop_last());
    }
}

/// The widths of tokens add up to nothing negative.
pub proof fn lemma_total_width(cfg: Config, list: Seq<TokenView>)
    requires
        cfg.wf(),
    ensures
        0 <= total_width(cfg, list),
    decreases list.len(),
{
    if list.len() > 0 {
        lemma_token_width(cfg, list.last());
        lemma_total_width(cfg, list.drop_last());
    }
}

/// A message of words only that fits the box side by side becomes exactly
/// one segment on line zero: its words, each followed by one space.
pub proof fn lemma_words_on_one_line(cfg: Config, list: Seq<TokenView>)
    requires
        cfg.wf(),
        list.len() > 0,
        all_words(list),
        total_width(cfg, list) <= cfg.spec_box_width(),
    ensures
        wrapped(cfg, list).line_number == 0,
        wrapped(cfg, list).spots.len() == 0,
        closed_segments(wrapped(cfg, list)) == seq![joined(cfg, list)],
{
    lemma_fitting_message(cfg, list);
    lemma_token_width(cfg, list.last());
    assert(list.last() is Word);
    assert(joined(cfg, list).len() > 0);
    assert(closed_segments(wrapped(cfg, list)) =~= seq![joined(cfg, list)]);
    lemma_spots(cfg, list);
    lemma_no_emotes(list);
}

/// Among words there is no emote.
proof fn lemma_no_emotes(list: Seq<TokenView>)
    requires
        all_words(list),
    ensures
        emotes_of(list).len() == 0,
    decreases list.len(),
{
    if list.len() > 0 {
        assert(list.last() is Word);
        assert forall|i: int| 0 <= i < list.drop_last().len() implies #[trigger] list.drop_last()[i]
            is Word by {
            assert(list.drop_last()[i] == list[i]);
        }
        lemma_no_emotes(list.drop_last());
    }
}

/// The words of a message, each followed by one space.
pub open spec fn single_spaced(words: Seq<Seq<char>>) -> Seq<char>
    decreases words.len(),
{
    if words.len() == 0 {
        Seq::empty()
    } else {
        single_spaced(words.drop_last()) + words.last().push(' ')
    }
}

/// The sum of the widths of words.
pub open spec fn words_width(cfg: Config, words: Seq<Seq<char>>) -> int
    decreases words.len(),
{
    if words.len() == 0 {
        0
    } else {
        words_width(cfg, words.drop_last()) + (byte_len(words.last()) + 1) * cfg.spec_font_width()
    }
}

/// Words that the catalog does not know are laid out as themselves.
proof fn lemma_plain_words(
    cfg: Config,
    entries: Map<Seq<char>, EmoteView>,
    words: Seq<Seq<char>>,
)
    requires
        forall|i: int| 0 <= i < words.len() ==> !entries.contains_key(#[trigger] words[i]),
    ensures
        all_words(classified(entries, words)),
        joined(cfg, classified(entries, words)) == single_spaced(words),
        total_width(cfg, classified(entries, words)) == words_width(cfg, words),
    decreases words.len(),
{
    let list = classified(entries, words);
    if words.len() > 0 {
        let front = words.drop_last();
        assert forall|i: int| 0 <= i < front.len() implies !entries.contains_key(
            #[trigger] front[i],
        ) by {
            assert(front[i] == words[i]);
        }
        lemma_plain_words(cfg, entries, front);
        assert(list.drop_last() =~= classified(entries, front));
        assert(list.last() == TokenView::Word(words.last()));
    } else {
        assert(joined(cfg, list) =~= single_spaced(words));
    }
}

/// A message without any emote name whose words fit the box side by side is
/// laid out on line zero as a single segment: the words in order, each
/// followed by one space.
pub proof fn lemma_plain_message(
    cfg: Config,
    entries: Map<Seq<char>, EmoteView>,
    words: Seq<Seq<char>>,
)
    requires
        cfg.wf(),
        words.len() > 0,
        forall|i: int| 0 <= i < words.len() ==> !entries.contains_key(#[trigger] words[i]),
        words_width(cfg, words) <= cfg.spec_box_width(),
    ensures
        wrapped(cfg, classified(entries, words)).line_number == 0,
        wrapped(cfg, classified(entries, words)).spots.len() == 0,
        closed_segments(wrapped(cfg, classified(entries, words))) == seq![single_spaced(words)],
{
    lemma_plain_words(cfg, entries, words);
    lemma_words_on_one_line(cfg, classified(entries, words));
}

/// The line of a token that is wider than the box is kept: from the token
/// on, either the current line is that token's text alone, or a segment is.
proof fn lemma_wide_token_kept(cfg: Config, list: Seq<TokenView>, i: int, n: int)
    requires
        cfg.wf(),
        0 <= i < n <= list.len(),
        token_width(cfg, list[i]) > cfg.spec_box_width(),
    ensures
        ({
            let w = wrapped(cfg, list.take(n));
            let text = token_text(cfg, list[i]);
            ||| (w.line == text && w.line_length > cfg.spec_box_width())
            ||| exists|k: int| 0 <= k < w.segments.len() && #[trigger] w.segments[k] == text
        }),
    decreases n - i,
{
    let text = token_text(cfg, list[i]);
    lemma_token_width(cfg, list[i]);
    lemma_wrapped_step(cfg, list, n - 1);
    let before = wrapped(cfg, list.take(n - 1));
    let after = wrapped(cfg, list.take(n));
    lemma_wrap_shape(cfg, list.take(n - 1));
    if n == i + 1 {
        assert(overflows(cfg, before, list[i]));
        assert(after.line =~= text);
    } else {
        lemma_wide_token_kept(cfg, list, i, n - 1);
        lemma_token_width(cfg, list[n - 1]);
        if before.line == text && before.line_length > cfg.spec_box_width() {
            assert(overflows(cfg, before, list[n - 1]));
            let k = before.segments.len() as int;
            assert(after.segments[k] == text);
        } else {
            let k = choose|k: int| 0 <= k < before.segments.len() && #[trigger] before.segments[k]
                == text;
            assert(after.segments[k] == text);
        }
    }
}

/// A token that is wider than the box is not split or cut: it opens a new
/// line, so that the line number advances, it is the only text on that line,
/// and the line becomes a segment that reads exactly as the token's text.
pub proof fn lemma_wide_token_alone(cfg: Config, list: Seq<TokenView>, i: int)
    requires
        cfg.wf(),
        0 <= i < list.len(),
        token_width(cfg, list[i]) > cfg.spec_box_width(),
    ensures
        wrapped(cfg, list.take(i + 1)).line_number == wrapped(cfg, list.take(i)).line_number + 1,
        wrapped(cfg, list.take(i + 1)).line == token_text(cfg, list[i]),
        i + 1 < list.len() ==> wrapped(cfg, list.take(i + 2)).line_number == wrapped(
            cfg,
            list.take(i + 1),
        ).line_number + 1,
        exists|k: int|
            0 <= k < closed_segments(wrapped(cfg, list)).len() && #[trigger] closed_segments(
                wrapped(cfg, list),
            )[k] == token_text(cfg, list[i]),
{
    let text = token_text(cfg, list[i]);
    lemma_token_width(cfg, list[i]);
    lemma_wrapped_step(cfg, list, i);
    lemma_wrap_shape(cfg, list.take(i));
    let before = wrapped(cfg, list.take(i));
    assert(overflows(cfg, before, list[i]));
    assert(wrapped(cfg, list.take(i + 1)).line =~= text);
    if i + 1 < list.len() {
        lemma_wrapped_step(cfg, list, i + 1);
        lemma_token_width(cfg, list[i + 1]);
        assert(overflows(cfg, wrapped(cfg, list.take(i + 1)), list[i + 1]));
    }
    lemma_wide_token_kept(cfg, list, i, list.len() as int);
    assert(list.take(list.len() as int) =~= list);
    let w = wrapped(cfg, list);
    let closed = closed_segments(w);
    if w.line == text && w.line_length > cfg.spec_box_width() {
        assert(closed[w.segments.len() as int] == text);
    } else {
        let k = choose|k: int| 0 <= k < w.segments.len() && #[trigger] w.segments[k] == text;
        assert(closed[k] == text);
    }
}

/// The spots of the beginning of a message are the first spots of the whole
/// message: a later token changes no spot.
pub proof fn lemma_spots_grow(cfg: Config, list: Seq<TokenView>, n: int)
    requires
        0 <= n <= list.len(),
    ensures
        wrapped(cfg, list.take(n)).spots.len() <= wrapped(cfg, list).spots.len(),
        forall|j: int|
            0 <= j < wrapped(cfg, list.take(n)).spots.len() ==> wrapped(cfg, list).spots[j]
                == #[trigger] wrapped(cfg, list.take(n)).spots[j],
    decreases list.len() - n,
{
    if n < list.len() {
        lemma_wrapped_step(cfg, list, n);
        lemma_spots_grow(cfg, list, n + 1);
        let here = wrapped(cfg, list.take(n)).spots;
        let next = wrapped(cfg, list.take(n + 1)).spots;
        assert forall|j: int| 0 <= j < here.len() implies wrapped(cfg, list).spots[j]
            == #[trigger] here[j] by {
            assert(next[j] == here[j]);
        }
    } else {
        assert(list.take(n) =~= list);
    }
}

/// Every emote token gets a spot of its own, drawn at the emote's scale, and
/// adds nothing to the text of its line but placeholder spaces, one for each
/// column that its image covers.
pub proof fn lemma_emote_is_placed(cfg: Config, list: Seq<TokenView>, i: int)
    requires
        0 <= i < list.len(),
        list[i] is Emote,
    ensures
        token_text(cfg, list[i]) == spaces(emote_columns(cfg, list[i]->Emote_0) as nat),
        exists|j: int|
            0 <= j < wrapped(cfg, list).spots.len() && (#[trigger] wrapped(cfg, list).spots[j]).token
                == i && wrapped(cfg, list).spots[j].scale == emote_scale(cfg, list[i]->Emote_0),
{
    lemma_wrapped_step(cfg, list, i);
    lemma_spots_grow(cfg, list, i + 1);
    let upto = wrapped(cfg, list.take(i + 1)).spots;
    let j = upto.len() - 1;
    assert(upto[j].token == i);
    assert(wrapped(cfg, list).spots[j] == upto[j]);
}

/// A word gets no spot: every spot belongs to an emote token.
pub proof fn lemma_word_is_not_placed(cfg: Config, list: Seq<TokenView>, i: int)
    requires
        0 <= i < list.len(),
        list[i] is Word,
    ensures
        forall|j: int|
            0 <= j < wrapped(cfg, list).spots.len() ==> (#[trigger] wrapped(cfg, list).spots[j]).token
                != i,
{
    lemma_spots(cfg, list);
}

/// A word of a message that is exactly the name of a catalog entry is laid
/// out as that entry's emote: it gets a spot and adds placeholder spaces
/// only. Every other word is laid out as text.
pub proof fn lemma_known_name_is_placed(
    cfg: Config,
    entries: Map<Seq<char>, EmoteView>,
    words: Seq<Seq<char>>,
    i: int,
)
    requires
        0 <= i < words.len(),
    ensures
        entries.contains_key(words[i]) ==> classified(entries, words)[i] == TokenView::Emote(
            entries[words[i]],
        ) && exists|j: int|
            0 <= j < wrapped(cfg, classified(entries, words)).spots.len() && (#[trigger] wrapped(
                cfg,
                classified(entries, words),
            ).spots[j]).token == i,
        !entries.contains_key(words[i]) ==> classified(entries, words)[i] == TokenView::Word(
            words[i],
        ) && token_text(cfg, classified(entries, words)[i]) == words[i].push(' '),
{
    if entries.contains_key(words[i]) {
        lemma_emote_is_placed(cfg, classified(entries, words), i);
    }
}

/// A layout has one placement for each emote token of the message, in the
/// order of the tokens, each under its emote's name.
pub proof fn lemma_placements_follow_emotes(
    cfg: Config,
    list: Seq<TokenView>,
    loaded: Seq<LoadedView>,
)
    ensures
        layout_of(cfg, list, loaded).placements.len() == emotes_of(list).len(),
        forall|j: int|
            0 <= j < emotes_of(list).len() ==> (#[trigger] layout_of(
                cfg,
                list,
                loaded,
            ).placements[j]).name == emotes_of(list)[j].name,
{
    lemma_spots(cfg, list);
    let spots = wrapped(cfg, list).spots;
    let placements = placements_of(list, spots, loaded);
    let layout = layout_of(cfg, list, loaded);
    if is_lone_emote(list) {
        lemma_wrapped_single(cfg, list);
        assert(layout.placements.len() == 1);
    } else {
        assert(layout.placements == placements);
    }
    assert(placements.len() == emotes_of(list).len());
    assert forall|j: int| 0 <= j < emotes_of(list).len() implies (#[trigger] layout.placements[j]).name
        == emotes_of(list)[j].name by {
        assert(spot_emotes(list, spots)[j] == emotes_of(list)[j]);
        assert(placements[j].name == spot_emotes(list, spots)[j].name);
    }
}

/// A message that is a single emote is drawn as that emote alone: exactly
/// one placement, enlarged to the fixed scale and centred, no segment and no
/// background box.
pub proof fn lemma_lone_emote(cfg: Config, list: Seq<TokenView>, loaded: Seq<LoadedView>)
    requires
        is_lone_emote(list),
    ensures
        layout_of(cfg, list, loaded).placements.len() == 1,
        layout_of(cfg, list, loaded).placements[0].name == list[0]->Emote_0.name,
        layout_of(cfg, list, loaded).placements[0].scale == SINGLE_EMOTE_SCALE,
        layout_of(cfg, list, loaded).placements[0].x == 0,
        layout_of(cfg, list, loaded).placements[0].y == SINGLE_EMOTE_RISE,
        layout_of(cfg, list, loaded).segments.len() == 0,
        layout_of(cfg, list, loaded).background is None,
        layout_of(cfg, list, loaded).token_count == 1,
{
    lemma_wrapped_single(cfg, list);
    lemma_placements_follow_emotes(cfg, list, loaded);
    assert(list.drop_last() =~= Seq::<TokenView>::empty());
    assert(emotes_of(list.drop_last()) =~= Seq::<EmoteView>::empty());
    assert(emotes_of(list)[0] == list[0]->Emote_0);
}

/// Every other message gets a background box, and as many lines as the wrap
/// counted.
pub proof fn lemma_wrapped_message(cfg: Config, list: Seq<TokenView>, loaded: Seq<LoadedView>)
    requires
        cfg.wf(),
        !is_lone_emote(list),
    ensures
        layout_of(cfg, list, loaded).background is Some,
        layout_of(cfg, list, loaded).token_count == list.len(),
        layout_of(cfg, list, loaded).line_count == wrapped(cfg, list).line_number + 1,
        layout_of(cfg, list, loaded).segments.len() <= layout_of(cfg, list, loaded).line_count,
        forall|k: int|
            0 <= k < layout_of(cfg, list, loaded).segments.len() ==> (#[trigger] layout_of(
                cfg,
                list,
                loaded,
            ).segments[k]).text.len() > 0,
{
    lemma_segments_hold_text(cfg, list);
    let lines = closed_segments(wrapped(cfg, list));
    assert forall|k: int| 0 <= k < layout_of(cfg, list, loaded).segments.len() implies (
    #[trigger] layout_of(cfg, list, loaded).segments[k]).text.len() > 0 by {
        assert(layout_of(cfg, list, loaded).segments[k].text == lines[k]);
    }
}

/// Asking the cache for images only adds records: what was recorded stays
/// as it was, orderly records stay orderly, and every emote that was asked
/// for has a record afterwards.
pub proof fn lemma_cache_grows(loaded: Seq<LoadedView>, emotes: Seq<EmoteView>)
    ensures
        loaded.len() <= cache_after(loaded, emotes).len() <= loaded.len() + emotes.len(),
        forall|i: int| 0 <= i < loaded.len() ==> cache_after(loaded, emotes)[i] == loaded[i],
        orderly(loaded) ==> orderly(cache_after(loaded, emotes)),
        forall|j: int|
            0 <= j < emotes.len() ==> position(
                loaded_names(cache_after(loaded, emotes)),
                (#[trigger] emotes[j]).name,
            ) is Some,
        forall|name: Seq<char>|
            position(loaded_names(loaded), name) is Some ==> position(
                loaded_names(cache_after(loaded, emotes)),
                name,
            ) == position(loaded_names(loaded), name),
    decreases emotes.len(),
{
    if emotes.len() > 0 {
        let front = emotes.drop_last();
        let last = emotes.last();
        let before = cache_after(loaded, front);
        let after = cache_after(loaded, emotes);
        lemma_cache_grows(loaded, front);
        if orderly(loaded) {
            lemma_requested_orderly(before, last);
        }
        let names = loaded_names(before);
        if position(names, last.name) is None {
            assert(loaded_names(after) =~= names.push(last.name));
        }
        assert forall|name: Seq<char>| position(names, name) is Some implies position(
            loaded_names(after),
            name,
        ) == position(names, name) by {
            lemma_position_push(names, last.name, name);
        }
        assert forall|j: int| 0 <= j < emotes.len() implies position(
            loaded_names(after),
            (#[trigger] emotes[j]).name,
        ) is Some by {
            if j < front.len() {
                assert(front[j] == emotes[j]);
            } else {
                lemma_position_push(names, last.name, last.name);
            }
        }
    }
}

/// Once a message with an emote was laid out, every later request for that
/// emote's image is answered with a weak handle to the asset that was
/// recorded then: no second load is requested.
pub proof fn lemma_cache_reuses(
    loaded: Seq<LoadedView>,
    emotes: Seq<EmoteView>,
    j: int,
    again: EmoteView,
)
    requires
        0 <= j < emotes.len(),
        again.name == emotes[j].name,
    ensures
        requested(cache_after(loaded, emotes), again) == cache_after(loaded, emotes),
        !asset_ref(cache_after(loaded, emotes), again).handle.strong,
{
    lemma_cache_grows(loaded, emotes);
}

} // verus!
