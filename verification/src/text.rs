//! Text as sequences of characters: splitting a message into tokens, and the
//! few string operations the rest of the crate builds on.

use vstd::prelude::*;
use vstd::std_specs::iter::IteratorSpec;
use vstd::string::*;
use vstd::utf8::encode_utf8;

verus! {

/// Whether `char::is_whitespace` holds of the character: whether Unicode
/// gives it the property `White_Space`.
pub uninterp spec fn is_whitespace(c: char) -> bool;

/// Calls `char::is_whitespace`. Trusted: the answer is the one that
/// `is_whitespace` names.
#[verifier::external_body]
fn char_is_whitespace(c: char) -> (r: bool)
    ensures
        r == is_whitespace(c),
{
    c.is_whitespace()
}

/// Calls `String::push`. Trusted: the character is appended and nothing else
/// changes.
#[verifier::external_body]
pub(crate) fn push_char(text: &mut String, c: char)
    ensures
        final(text)@ == old(text)@.push(c),
{
    text.push(c);
}

/// `suffix` stands at the end of `text`.
pub open spec fn has_suffix(text: Seq<char>, suffix: Seq<char>) -> bool {
    suffix.len() <= text.len() && text.skip(text.len() - suffix.len()) == suffix
}

/// Calls `str::ends_with` with a string as the pattern. Trusted: the answer
/// says whether the pattern's characters are the last of the text.
#[verifier::external_body]
pub(crate) fn ends_with(text: &str, suffix: &str) -> (r: bool)
    ensures
        r == has_suffix(text@, suffix@),
{
    text.ends_with(suffix)
}

/// `text` with every occurrence of the non-empty `from` replaced by `to`,
/// occurrences being found from the left and never overlapping.
pub open spec fn replaced(text: Seq<char>, from: Seq<char>, to: Seq<char>) -> Seq<char>
    decreases text.len(),
{
    if from.len() == 0 || text.len() < from.len() {
        text
    } else if text.take(from.len() as int) == from {
        to + replaced(text.skip(from.len() as int), from, to)
    } else {
        seq![text[0]] + replaced(text.skip(1), from, to)
    }
}

/// Calls `str::replace` with a string as the pattern. Trusted: every match
/// of the pattern, found from the left without overlap, is replaced.
#[verifier::external_body]
pub(crate) fn replace(text: &str, from: &str, to: &str) -> (r: String)
    requires
        from@.len() > 0,
    ensures
        r@ == replaced(text@, from@, to@),
{
    text.replace(from, to)
}

/// The number of bytes that a text takes in UTF-8.
pub open spec fn byte_len(text: Seq<char>) -> nat {
    encode_utf8(text).len()
}

/// `n` space characters.
pub open spec fn spaces(n: nat) -> Seq<char> {
    Seq::new(n, |i: int| ' ')
}

/// The texts of a list of strings.
pub open spec fn texts(strings: Seq<String>) -> Seq<Seq<char>> {
    Seq::new(strings.len(), |i: int| strings[i]@)
}

/// No character of the text is whitespace.
pub open spec fn solid(text: Seq<char>) -> bool {
    forall|i: int| 0 <= i < text.len() ==> !is_whitespace(text[i])
}

/// The length of the whitespace-free run that the text starts with.
pub open spec fn word_len(text: Seq<char>) -> nat
    decreases text.len(),
{
    if text.len() == 0 || is_whitespace(text[0]) {
        0
    } else {
        1 + word_len(text.drop_first())
    }
}

/// The tokens of a message: its maximal whitespace-free runs, in order.
pub open spec fn tokens(text: Seq<char>) -> Seq<Seq<char>>
    decreases text.len(),
{
    if text.len() == 0 {
        Seq::empty()
    } else if is_whitespace(text[0]) {
        tokens(text.drop_first())
    } else {
        proof {
            lemma_word_len(text);
        }
        seq![text.take(word_len(text) as int)] + tokens(text.skip(word_len(text) as int))
    }
}

/// The run that a text starts with is a prefix of it, and is whitespace-free.
pub proof fn lemma_word_len(text: Seq<char>)
    ensures
        word_len(text) <= text.len(),
        solid(text.take(word_len(text) as int)),
        text.len() > 0 && !is_whitespace(text[0]) ==> word_len(text) > 0,
        word_len(text) < text.len() ==> is_whitespace(text[word_len(text) as int]),
    decreases text.len(),
{
    if text.len() == 0 || is_whitespace(text[0]) {
    } else {
        let rest = text.drop_first();
        lemma_word_len(rest);
        let n = word_len(rest) as int;
        let run = text.take(n + 1);
        assert forall|i: int| 0 <= i < run.len() implies !is_whitespace(#[trigger] run[i]) by {
            if i > 0 {
                assert(run[i] == rest.take(n)[i - 1]);
            }
        }
        if n + 1 < text.len() {
            assert(text[n + 1] == rest[n]);
        }
    }
}

/// A whitespace-free run followed by whitespace, or by nothing, is the run
/// that the whole text starts with.
pub proof fn lemma_word_len_run(run: Seq<char>, rest: Seq<char>)
    requires
        solid(run),
        rest.len() == 0 || is_whitespace(rest[0]),
    ensures
        word_len(run + rest) == run.len(),
    decreases run.len(),
{
    let text = run + rest;
    if run.len() == 0 {
        assert(text =~= rest);
    } else {
        assert(text[0] == run[0]);
        assert(text.drop_first() =~= run.drop_first() + rest);
        let tail = run.drop_first();
        assert forall|i: int| 0 <= i < tail.len() implies !is_whitespace(#[trigger] tail[i]) by {
            assert(tail[i] == run[i + 1]);
        }
        lemma_word_len_run(run.drop_first(), rest);
    }
}

/// Every token is non-empty and whitespace-free.
pub proof fn lemma_tokens_solid(text: Seq<char>)
    ensures
        forall|k: int|
            0 <= k < tokens(text).len() ==> (#[trigger] tokens(text)[k]).len() > 0 && solid(
                tokens(text)[k],
            ),
    decreases text.len(),
{
    if text.len() == 0 {
        assert(tokens(text).len() == 0);
    } else if is_whitespace(text[0]) {
        lemma_tokens_solid(text.drop_first());
        assert(tokens(text) == tokens(text.drop_first()));
    } else {
        lemma_word_len(text);
        let later = tokens(text.skip(word_len(text) as int));
        lemma_tokens_solid(text.skip(word_len(text) as int));
        assert forall|k: int| 0 <= k < tokens(text).len() implies (#[trigger] tokens(text)[k]).len()
            > 0 && solid(tokens(text)[k]) by {
            let first = text.take(word_len(text) as int);
            assert(tokens(text) == seq![first] + later);
            if k > 0 {
                assert(tokens(text)[k] == later[k - 1]);
            } else {
                assert(tokens(text)[k] == first);
            }
        }
    }
}

/// The texts of a list, one after the other.
pub open spec fn flat(parts: Seq<Seq<char>>) -> Seq<char>
    decreases parts.len(),
{
    if parts.len() == 0 {
        Seq::empty()
    } else {
        flat(parts.drop_last()) + parts.last()
    }
}

/// The characters of a text that are not whitespace, in order.
pub open spec fn solid_part(text: Seq<char>) -> Seq<char> {
    text.filter(|c: char| !is_whitespace(c))
}

/// Two lists read one after the other read as the first, then the second.
pub proof fn lemma_flat_concat(front: Seq<Seq<char>>, back: Seq<Seq<char>>)
    ensures
        flat(front + back) == flat(front) + flat(back),
    decreases back.len(),
{
    if back.len() == 0 {
        assert(front + back =~= front);
        assert(flat(front) + flat(back) =~= flat(front));
    } else {
        assert((front + back).drop_last() =~= front + back.drop_last());
        lemma_flat_concat(front, back.drop_last());
        assert((flat(front) + flat(back.drop_last())) + back.last() =~= flat(front) + (flat(
            back.drop_last(),
        ) + back.last()));
    }
}

/// A text without whitespace is all solid.
pub proof fn lemma_solid_part_of_solid(text: Seq<char>)
    requires
        solid(text),
    ensures
        solid_part(text) == text,
    decreases text.len(),
{
    reveal(Seq::filter);
    if text.len() > 0 {
        let front = text.drop_last();
        assert forall|i: int| 0 <= i < front.len() implies !is_whitespace(#[trigger] front[i]) by {
            assert(front[i] == text[i]);
        }
        lemma_solid_part_of_solid(front);
        assert(!is_whitespace(text.last()));
        assert(front.push(text.last()) =~= text);
    }
}

/// Splitting loses nothing and invents nothing: the tokens of a message, read
/// one after the other, are its characters without the whitespace.
pub proof fn lemma_tokens_keep_text(text: Seq<char>)
    ensures
        flat(tokens(text)) == solid_part(text),
    decreases text.len(),
{
    let keep = |c: char| !is_whitespace(c);
    if text.len() == 0 {
        reveal(Seq::filter);
    } else if is_whitespace(text[0]) {
        let head = seq![text[0]];
        lemma_tokens_keep_text(text.drop_first());
        assert(head + text.drop_first() =~= text);
        Seq::filter_distributes_over_add(head, text.drop_first(), keep);
        assert(head.filter(keep) =~= Seq::<char>::empty()) by {
            reveal_with_fuel(Seq::filter, 2);
            assert(head.drop_last() =~= Seq::<char>::empty());
        }
        assert(Seq::<char>::empty() + solid_part(text.drop_first()) =~= solid_part(
            text.drop_first(),
        ));
    } else {
        lemma_word_len(text);
        let n = word_len(text) as int;
        let word = text.take(n);
        let rest = text.skip(n);
        lemma_tokens_keep_text(rest);
        assert(word + rest =~= text);
        Seq::filter_distributes_over_add(word, rest, keep);
        lemma_solid_part_of_solid(word);
        lemma_flat_concat(seq![word], tokens(rest));
        assert(flat(seq![word]) =~= word) by {
            assert(seq![word].drop_last() =~= Seq::<Seq<char>>::empty());
            assert(flat(seq![word].drop_last()) =~= Seq::<char>::empty());
            assert(seq![word].last() == word);
        }
    }
}

/// A run that whitespace follows is the first token of the text.
proof fn lemma_tokens_after_run(run: Seq<char>, rest: Seq<char>)
    requires
        solid(run),
        rest.len() > 0 ==> is_whitespace(rest[0]),
    ensures
        tokens(run + rest) == (if run.len() > 0 {
            seq![run]
        } else {
            Seq::empty()
        }) + (if rest.len() > 0 {
            tokens(rest.drop_first())
        } else {
            Seq::empty()
        }),
{
    let text = run + rest;
    let tail = if rest.len() > 0 {
        tokens(rest.drop_first())
    } else {
        Seq::empty()
    };
    lemma_word_len_run(run, rest);
    assert(tokens(rest) == tail);
    if run.len() > 0 {
        assert(text[0] == run[0]);
        assert(text.take(run.len() as int) =~= run);
        assert(text.skip(run.len() as int) =~= rest);
        assert(tokens(text) == seq![run] + tokens(rest));
    } else {
        assert(text =~= rest);
        assert(Seq::<Seq<char>>::empty() + tail =~= tail);
    }
}

/// Splits a message into its tokens.
pub fn split_tokens(message: &str) -> (r: Vec<String>)
    ensures
        texts(r@) == tokens(message@),
{
    let mut done: Vec<String> = Vec::new();
    let mut run = String::new();
    proof {
        assert(run@ + message@.skip(0) =~= message@);
        assert(texts(done@) + tokens(message@) =~= tokens(message@));
    }
    for c in it: message.chars()
        invariant
            it.seq() == message@,
            solid(run@),
            tokens(message@) == texts(done@) + tokens(run@ + message@.skip(it.index() as int)),
    {
        let ghost rest = message@.skip(it.index() as int);
        let ghost later = message@.skip(it.index() + 1);
        let ghost run_before = run@;
        let ghost done_before = done@;
        proof {
            assert(rest[0] == c);
            assert(rest.drop_first() =~= later);
        }
        if char_is_whitespace(c) {
            proof {
                lemma_tokens_after_run(run_before, rest);
            }
            if !run.as_str().is_empty() {
                done.push(run);
                run = String::new();
                proof {
                    assert(texts(done@) =~= texts(done_before).push(run_before));
                    assert(texts(done_before) + (seq![run_before] + tokens(later)) =~= texts(done@)
                        + tokens(later));
                }
            } else {
                proof {
                    assert(Seq::<Seq<char>>::empty() + tokens(later) =~= tokens(later));
                }
            }
            proof {
                assert(run@ + later =~= later);
            }
        } else {
            push_char(&mut run, c);
            proof {
                assert(run@ + later =~= run_before + rest);
            }
        }
    }
    proof {
        let rest = message@.skip(message@.len() as int);
        assert(rest =~= Seq::<char>::empty());
        lemma_tokens_after_run(run@, rest);
    }
    if !run.as_str().is_empty() {
        let ghost done_before = done@;
        let ghost run_before = run@;
        done.push(run);
        proof {
            assert(texts(done@) =~= texts(done_before).push(run_before));
            assert(texts(done_before) + (seq![run_before] + Seq::<Seq<char>>::empty()) =~= texts(
                done@,
            ));
        }
    } else {
        proof {
            assert(texts(done@) + (Seq::<Seq<char>>::empty() + Seq::<Seq<char>>::empty()) =~= texts(
                done@,
            ));
        }
    }
    done
}

} // verus!
