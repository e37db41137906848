//! The tokens of a message: words, and the emotes that the catalog knows.

use crate::catalog::Catalog;
use crate::emote::{Emote, EmoteView};
use crate::text::texts;
use vstd::prelude::*;

verus! {

/// A token of a message: a plain word, or the emote that the catalog holds
/// under exactly the token's text.
#[derive(Debug)]
pub enum Token {
    Word(String),
    Emote(Emote),
}

/// The mathematical value of a `Token`.
pub enum TokenView {
    Word(Seq<char>),
    Emote(EmoteView),
}

impl View for Token {
    type V = TokenView;

    open spec fn view(&self) -> TokenView {
        match self {
            Token::Word(text) => TokenView::Word(text@),
            Token::Emote(emote) => TokenView::Emote(emote@),
        }
    }
}

/// The values of a list of tokens.
pub open spec fn token_views(list: Seq<Token>) -> Seq<TokenView> {
    Seq::new(list.len(), |i: int| list[i]@)
}

/// The words of a message told apart by the catalog: a word that is exactly
/// the name of an entry stands for that emote, every other word for itself.
pub open spec fn classified(
    entries: Map<Seq<char>, EmoteView>,
    words: Seq<Seq<char>>,
) -> Seq<TokenView> {
    Seq::new(
        words.len(),
        |i: int|
            if entries.contains_key(words[i]) {
                TokenView::Emote(entries[words[i]])
            } else {
                TokenView::Word(words[i])
            },
    )
}

/// Tells the words of a message apart by the catalog.
pub fn classify(catalog: &Catalog, words: Vec<String>) -> (r: Vec<Token>)
    requires
        catalog.wf(),
    ensures
        token_views(r@) == classified(catalog@, texts(words@)),
{
    let ghost all = texts(words@);
    let mut list: Vec<Token> = Vec::new();
    for word in it: words
        invariant
            catalog.wf(),
            texts(it.seq()) == all,
            token_views(list@) == classified(catalog@, all.take(it.index() as int)),
    {
        let ghost before = list@;
        let ghost at = it.index() as int;
        proof {
            assert(all[at] == word@);
        }
        let found = match catalog.lookup(word.as_str()) {
            Some(emote) => Some(emote.clone()),
            None => None,
        };
        match found {
            Some(emote) => list.push(Token::Emote(emote)),
            None => list.push(Token::Word(word)),
        }
        proof {
            assert(token_views(list@) =~= token_views(before).push(list@.last()@));
            assert(classified(catalog@, all.take(at + 1)) =~= classified(
                catalog@,
                all.take(at),
            ).push(list@.last()@));
        }
    }
    proof {
        assert(all.take(all.len() as int) =~= all);
    }
    list
}

} // verus!
