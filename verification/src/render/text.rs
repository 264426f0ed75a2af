//! The words that the display shows for a deck.

use crate::traktor::{Deck, DeckView};
use vstd::prelude::*;
use vstd::string::StringExecFns;

verus! {

/// What is shown for a deck: the resulting key, the artist and the title of
/// its track, one to a line; nothing for an empty deck.
pub open spec fn deck_text_of(deck: DeckView) -> Seq<char> {
    match deck.content {
        Some(content) => content.resulting_key + "\n"@ + content.artist + "\n"@ + content.title,
        None => Seq::empty(),
    }
}

/// The text to show for a deck.
pub fn deck_text(deck: &Deck) -> (text: String)
    ensures
        text@ == deck_text_of(deck@),
{
    match &deck.content {
        Some(content) => {
            let mut text = content.resulting_key.clone();
            text.append("\n");
            text.append(content.artist.as_str());
            text.append("\n");
            text.append(content.title.as_str());
            text
        },
        None => String::new(),
    }
}

} // verus!
