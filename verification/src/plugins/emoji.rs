//! Emoji picker, activated with the `e` keyword: `e heart` lists the
//! matching emoji; choosing one copies it to the clipboard.

use crate::proto::ResultItem;
use crate::rank::{occurs, occurs_in};
use crate::text::{cat, chars_of, lowercase, split_words, string_of, to_lower, trim, trim_chars, words_from};
use vstd::prelude::*;

verus! {

/// The emoji offered, each with its keywords.
pub open spec fn emoji_table() -> Seq<(&'static str, &'static str)> {
    seq![
        ("😀", "grinning face smile happy"),
        ("😂", "joy laughing tears"),
        ("😍", "love heart eyes"),
        ("😎", "cool sunglasses"),
        ("😢", "crying sad tears"),
        ("😡", "angry mad rage"),
        ("👍", "thumbs up yes approve"),
        ("👎", "thumbs down no"),
        ("🙏", "pray thanks please"),
        ("👏", "clap applause"),
        ("🔥", "fire lit hot"),
        ("✨", "sparkles shiny new"),
        ("🎉", "party tada celebrate"),
        ("❤️", "red heart love"),
        ("💔", "broken heart"),
        ("⭐", "star favorite"),
        ("✅", "check done ok success"),
        ("❌", "cross no error fail"),
        ("⚠️", "warning caution"),
        ("💡", "idea light bulb"),
        ("🚀", "rocket launch ship fast"),
        ("🐛", "bug insect"),
        ("💻", "laptop computer code"),
        ("📋", "clipboard copy"),
        ("🔍", "search magnifying glass"),
        ("⏰", "alarm clock time"),
        ("📅", "calendar date"),
        ("📌", "pin location"),
        ("🎯", "target goal bullseye"),
        ("🤔", "thinking hmm"),
    ]
}

/// How many emoji one query lists at most.
pub const MAX_EMOJI: usize = 12;

/// An emoji is listed for the trimmed, lowercased query `needle` when the
/// needle is empty or occurs in its keywords or in the emoji itself (a
/// keyword that starts with the needle holds it too).
pub open spec fn emoji_matches(e: (&'static str, &'static str), needle: Seq<char>) -> bool {
    needle.len() == 0 || occurs_in(e.1@, needle) || occurs_in(e.0@, needle)
}

/// The emoji that match `needle`, in table order.
pub open spec fn matching_emoji(needle: Seq<char>) -> Seq<(&'static str, &'static str)> {
    emoji_table().filter(|e: (&'static str, &'static str)| emoji_matches(e, needle))
}

/// The first whitespace-separated word of `s`, or `s` when it has none.
pub open spec fn first_word_of(s: Seq<char>) -> Seq<char> {
    let words = words_from(s, 0);
    if words.len() > 0 {
        words[0]
    } else {
        s
    }
}

/// `item` offers emoji `e`: the emoji and its first keyword as title, all
/// keywords below.
pub open spec fn is_emoji_item(item: ResultItem, e: (&'static str, &'static str)) -> bool {
    &&& item.id@ == e.0@
    &&& item.title@ == e.0@ + "  "@ + first_word_of(e.1@)
    &&& item.subtitle matches Some(s) && s@ == e.1@
    &&& item.icon is None
    &&& item.score == 5000
    &&& item.command_id@ == e.0@
    &&& item.actions@.len() == 0
}

/// The first word of `keywords`.
pub fn first_word(keywords: &str) -> (r: String)
    ensures
        r@ == first_word_of(keywords@),
{
    let words = split_words(&chars_of(keywords));
    if words.len() > 0 {
        string_of(&words[0])
    } else {
        keywords.to_owned()
    }
}

/// The emoji listed for `text`: the first twelve that match.
pub fn emoji_results(text: &str) -> (r: Vec<ResultItem>)
    ensures
        ({
            let shown = matching_emoji(lowercase(trim(text@)));
            &&& r@.len() == (if shown.len() < MAX_EMOJI {
                shown.len() as int
            } else {
                MAX_EMOJI as int
            })
            &&& forall|k: int| 0 <= k < r@.len() ==> is_emoji_item(#[trigger] r@[k], shown[k])
        }),
{
    let table: &[(&str, &str)] = &[
        ("😀", "grinning face smile happy"),
        ("😂", "joy laughing tears"),
        ("😍", "love heart eyes"),
        ("😎", "cool sunglasses"),
        ("😢", "crying sad tears"),
        ("😡", "angry mad rage"),
        ("👍", "thumbs up yes approve"),
        ("👎", "thumbs down no"),
        ("🙏", "pray thanks please"),
        ("👏", "clap applause"),
        ("🔥", "fire lit hot"),
        ("✨", "sparkles shiny new"),
        ("🎉", "party tada celebrate"),
        ("❤️", "red heart love"),
        ("💔", "broken heart"),
        ("⭐", "star favorite"),
        ("✅", "check done ok success"),
        ("❌", "cross no error fail"),
        ("⚠️", "warning caution"),
        ("💡", "idea light bulb"),
        ("🚀", "rocket launch ship fast"),
        ("🐛", "bug insect"),
        ("💻", "laptop computer code"),
        ("📋", "clipboard copy"),
        ("🔍", "search magnifying glass"),
        ("⏰", "alarm clock time"),
        ("📅", "calendar date"),
        ("📌", "pin location"),
        ("🎯", "target goal bullseye"),
        ("🤔", "thinking hmm"),
    ];
    assert(table@ =~= emoji_table());
    let needle = chars_of(to_lower(string_of(&trim_chars(&chars_of(text))).as_str()).as_str());
    let ghost nd = lowercase(trim(text@));
    let ghost pred = |e: (&'static str, &'static str)| emoji_matches(e, nd);
    let mut out: Vec<ResultItem> = Vec::new();
    let mut i: usize = 0;
    while i < table.len()
        invariant
            table@ == emoji_table(),
            needle@ == nd,
            pred == (|e: (&'static str, &'static str)| emoji_matches(e, nd)),
            i <= table@.len(),
            out@.len() == (if table@.subrange(0, i as int).filter(pred).len() < MAX_EMOJI {
                table@.subrange(0, i as int).filter(pred).len() as int
            } else {
                MAX_EMOJI as int
            }),
            forall|k: int|
                0 <= k < out@.len() ==> is_emoji_item(
                    #[trigger] out@[k],
                    table@.subrange(0, i as int).filter(pred)[k],
                ),
        decreases table@.len() - i,
    {
        proof {
            reveal(Seq::filter);
        }
        assert(table@.subrange(0, i + 1).drop_last() =~= table@.subrange(0, i as int));
        let (emoji, keywords) = table[i];
        let keep = needle.len() == 0 || occurs(&chars_of(keywords), &needle) || occurs(
            &chars_of(emoji),
            &needle,
        );
        if keep && out.len() < MAX_EMOJI {
            out.push(
                ResultItem {
                    id: emoji.to_owned(),
                    title: cat(cat(emoji, "  ").as_str(), first_word(keywords).as_str()),
                    subtitle: Some(keywords.to_owned()),
                    icon: None,
                    score: 5000,
                    command_id: emoji.to_owned(),
                    actions: Vec::new(),
                },
            );
        }
        i = i + 1;
    }
    assert(table@.subrange(0, table@.len() as int) =~= table@);
    out
}

} // verus!
