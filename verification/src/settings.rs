//! Settings that are read from the environment.
//!
//! A variable comes as its text, or as `None` where it is not set or not Unicode.

use vstd::prelude::*;

use crate::text;

verus! {

/// Whether a word switches something on.
pub open spec fn is_on(word: Seq<char>) -> bool {
    word == "1"@ || word == "true"@ || word == "yes"@ || word == "on"@
}

/// Whether a word switches something off.
pub open spec fn is_off(word: Seq<char>) -> bool {
    word == "0"@ || word == "false"@ || word == "no"@ || word == "off"@
}

/// The word that the value of a variable is read as.
pub open spec fn switch_word(value: Seq<char>) -> Seq<char> {
    text::ascii_lowered(text::trimmed(value))
}

/// What a variable says of a switch.
pub open spec fn truthy(value: Option<Seq<char>>, default: bool) -> bool {
    match value {
        Some(value) => if is_on(switch_word(value)) {
            true
        } else if is_off(switch_word(value)) {
            false
        } else {
            default
        },
        None => default,
    }
}

/// The text of an optional string.
pub open spec fn text_view(value: Option<&str>) -> Option<Seq<char>> {
    match value {
        Some(value) => Some(value@),
        None => None,
    }
}

/// What the value of a variable says of a switch: on, off, or `default` where it
/// is neither. Case and outer white space make no difference.
pub fn env_var_truthy(value: Option<&str>, default: bool) -> (on: bool)
    ensures
        on == truthy(text_view(value), default),
{
    match value {
        Some(value) => {
            let word = text::trim(value);
            if text::reads_as(word, "1") || text::reads_as(word, "true") || text::reads_as(
                word,
                "yes",
            ) || text::reads_as(word, "on") {
                true
            } else if text::reads_as(word, "0") || text::reads_as(word, "false") || text::reads_as(
                word,
                "no",
            ) || text::reads_as(word, "off") {
                false
            } else {
                default
            }
        },
        None => default,
    }
}

/// No word switches both on and off.
pub proof fn law_no_word_is_on_and_off(word: Seq<char>)
    ensures
        !(is_on(word) && is_off(word)),
{
    reveal_strlit("1");
    reveal_strlit("true");
    reveal_strlit("yes");
    reveal_strlit("on");
    reveal_strlit("0");
    reveal_strlit("false");
    reveal_strlit("no");
    reveal_strlit("off");
    if is_on(word) && is_off(word) {
        assert(word[0] == '1' || word[0] == 't' || word[0] == 'y' || (word[0] == 'o' && word.len()
            == 2));
        assert(word[0] == '0' || word[0] == 'f' || word[0] == 'n' || word.len() == 3);
    }
}

/// The default counts exactly where the variable is not set or holds no switch
/// word.
pub proof fn law_default_counts_without_a_word(value: Option<Seq<char>>)
    ensures
        (value is None || (!is_on(switch_word(value->Some_0)) && !is_off(
            switch_word(value->Some_0),
        ))) <==> (truthy(value, true) && !truthy(value, false)),
{
    if let Some(value) = value {
        law_no_word_is_on_and_off(switch_word(value));
    }
}

/// Outer white space makes no difference to a switch.
pub proof fn law_outer_space_is_ignored(value: Seq<char>, default: bool)
    ensures
        truthy(Some(text::trimmed(value)), default) == truthy(Some(value), default),
{
    text::lemma_trimmed_ends(value);
    text::lemma_trimmed_fixed(text::trimmed(value));
}

/// A switch is on for the words `1`, `true`, `yes` and `on`, and off for `0`, `false`, `no`
/// and `off`, whatever the case of their letters and the white space around them. For any
/// other value, and without one, the default counts.
pub proof fn law_words_of_a_switch(value: Seq<char>, default: bool)
    ensures
        ({
            let word = text::ascii_lowered(text::trimmed(value));
            let on = seq!["1"@, "true"@, "yes"@, "on"@].contains(word);
            let off = seq!["0"@, "false"@, "no"@, "off"@].contains(word);
            &&& on ==> truthy(Some(value), default)
            &&& off ==> !truthy(Some(value), default)
            &&& !on && !off ==> truthy(Some(value), default) == default
            &&& truthy(None, default) == default
        }),
{
    let word = text::ascii_lowered(text::trimmed(value));
    let on = seq!["1"@, "true"@, "yes"@, "on"@];
    let off = seq!["0"@, "false"@, "no"@, "off"@];
    assert(on[0] == "1"@ && on[1] == "true"@ && on[2] == "yes"@ && on[3] == "on"@);
    assert(off[0] == "0"@ && off[1] == "false"@ && off[2] == "no"@ && off[3] == "off"@);
    law_no_word_is_on_and_off(word);
}

/// A value that is set is read by its text.
pub proof fn law_set_value_is_its_text(value: &str)
    ensures
        text_view(Some(value)) == Some(value@),
        text_view(None) is None,
{
}

} // verus!
