//! The lines exchanged with a move engine.

use crate::turn::texts;
use vstd::prelude::*;
use vstd::string::{StrSliceExecFns, StringExecFns};

verus! {

/// The text that opens the request line carrying a position.
pub open spec fn position_prefix() -> Seq<char> {
    "newgame "@
}

/// The text that opens a move request, and a line on which the engine
/// announces its finalized move.
pub open spec fn move_prefix() -> Seq<char> {
    "bestmove "@
}

/// The move that an output line announces: what follows the move prefix,
/// where the line opens with that prefix and something follows it.
pub open spec fn move_in(line: Seq<char>) -> Option<Seq<char>> {
    let prefix = move_prefix();
    if line.len() > prefix.len() && line.take(prefix.len() as int) == prefix {
        Some(line.skip(prefix.len() as int))
    } else {
        None
    }
}

/// The request line that sets the engine up with a position.
pub fn position_request(game_string: &str) -> (line: String)
    ensures
        line@ == position_prefix() + game_string@,
{
    String::from_str("newgame ").concat(game_string)
}

/// The request line that asks for a move within the given budget.
pub fn move_request(budget: &str) -> (line: String)
    ensures
        line@ == move_prefix() + budget@,
{
    String::from_str("bestmove ").concat(budget)
}

/// Reads an output line of the engine: the announced move, or nothing
/// where the line announces none.
pub fn announced_move(line: &str) -> (found: Option<String>)
    ensures
        match move_in(line@) {
            Some(text) => found matches Some(payload) && payload@ == text,
            None => found is None,
        },
{
    let prefix = "bestmove ";
    let width = prefix.unicode_len();
    let length = line.unicode_len();
    if length <= width {
        return None;
    }
    let mut i: usize = 0;
    while i < width
        invariant
            i <= width,
            width == prefix@.len(),
            width < length,
            length == line@.len(),
            prefix@ == move_prefix(),
            forall|j: int| 0 <= j < i ==> line@[j] == prefix@[j],
        decreases width - i,
    {
        if line.get_char(i) != prefix.get_char(i) {
            assert(line@.take(width as int)[i as int] != prefix@[i as int]);
            return None;
        }
        i += 1;
    }
    assert(line@.take(width as int) =~= prefix@);
    Some(String::from_str(line.substring_char(width, length)))
}

/// Whether the character parts the words of a command line: a space or a
/// tab.
pub open spec fn is_blank(c: char) -> bool {
    c == ' ' || c == '\t'
}

/// The words of `text` that follow the unfinished word `current`, with
/// that word before them where it is not empty.
pub open spec fn words_after(text: Seq<char>, current: Seq<char>) -> Seq<Seq<char>>
    decreases text.len(),
{
    let done = if current.len() > 0 {
        seq![current]
    } else {
        Seq::empty()
    };
    if text.len() == 0 {
        done
    } else if is_blank(text[0]) {
        done + words_after(text.drop_first(), Seq::empty())
    } else {
        words_after(text.drop_first(), current.push(text[0]))
    }
}

/// The words of a command line: its longest runs of characters that are
/// not blank, first to last.
pub open spec fn words_of(text: Seq<char>) -> Seq<Seq<char>> {
    words_after(text, Seq::empty())
}

/// Splits an engine's command line into the program and its arguments.
pub fn command_words(command: &str) -> (words: Vec<String>)
    ensures
        texts(words@) == words_of(command@),
{
    let length = command.unicode_len();
    let mut words: Vec<String> = Vec::new();
    let mut start: usize = 0;
    let mut i: usize = 0;
    assert(command@.skip(0) =~= command@);
    assert(command@.subrange(0, 0) =~= Seq::<char>::empty());
    assert(texts(words@) + words_of(command@) =~= words_of(command@));
    while i < length
        invariant
            start <= i <= length,
            length == command@.len(),
            texts(words@) + words_after(
                command@.skip(i as int),
                command@.subrange(start as int, i as int),
            ) == words_of(command@),
        decreases length - i,
    {
        let ghost rest = command@.skip(i as int);
        let ghost current = command@.subrange(start as int, i as int);
        let ghost before = texts(words@);
        let c = command.get_char(i);
        assert(rest[0] == c);
        assert(rest.drop_first() =~= command@.skip(i + 1));
        if c == ' ' || c == '\t' {
            if start < i {
                let word = String::from_str(command.substring_char(start, i));
                words.push(word);
                assert(texts(words@) =~= before + seq![current]);
            }
            start = i + 1;
            assert(command@.subrange(start as int, i + 1) =~= Seq::<char>::empty());
            assert(texts(words@) + words_after(command@.skip(i + 1), Seq::empty()) =~= before
                + words_after(rest, current));
        } else {
            assert(command@.subrange(start as int, i + 1) =~= current.push(c));
        }
        i += 1;
    }
    let ghost current = command@.subrange(start as int, i as int);
    let ghost before = texts(words@);
    assert(command@.skip(i as int).len() == 0);
    if start < i {
        let word = String::from_str(command.substring_char(start, i));
        words.push(word);
        assert(texts(words@) =~= before + seq![current]);
    } else {
        assert(texts(words@) =~= before + Seq::<Seq<char>>::empty());
    }
    words
}

} // verus!
