//! Bots and the turns they owe.

use vstd::prelude::*;

verus! {

/// The texts of a run of strings, in their order.
pub open spec fn texts(items: Seq<String>) -> Seq<Seq<char>> {
    Seq::new(items.len(), |i: int| items[i]@)
}

/// The fixed configuration of one automated player.
#[derive(Debug)]
pub struct Bot {
    /// Display name, used in diagnostics.
    pub name: String,
    /// Path of the bot's endpoint at the match service.
    pub uri: String,
    /// Access credential for the match service.
    pub api_key: String,
    /// Command line that launches the bot's engine.
    pub ai_command: String,
    /// Budget of a move request, such as `depth 1` or `time 00:00:01`.
    pub bestmove_command_args: String,
}

impl Clone for Bot {
    fn clone(&self) -> (copy: Bot)
        ensures
            copy == *self,
    {
        Bot {
            name: self.name.clone(),
            uri: self.uri.clone(),
            api_key: self.api_key.clone(),
            ai_command: self.ai_command.clone(),
            bestmove_command_args: self.bestmove_command_args.clone(),
        }
    }
}

/// One unit of work: a position on which a bot has to move.
#[derive(Debug)]
pub struct GameTurn {
    /// The serialized position.
    pub game_string: String,
    /// The fingerprint of `game_string`.
    pub hash: u64,
    /// The bot that owes the move.
    pub bot: Bot,
}

impl GameTurn {
    /// Whether the turn carries the fingerprint of its own position.
    pub open spec fn well_formed(&self) -> bool {
        self.hash == crate::fingerprint::fingerprint_of(self.game_string@)
    }

    /// The turn that `bot` owes on the given position.
    pub fn new(game_string: String, bot: &Bot) -> (turn: GameTurn)
        ensures
            turn.game_string == game_string,
            turn.hash == crate::fingerprint::fingerprint_of(game_string@),
            turn.bot == *bot,
            turn.well_formed(),
    {
        let hash = crate::fingerprint::calculate_hash(game_string.as_str());
        GameTurn { game_string, hash, bot: bot.clone() }
    }
}

} // verus!
