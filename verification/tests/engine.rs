use turn_pipeline::engine::{announced_move, command_words, move_request, position_request};

#[test]
fn position_request_carries_the_position() {
    assert_eq!(position_request("Base;NotStarted;White[1]"), "newgame Base;NotStarted;White[1]");
    assert_eq!(position_request(""), "newgame ");
}

#[test]
fn move_request_carries_the_budget() {
    assert_eq!(move_request("depth 1"), "bestmove depth 1");
    assert_eq!(move_request("time 00:00:01"), "bestmove time 00:00:01");
    assert_eq!(move_request(""), "bestmove ");
}

#[test]
fn announced_move_gives_the_payload() {
    assert_eq!(announced_move("bestmove wS1"), Some(String::from("wS1")));
    assert_eq!(announced_move("bestmove bG1 -wS1"), Some(String::from("bG1 -wS1")));
    assert_eq!(announced_move("bestmove  "), Some(String::from(" ")));
    assert_eq!(announced_move("bestmove \u{e9}t\u{e9}"), Some(String::from("\u{e9}t\u{e9}")));
}

#[test]
fn announced_move_passes_over_other_lines() {
    assert_eq!(announced_move(""), None);
    assert_eq!(announced_move("ok"), None);
    assert_eq!(announced_move("bestmove"), None);
    assert_eq!(announced_move("bestmove "), None);
    assert_eq!(announced_move("bestmovewS1"), None);
    assert_eq!(announced_move(" bestmove wS1"), None);
    assert_eq!(announced_move("Bestmove wS1"), None);
    assert_eq!(announced_move("info depth 1 wS1"), None);
    assert_eq!(announced_move("bestmov\u{e9} wS1"), None);
}

fn strings(words: &[&str]) -> Vec<String> {
    words.iter().map(|word| String::from(*word)).collect()
}

#[test]
fn command_words_splits_at_blanks() {
    assert_eq!(command_words("../nokamute/target/debug/nokamute uhp --threads=1"), strings(&["../nokamute/target/debug/nokamute", "uhp", "--threads=1"]));
    assert_eq!(command_words("engine"), strings(&["engine"]));
    assert_eq!(command_words("a b"), strings(&["a", "b"]));
    assert_eq!(command_words("a\tb"), strings(&["a", "b"]));
}

#[test]
fn command_words_passes_over_runs_of_blanks() {
    assert_eq!(command_words("  engine   uhp  "), strings(&["engine", "uhp"]));
    assert_eq!(command_words(" \t engine\t\tuhp\t"), strings(&["engine", "uhp"]));
}

#[test]
fn command_words_of_a_blank_line_are_none() {
    assert!(command_words("").is_empty());
    assert!(command_words(" ").is_empty());
    assert!(command_words(" \t  ").is_empty());
}

#[test]
fn command_words_keeps_other_characters_in_the_word() {
    assert_eq!(command_words("moteur\u{e9} --nom=\u{fc}ber\nx"), strings(&["moteur\u{e9}", "--nom=\u{fc}ber\nx"]));
}
