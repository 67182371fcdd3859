use checkers_tuner::config::{parse_usize, setting_or, Config};
use checkers_tuner::moves::{parse_move, Move, MoveInputError};

#[test]
fn parse_usize_plain_and_signed() {
    assert_eq!(parse_usize("42"), Some(42));
    assert_eq!(parse_usize("+7"), Some(7));
    assert_eq!(parse_usize("007"), Some(7));
}

#[test]
fn parse_usize_rejects_malformed() {
    assert_eq!(parse_usize(""), None);
    assert_eq!(parse_usize("+"), None);
    assert_eq!(parse_usize("-1"), None);
    assert_eq!(parse_usize("1a"), None);
    assert_eq!(parse_usize(" 1"), None);
}

#[test]
fn parse_usize_edges_of_range() {
    let max = usize::MAX.to_string();
    assert_eq!(parse_usize(&max), Some(usize::MAX));
    let over = format!("{}0", usize::MAX);
    assert_eq!(parse_usize(&over), None);
}

#[test]
fn setting_falls_back_to_default() {
    assert_eq!(setting_or(None, 10), 10);
    assert_eq!(setting_or(Some("ten"), 10), 10);
    assert_eq!(setting_or(Some("12"), 10), 12);
}

#[test]
fn config_defaults_match_documented_values() {
    let c = Config::defaults();
    assert_eq!(c.num_batches, 10);
    assert_eq!(c.num_agents, 36);
    assert_eq!(c.num_agents_retained, 10);
    assert_eq!(c.num_children_per_retained_agent, 2);
    assert_eq!(c.num_matches, 108);
    assert_eq!(c.agent_depth, 4);
}

#[test]
fn config_from_raw_mixes_values_and_defaults() {
    let c = Config::from_raw(Some("3"), None, Some("x"), Some("5"), Some(""), Some("6"));
    assert_eq!(c.num_batches, 3);
    assert_eq!(c.num_agents, 36);
    assert_eq!(c.num_agents_retained, 10);
    assert_eq!(c.num_children_per_retained_agent, 5);
    assert_eq!(c.num_matches, 108);
    assert_eq!(c.agent_depth, 6);
}

#[test]
fn parse_move_accepts_notation() {
    assert_eq!(parse_move("12-16"), Ok((12, 16)));
    assert_eq!(parse_move("0-+3"), Ok((0, 3)));
}

#[test]
fn parse_move_rejects_wrong_shape() {
    assert_eq!(parse_move("12"), Err(MoveInputError::ImproperlyFormatted));
    assert_eq!(parse_move("1-2-3"), Err(MoveInputError::ImproperlyFormatted));
    assert_eq!(parse_move(""), Err(MoveInputError::ImproperlyFormatted));
}

#[test]
fn parse_move_rejects_bad_numbers() {
    assert_eq!(parse_move("a-3"), Err(MoveInputError::Unparsable));
    assert_eq!(parse_move("-3"), Err(MoveInputError::Unparsable));
    assert_eq!(parse_move("4-"), Err(MoveInputError::Unparsable));
}

#[test]
fn move_input_error_messages() {
    assert_eq!(MoveInputError::ImproperlyFormatted.message(), "improperly formatted move");
    assert_eq!(MoveInputError::Unparsable.message(), "couldn't parse your move");
}

#[test]
fn move_cells() {
    let m = Move::Diagonal(9, 18);
    assert_eq!((m.origin(), m.dest()), (9, 18));
    let s = Move::Straight(4, 5);
    assert_eq!((s.origin(), s.dest()), (4, 5));
}
