use checkers_tuner::config::Config;
use checkers_tuner::evolution::{batch_remains, mutate, run_one_batch, seed_agents};
use checkers_tuner::game::{new_game, Person, SearchLimit, Side, NN};
use checkers_tuner::selection::get_best_agents;

#[test]
fn best_agents_sorted_by_descending_rating() {
    let batch = vec![(1200i16, "A"), (1500, "B"), (1000, "C")];
    assert_eq!(get_best_agents(batch, 2), vec!["B", "A"]);
}

#[test]
fn best_agents_equal_ratings_later_first() {
    let batch = vec![(5i16, "x"), (5, "y"), (9, "z"), (5, "w")];
    assert_eq!(get_best_agents(batch, 10), vec!["z", "w", "y", "x"]);
}

#[test]
fn best_agents_edges() {
    let empty: Vec<(i16, u8)> = vec![];
    assert_eq!(get_best_agents(empty, 3), Vec::<u8>::new());
    assert_eq!(get_best_agents(vec![(-3i16, 1u8), (i16::MIN, 2)], 0), Vec::<u8>::new());
    assert_eq!(get_best_agents(vec![(-3i16, 1u8), (i16::MAX, 2)], 1), vec![2]);
}

#[test]
fn mutate_backfills_to_population_size() {
    let parents: Vec<i32> = (1..=10).collect();
    let next = mutate(parents, 2, 36, |a: &i32| *a * 100, || -1);
    assert_eq!(next.len(), 36);
    assert_eq!(&next[0..4], &[100, 100, 200, 200]);
    assert_eq!(next[19], 1000);
    assert!(next[20..].iter().all(|a| *a == -1));
}

#[test]
fn mutate_keeps_all_children_when_they_outnumber() {
    let next = mutate(vec![1, 2, 3], 3, 4, |a: &i32| *a + 10, || 0);
    assert_eq!(next, vec![11, 11, 11, 12, 12, 12, 13, 13, 13]);
}

#[test]
fn mutate_without_parents_is_all_fresh() {
    let next = mutate(Vec::<i32>::new(), 2, 5, |a: &i32| *a, || 7);
    assert_eq!(next, vec![7; 5]);
}

#[test]
fn seed_agents_uses_given_or_fresh() {
    assert_eq!(seed_agents(Some(vec![1, 2]), 36, || 0), vec![1, 2]);
    assert_eq!(seed_agents(None, 3, || 9), vec![9, 9, 9]);
}

#[test]
fn run_one_batch_selects_and_breeds() {
    let mut config = Config::defaults();
    config.num_agents_retained = 2;
    config.num_children_per_retained_agent = 2;
    config.num_agents = 6;
    let played = vec![(1200i16, 1), (1500, 2), (1000, 3)];
    let next = run_one_batch(played, 4, &config, |a: &i32| *a * 10, || 0);
    assert_eq!(next.batch_num, 5);
    assert_eq!(next.agents, vec![20, 20, 10, 10, 0, 0]);
}

#[test]
fn batch_remains_up_to_last() {
    assert!(batch_remains(1, 10));
    assert!(batch_remains(10, 10));
    assert!(!batch_remains(11, 10));
    assert!(!batch_remains(1, 0));
}

#[test]
fn new_game_has_two_named_players() {
    let g = new_game();
    assert_eq!(g.black_player, "Connor");
    assert_eq!(g.white_player, "Corban");
    assert_eq!(g.current_turn, Side::Black);
}

#[test]
fn pass_turn_alternates() {
    let mut g = new_game();
    g.pass_turn();
    assert_eq!(g.current_turn, Side::White);
    g.pass_turn();
    assert_eq!(g.current_turn, Side::Black);
    assert_eq!(Side::White.opponent(), Side::Black);
}

#[test]
fn players_keep_their_names() {
    assert_eq!(Person::new("Ann".to_string()).name(), "Ann");
    assert_eq!(NN::new("net".to_string()).name(), "net");
}

#[test]
fn agent_limit_from_config() {
    let mut config = Config::defaults();
    assert_eq!(SearchLimit::for_agents(&config), SearchLimit::Depth(4));
    config.agent_depth = 6;
    assert_eq!(SearchLimit::for_agents(&config), SearchLimit::Depth(6));
}
