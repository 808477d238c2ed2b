use leaderboard::db::LeaderboardEntry;
use leaderboard::ranking::{
    AgentStanding, rank_all_time_performance, rank_leaderboard, sort_by_rank,
};
use leaderboard::time::CalendarDate;

fn entry(symbol: &str, credits: i64, ships: i64) -> LeaderboardEntry {
    LeaderboardEntry {
        agent_symbol: symbol.to_string(),
        credits,
        ship_count: ships,
        agent_headquarters_waypoint_symbol: format!("X1-{}-A1", symbol),
        jump_gate_waypoint_symbol: format!("X1-{}-I1", symbol),
    }
}

fn standing(date: (i32, u32, u32), symbol: &str, credits: i64) -> AgentStanding {
    AgentStanding {
        reset: CalendarDate::new(date.0, date.1, date.2),
        agent_symbol: symbol.to_string(),
        credits,
    }
}

#[test]
fn the_leaderboard_lists_by_credits_then_by_ships() {
    let ranked = rank_leaderboard(vec![entry("B", 500, 3), entry("A", 500, 5), entry("C", 300, 1)]);
    let order: Vec<(&str, i64, i64)> =
        ranked.iter().map(|e| (e.agent_symbol.as_str(), e.credits, e.ship_count)).collect();
    assert_eq!(order, vec![("A", 500, 5), ("B", 500, 3), ("C", 300, 1)]);
    assert_eq!(ranked[0].jump_gate_waypoint_symbol, "X1-A-I1");
}

#[test]
fn the_leaderboard_keeps_every_entry() {
    let ranked = rank_leaderboard(vec![
        entry("A", -5, 1),
        entry("B", 0, 0),
        entry("C", 9_000_000_000, 12),
        entry("D", 0, 7),
        entry("E", -5, 1),
    ]);
    let order: Vec<(i64, i64)> = ranked.iter().map(|e| (e.credits, e.ship_count)).collect();
    assert_eq!(order, vec![(9_000_000_000, 12), (0, 7), (0, 0), (-5, 1), (-5, 1)]);
    let mut symbols: Vec<&str> = ranked.iter().map(|e| e.agent_symbol.as_str()).collect();
    symbols.sort();
    assert_eq!(symbols, vec!["A", "B", "C", "D", "E"]);
    assert!(rank_leaderboard(vec![]).is_empty());
}

#[test]
fn equal_credits_rank_by_symbol() {
    let ranked = rank_all_time_performance(vec![
        standing((2024, 3, 10), "ZED", 100),
        standing((2024, 3, 10), "ALPHA", 100),
    ]);
    let order: Vec<(&str, u64)> = ranked.iter().map(|e| (e.agent_symbol.as_str(), e.rank)).collect();
    assert_eq!(order, vec![("ALPHA", 1), ("ZED", 2)]);
}

#[test]
fn every_epoch_is_ranked_from_one() {
    let ranked = rank_all_time_performance(vec![
        standing((2024, 3, 24), "B", 10),
        standing((2024, 3, 10), "A", 50),
        standing((2024, 3, 24), "A", 700),
        standing((2024, 3, 10), "C", 50),
        standing((2024, 3, 10), "B", 900),
        standing((2023, 12, 31), "A", 1),
    ]);
    let order: Vec<((i32, u32, u32), &str, i64, u64)> = ranked
        .iter()
        .map(|e| ((e.reset.year, e.reset.month, e.reset.day), e.agent_symbol.as_str(), e.credits, e.rank))
        .collect();
    assert_eq!(
        order,
        vec![
            ((2023, 12, 31), "A", 1, 1),
            ((2024, 3, 10), "B", 900, 1),
            ((2024, 3, 10), "A", 50, 2),
            ((2024, 3, 10), "C", 50, 3),
            ((2024, 3, 24), "A", 700, 1),
            ((2024, 3, 24), "B", 10, 2),
        ]
    );
    assert!(rank_all_time_performance(vec![]).is_empty());
}

#[test]
fn sorting_puts_standings_in_ranking_order() {
    let sorted = sort_by_rank(vec![
        standing((2024, 1, 1), "b", 5),
        standing((2024, 1, 1), "B", 5),
        standing((2024, 1, 1), "a", 6),
    ]);
    let order: Vec<&str> = sorted.iter().map(|s| s.agent_symbol.as_str()).collect();
    assert_eq!(order, vec!["a", "B", "b"]);
}
