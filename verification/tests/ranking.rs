use represence::order::{select_primary, sort_by_tier};
use represence::watch::RunningApp;

fn running(name: &str, tier: u32) -> RunningApp {
    RunningApp { name: name.to_string(), tier }
}

fn names(apps: &[RunningApp]) -> Vec<String> {
    apps.iter().map(|a| a.name.clone()).collect()
}

#[test]
fn sort_orders_by_tier_ascending() {
    let apps = vec![running("ghostty", 4), running("zen", 2), running("code", 1), running("vlc", 3)];
    let sorted = sort_by_tier(&apps);
    assert_eq!(names(&sorted), vec!["code", "zen", "vlc", "ghostty"]);
    let tiers: Vec<u32> = sorted.iter().map(|a| a.tier).collect();
    assert_eq!(tiers, vec![1, 2, 3, 4]);
}

#[test]
fn sort_keeps_order_within_a_tier() {
    let apps = vec![
        running("steam", 2),
        running("discord", 1),
        running("zen", 2),
        running("code", 1),
        running("chrome", 2),
    ];
    let sorted = sort_by_tier(&apps);
    assert_eq!(names(&sorted), vec!["discord", "code", "steam", "zen", "chrome"]);
}

#[test]
fn sort_keeps_every_entry() {
    let apps = vec![running("chrome", 2), running("chrome", 2), running("code", 1), running("chrome", 2)];
    let sorted = sort_by_tier(&apps);
    assert_eq!(names(&sorted), vec!["code", "chrome", "chrome", "chrome"]);
}

#[test]
fn sort_of_nothing_is_nothing() {
    assert!(sort_by_tier(&[]).is_empty());
}

#[test]
fn sort_handles_extreme_tiers() {
    let apps = vec![running("b", u32::MAX), running("a", 0), running("c", u32::MAX)];
    assert_eq!(names(&sort_by_tier(&apps)), vec!["a", "b", "c"]);
}

#[test]
fn primary_has_lowest_tier() {
    let apps = vec![running("vlc", 3), running("zen", 2), running("ghostty", 4), running("code", 1)];
    assert_eq!(select_primary(&apps), Some(3));
    let apps = vec![running("vlc", 3), running("ghostty", 4)];
    assert_eq!(select_primary(&apps), Some(0));
}

#[test]
fn primary_is_first_of_equal_tiers() {
    let apps = vec![running("vlc", 3), running("discord", 1), running("code", 1)];
    assert_eq!(select_primary(&apps), Some(1));
    let apps = vec![running("code", 1), running("discord", 1)];
    assert_eq!(select_primary(&apps), Some(0));
}

#[test]
fn primary_of_nothing_is_nothing() {
    assert_eq!(select_primary(&[]), None);
}

#[test]
fn primary_of_sorted_list_is_its_first_entry() {
    let apps = vec![running("steam", 2), running("vlc", 3), running("discord", 1), running("code", 1)];
    let sorted = sort_by_tier(&apps);
    let k = select_primary(&sorted).unwrap();
    assert_eq!(k, 0);
    assert_eq!(sorted[k].name, "discord");
}
