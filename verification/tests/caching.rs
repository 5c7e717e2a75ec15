use represence::cache::{clone_apps, key_by_name, ProcessCache, PROCESS_CACHE_TTL_MS};
use represence::lookup::get_running_apps_optimized;
use represence::signature::{app_digest, signature_of};
use represence::watch::{RunningApp, TieredApp};
use std::collections::hash_map::DefaultHasher;
use std::hash::Hasher;

fn watched(name: &str, tier: u32) -> TieredApp {
    TieredApp { name: name.to_string(), tier }
}

fn detected(name: &str, tier: u32) -> RunningApp {
    RunningApp { name: name.to_string(), tier }
}

fn listed(apps: &[RunningApp]) -> Vec<(String, u32)> {
    apps.iter().map(|a| (a.name.clone(), a.tier)).collect()
}

fn resolved_names(names: &[&str]) -> Vec<Option<String>> {
    names.iter().map(|n| Some(n.to_string())).collect()
}

fn usual_watch() -> Vec<TieredApp> {
    vec![watched("code", 1), watched("discord", 1), watched("zen", 2), watched("vlc", 3)]
}

fn expected_digest(name: &str, tier: u32) -> u64 {
    let mut hasher = DefaultHasher::new();
    hasher.write(name.as_bytes());
    hasher.write(&tier.to_le_bytes());
    hasher.finish()
}

#[test]
fn digest_feeds_name_then_tier() {
    assert_eq!(app_digest(&detected("zen", 2)), expected_digest("zen", 2));
    assert_eq!(app_digest(&detected("", 0)), expected_digest("", 0));
    assert_eq!(app_digest(&detected("été", u32::MAX)), expected_digest("été", u32::MAX));
}

#[test]
fn digest_tells_name_and_tier_apart() {
    assert_ne!(app_digest(&detected("zen", 2)), app_digest(&detected("zen", 3)));
    assert_ne!(app_digest(&detected("zen", 2)), app_digest(&detected("vlc", 2)));
}

#[test]
fn signature_of_nothing_is_zero() {
    assert_eq!(signature_of(&[]), 0);
    assert_eq!(ProcessCache::calculate_process_hash(&[]), 0);
}

#[test]
fn signature_is_the_wrapping_sum_of_digests() {
    let apps = vec![detected("code", 1), detected("zen", 2), detected("zen", 2)];
    let expected = expected_digest("code", 1)
        .wrapping_add(expected_digest("zen", 2))
        .wrapping_add(expected_digest("zen", 2));
    assert_eq!(signature_of(&apps), expected);
    assert_eq!(ProcessCache::calculate_process_hash(&apps), expected);
}

#[test]
fn signature_of_one_process_is_its_digest() {
    assert_eq!(signature_of(&[detected("discord", 1)]), expected_digest("discord", 1));
}

#[test]
fn signature_ignores_order() {
    let a = vec![detected("code", 1), detected("zen", 2), detected("vlc", 3)];
    let b = vec![detected("vlc", 3), detected("code", 1), detected("zen", 2)];
    let c = vec![detected("zen", 2), detected("vlc", 3), detected("code", 1)];
    assert_eq!(signature_of(&a), signature_of(&b));
    assert_eq!(signature_of(&a), signature_of(&c));
}

#[test]
fn signature_changes_with_the_processes() {
    let a = vec![detected("code", 1), detected("zen", 2)];
    let b = vec![detected("code", 1), detected("vlc", 3)];
    let c = vec![detected("code", 1), detected("zen", 3)];
    let d = vec![detected("code", 1), detected("zen", 2), detected("zen", 2)];
    assert_ne!(signature_of(&a), signature_of(&b));
    assert_ne!(signature_of(&a), signature_of(&c));
    assert_ne!(signature_of(&a), signature_of(&d));
}

#[test]
fn new_cache_is_empty_and_expired() {
    let cache = ProcessCache::new();
    assert!(cache.processes().is_empty());
    assert_eq!(cache.last_updated(), None);
    assert_eq!(cache.last_process_count(), 0);
    assert_eq!(cache.process_list_hash(), 0);
    assert_eq!(cache.ttl_ms(), PROCESS_CACHE_TTL_MS);
    assert_eq!(PROCESS_CACHE_TTL_MS, 1000);
    assert!(cache.is_expired(0));
    assert!(cache.is_expired(1));
    assert!(cache.is_expired(u64::MAX));
}

#[test]
fn snapshot_is_fresh_while_its_age_is_below_the_ttl() {
    let mut cache = ProcessCache::new();
    cache.update_with_change_detection(vec![detected("zen", 2)], 5000);
    assert_eq!(cache.last_updated(), Some(5000));
    assert!(!cache.is_expired(5000));
    assert!(!cache.is_expired(5001));
    assert!(!cache.is_expired(5999));
    assert!(cache.is_expired(6000));
    assert!(cache.is_expired(6001));
    assert!(cache.is_expired(u64::MAX));
}

#[test]
fn clock_before_the_snapshot_expires_it() {
    let mut cache = ProcessCache::new();
    cache.update_with_change_detection(Vec::new(), 5000);
    assert!(cache.is_expired(4999));
    assert!(cache.is_expired(0));
}

#[test]
fn ttl_of_zero_never_keeps_a_snapshot() {
    let mut cache = ProcessCache::with_ttl(0);
    cache.update_with_change_detection(vec![detected("zen", 2)], 5000);
    assert!(cache.is_expired(5000));
}

#[test]
fn custom_ttl_is_kept() {
    let mut cache = ProcessCache::with_ttl(2500);
    assert_eq!(cache.ttl_ms(), 2500);
    cache.update_with_change_detection(Vec::new(), 100);
    assert!(!cache.is_expired(2599));
    assert!(cache.is_expired(2600));
    assert_eq!(cache.ttl_ms(), 2500);
}

#[test]
fn change_is_seen_by_signature_or_count() {
    let mut cache = ProcessCache::new();
    assert!(!cache.has_processes_changed(&[]));
    assert!(cache.has_processes_changed(&[detected("zen", 2)]));
    assert!(cache.update_with_change_detection(vec![detected("zen", 2), detected("code", 1)], 10));
    assert!(!cache.has_processes_changed(&[detected("zen", 2), detected("code", 1)]));
    assert!(!cache.has_processes_changed(&[detected("code", 1), detected("zen", 2)]));
    assert!(cache.has_processes_changed(&[detected("code", 1)]));
    assert!(cache.has_processes_changed(&[detected("code", 1), detected("vlc", 3)]));
    assert!(cache.has_processes_changed(&[detected("code", 1), detected("zen", 2), detected("zen", 2)]));
    assert!(cache.has_processes_changed(&[]));
}

#[test]
fn update_reports_change_against_the_scan_before() {
    let mut cache = ProcessCache::new();
    assert!(!cache.update_with_change_detection(Vec::new(), 1));
    assert!(cache.update_with_change_detection(vec![detected("zen", 2)], 2));
    assert!(!cache.update_with_change_detection(vec![detected("zen", 2)], 3));
    assert!(cache.update_with_change_detection(vec![detected("zen", 2), detected("zen", 2)], 4));
    assert!(cache.update_with_change_detection(Vec::new(), 5));
    assert_eq!(cache.last_updated(), Some(5));
}

#[test]
fn update_stores_count_signature_and_time() {
    let mut cache = ProcessCache::new();
    let apps = vec![detected("chrome", 2), detected("chrome", 2), detected("code", 1)];
    let expected = signature_of(&apps);
    cache.update_with_change_detection(apps, 777);
    assert_eq!(cache.last_process_count(), 3);
    assert_eq!(cache.process_list_hash(), expected);
    assert_eq!(cache.last_updated(), Some(777));
}

#[test]
fn update_stores_every_name_once() {
    let mut cache = ProcessCache::new();
    cache.update_with_change_detection(
        vec![detected("chrome", 2), detected("code", 1), detected("chrome", 2), detected("chrome", 2)],
        1,
    );
    assert_eq!(
        listed(&cache.processes()),
        vec![("chrome".to_string(), 2), ("code".to_string(), 1)]
    );
}

#[test]
fn update_keeps_the_last_tier_of_a_name() {
    let mut cache = ProcessCache::new();
    cache.update_with_change_detection(
        vec![detected("zen", 2), detected("code", 1), detected("zen", 9)],
        1,
    );
    assert_eq!(listed(&cache.processes()), vec![("zen".to_string(), 9), ("code".to_string(), 1)]);
}

#[test]
fn update_replaces_the_scan_before() {
    let mut cache = ProcessCache::new();
    cache.update_with_change_detection(vec![detected("zen", 2), detected("code", 1)], 1);
    cache.update_with_change_detection(vec![detected("vlc", 3)], 2);
    assert_eq!(listed(&cache.processes()), vec![("vlc".to_string(), 3)]);
}

#[test]
fn cached_matches_follow_the_watch_list() {
    let mut cache = ProcessCache::new();
    cache.update_with_change_detection(
        vec![detected("code", 1), detected("zen", 2), detected("vlc", 3)],
        1,
    );
    let all = cache.cached_matches(&usual_watch());
    assert_eq!(
        listed(&all),
        vec![("code".to_string(), 1), ("zen".to_string(), 2), ("vlc".to_string(), 3)]
    );
    let some = cache.cached_matches(&[watched("zen", 5), watched("v", 1)]);
    assert_eq!(listed(&some), vec![("zen".to_string(), 2), ("vlc".to_string(), 3)]);
    assert!(cache.cached_matches(&[]).is_empty());
}

#[test]
fn copy_of_a_list_is_equal_to_it() {
    let apps = vec![detected("code", 1), detected("zen", 2)];
    assert_eq!(listed(&clone_apps(&apps)), listed(&apps));
    assert!(clone_apps(&[]).is_empty());
}

#[test]
fn first_lookup_scans_and_sorts_by_tier() {
    let mut cache = ProcessCache::new();
    let resolved = resolved_names(&["bash", "vlc", "zen", "code", "init", "discord"]);
    let (apps, changed) = get_running_apps_optimized(&usual_watch(), &mut cache, &resolved, 1000);
    assert!(changed);
    assert_eq!(
        listed(&apps),
        vec![
            ("code".to_string(), 1),
            ("discord".to_string(), 1),
            ("zen".to_string(), 2),
            ("vlc".to_string(), 3),
        ]
    );
    assert_eq!(cache.last_updated(), Some(1000));
    assert_eq!(cache.last_process_count(), 4);
}

#[test]
fn lookup_gives_counts_and_signs_every_name_once() {
    let mut cache = ProcessCache::new();
    let resolved = resolved_names(&["chrome", "zen", "chrome", "chrome"]);
    let watch = vec![watched("chrome", 2), watched("zen", 2)];
    let (apps, changed) = get_running_apps_optimized(&watch, &mut cache, &resolved, 1000);
    assert!(changed);
    assert_eq!(listed(&apps), vec![("chrome".to_string(), 2), ("zen".to_string(), 2)]);
    assert_eq!(cache.last_process_count(), 2);
    assert_eq!(cache.last_process_count(), apps.len());
    assert_eq!(cache.process_list_hash(), ProcessCache::calculate_process_hash(&apps));
    assert_eq!(listed(&cache.processes()), listed(&apps));
    assert_eq!(cache.last_updated(), Some(1000));
}

#[test]
fn two_processes_of_one_application_are_one_match() {
    let mut cache = ProcessCache::new();
    let watch = vec![watched("code", 1)];
    let (apps, changed) =
        get_running_apps_optimized(&watch, &mut cache, &resolved_names(&["code", "code"]), 0);
    assert!(changed);
    assert_eq!(listed(&apps), vec![("code".to_string(), 1)]);
    assert_eq!(cache.last_process_count(), 1);
    assert_eq!(cache.process_list_hash(), signature_of(&[detected("code", 1)]));
}

#[test]
fn fewer_processes_of_the_same_applications_are_no_change() {
    let mut cache = ProcessCache::new();
    let watch = vec![watched("code", 1)];
    let (first, _) =
        get_running_apps_optimized(&watch, &mut cache, &resolved_names(&["code", "code"]), 0);
    let (second, changed) =
        get_running_apps_optimized(&watch, &mut cache, &resolved_names(&["code"]), 1000);
    assert!(!changed);
    assert_eq!(listed(&second), listed(&first));
    assert_eq!(cache.last_updated(), Some(1000));
    let (third, changed) = get_running_apps_optimized(
        &watch,
        &mut cache,
        &resolved_names(&["code", "bash", "code", "code"]),
        2000,
    );
    assert!(!changed);
    assert_eq!(listed(&third), listed(&first));
}

#[test]
fn change_flag_follows_the_returned_matches() {
    let mut cache = ProcessCache::new();
    let watch = usual_watch();
    let mut before: Vec<(String, u32)> = Vec::new();
    let scans: [&[&str]; 7] = [
        &["zen"],
        &["zen", "zen"],
        &["zen", "code"],
        &["code", "zen", "code"],
        &["code"],
        &[],
        &["bash"],
    ];
    let mut now = 1000;
    for names in scans {
        let (apps, changed) =
            get_running_apps_optimized(&watch, &mut cache, &resolved_names(names), now);
        let mut after = listed(&apps);
        after.sort();
        assert_eq!(changed, after != before, "{:?}", names);
        assert_eq!(cache.last_process_count(), apps.len());
        assert_eq!(cache.process_list_hash(), signature_of(&apps));
        before = after;
        now += 1000;
    }
}

#[test]
fn keying_stores_every_name_once() {
    let keyed = key_by_name(&[
        detected("chrome", 2),
        detected("code", 1),
        detected("chrome", 2),
        detected("code", 7),
    ]);
    assert_eq!(listed(&keyed), vec![("chrome".to_string(), 2), ("code".to_string(), 7)]);
    assert!(key_by_name(&[]).is_empty());
    let again = key_by_name(&keyed);
    assert_eq!(listed(&again), listed(&keyed));
}

#[test]
fn second_lookup_within_ttl_is_answered_from_the_snapshot() {
    let mut cache = ProcessCache::new();
    let watch = usual_watch();
    let (first, _) =
        get_running_apps_optimized(&watch, &mut cache, &resolved_names(&["zen", "code"]), 1000);
    let hash = cache.process_list_hash();
    let (second, changed) =
        get_running_apps_optimized(&watch, &mut cache, &resolved_names(&["vlc"]), 1500);
    assert!(!changed);
    assert_eq!(listed(&second), listed(&first));
    assert_eq!(listed(&second), vec![("code".to_string(), 1), ("zen".to_string(), 2)]);
    assert_eq!(cache.last_updated(), Some(1000));
    assert_eq!(cache.process_list_hash(), hash);
    let (third, changed) =
        get_running_apps_optimized(&watch, &mut cache, &resolved_names(&[]), 1999);
    assert!(!changed);
    assert_eq!(listed(&third), listed(&first));
}

#[test]
fn lookup_after_ttl_scans_again() {
    let mut cache = ProcessCache::new();
    let watch = usual_watch();
    get_running_apps_optimized(&watch, &mut cache, &resolved_names(&["zen", "code"]), 1000);
    let (apps, changed) =
        get_running_apps_optimized(&watch, &mut cache, &resolved_names(&["vlc"]), 2000);
    assert!(changed);
    assert_eq!(listed(&apps), vec![("vlc".to_string(), 3)]);
    assert_eq!(cache.last_updated(), Some(2000));
}

#[test]
fn lookup_of_unchanged_processes_reports_no_change() {
    let mut cache = ProcessCache::new();
    let watch = usual_watch();
    get_running_apps_optimized(&watch, &mut cache, &resolved_names(&["zen", "x", "code"]), 1000);
    let (apps, changed) =
        get_running_apps_optimized(&watch, &mut cache, &resolved_names(&["code", "y", "zen"]), 2000);
    assert!(!changed);
    assert_eq!(listed(&apps), vec![("code".to_string(), 1), ("zen".to_string(), 2)]);
    assert_eq!(cache.last_updated(), Some(2000));
}

#[test]
fn unreadable_process_table_gives_an_empty_scan() {
    let mut cache = ProcessCache::new();
    let watch = usual_watch();
    let (apps, changed) = get_running_apps_optimized(&watch, &mut cache, &[], 1000);
    assert!(apps.is_empty());
    assert!(!changed);
    get_running_apps_optimized(&watch, &mut cache, &resolved_names(&["zen"]), 2000);
    let (apps, changed) = get_running_apps_optimized(&watch, &mut cache, &[], 3000);
    assert!(apps.is_empty());
    assert!(changed);
}

#[test]
fn cached_lookup_filters_by_the_current_watch_list() {
    let mut cache = ProcessCache::new();
    get_running_apps_optimized(&usual_watch(), &mut cache, &resolved_names(&["zen", "code"]), 1000);
    let (apps, changed) =
        get_running_apps_optimized(&[watched("zen", 2)], &mut cache, &resolved_names(&[]), 1200);
    assert!(!changed);
    assert_eq!(listed(&apps), vec![("zen".to_string(), 2)]);
}
