use holograph_server::lobby::GameRank;
use holograph_server::state::{
    filter_swearwords, load_game_ranks, ConnectionIds, DoorbellAnswers, RankCache, RecyclerCache, RecyclerStatus,
    RuntimeConfig, StringCache, session_text,
};

fn strings(v: &[&str]) -> Vec<String> {
    v.iter().map(|s| s.to_string()).collect()
}

#[test]
fn runtime_defaults() {
    let c = RuntimeConfig::default();
    assert_eq!(c.game_port, 30000);
    assert_eq!(c.game_max_connections, 2000);
    assert_eq!(c.mus_port, Some(30001));
    assert_eq!(c.mus_host.as_deref(), Some("127.0.0.1"));
    assert_eq!(c.lang, "en");
    assert_eq!(c.game_countdown_seconds, 6);
    assert!(c.enable_trading && c.enable_welcome_message && !c.enable_word_filter);
}

#[test]
fn strings_fall_back_to_their_keys() {
    let mut cache = StringCache::default();
    cache.load_entries(&strings(&["a", "", "b", "a"]), &strings(&["A", "x", "", "A2"]));
    assert_eq!(cache.get_string("a"), "A2");
    assert_eq!(cache.get_string("b"), "b");
    assert_eq!(cache.get_string("zzz"), "zzz");
    assert_eq!(cache.entries.len(), 2);
}

#[test]
fn word_filter_censors_each_word() {
    let words = strings(&["darn", "heck"]);
    assert_eq!(filter_swearwords("Darn it, HECK!", true, &words, "***").as_deref(), Some("*** it, ***!"));
    assert_eq!(filter_swearwords("Darn it", false, &words, "***").as_deref(), Some("Darn it"));
}

#[test]
fn rank_rights_and_titles() {
    let mut cache = RankCache::default();
    cache.user_ranks.insert(2, strings(&["fuse_login", "fuse_alert"]));
    cache.game_ranks_bb = load_game_ranks(&strings(&["rookie", "pro"]), &[0, 100], &[99]);
    assert_eq!(cache.fuse_rights(2), "fuse_login\u{2}fuse_alert\u{2}");
    assert_eq!(cache.fuse_rights(5), "");
    assert!(cache.contains_right(2, "fuse_alert"));
    assert!(!cache.contains_right(2, "fuse_ban"));
    assert_eq!(cache.get_game_rank_title(true, 50), "rookie");
    assert_eq!(cache.get_game_rank_title(true, 5000), "pro");
    assert_eq!(cache.get_game_rank_title(false, 5), "holo.cast.gamerank.null");
    let pro = cache.get_game_rank(true, "pro");
    assert_eq!((pro.min_points, pro.max_points), (100, 0));
    let none: GameRank = cache.get_game_rank(true, "legend");
    assert_eq!(none.title, "holo.cast.gamerank.null");
}

#[test]
fn recycler_session_states() {
    let mut c = RecyclerCache::default();
    c.enabled = true;
    c.session_length = 60;
    c.session_expire_length = 120;
    c.session_rewards.insert(5, 77);
    assert!(c.reward_exists(5));
    assert_eq!(c.session_reward(5), Some(77));
    assert_eq!(c.session_reward(6), None);
    assert_eq!(c.session_status(true, 10), RecyclerStatus::Recycling);
    assert_eq!(c.session_status(true, 61), RecyclerStatus::Ready);
    assert_eq!(c.session_status(true, 121), RecyclerStatus::Expired);
    assert_eq!(c.session_status(true, 60), RecyclerStatus::Idle);
    assert_eq!(c.session_status(false, 10), RecyclerStatus::Idle);
    assert!(c.session_ready(true, 61));
    assert!(!c.session_ready(true, 120));
    assert_eq!(session_text(RecyclerStatus::Recycling, "duck", 50), "IHduck\u{2}RL");
    assert_eq!(session_text(RecyclerStatus::Expired, "duck", 0), "K");
}

#[test]
fn doorbell_answer_is_used_once() {
    let mut d = DoorbellAnswers::new();
    d.record(1, 10);
    assert!(!d.consume(1, 11));
    assert!(d.consume(1, 10));
    assert!(!d.consume(1, 10));
}

#[test]
fn connection_ids_start_at_one_and_are_reused() {
    let mut ids = ConnectionIds::new();
    assert_eq!(ids.allocate(3), Some(1));
    assert_eq!(ids.allocate(3), Some(2));
    assert_eq!(ids.allocate(3), None);
    ids.free(1);
    assert_eq!(ids.allocate(3), Some(1));
}

#[test]
fn cleared_doorbell_answer_is_gone() {
    let mut d = DoorbellAnswers::new();
    d.record(4, 9);
    d.clear(4);
    assert!(!d.consume(4, 9));
    d.record(4, 9);
    d.clear(5);
    assert!(d.consume(4, 9));
}
