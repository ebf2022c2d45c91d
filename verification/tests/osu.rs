use cuchabot::activity::{ThreadHandler, UserActivity};
use cuchabot::osu_data::{get_users, OsuData, OsuUser, SessionInfo};
use cuchabot::score::{ComboBadge, PpCheck};

fn user(name: &str, online: bool, rank: Option<u32>) -> OsuUser {
    OsuUser {
        username: name.to_string(),
        is_online: online,
        global_rank: rank,
        level: 100,
        avatar_url: format!("https://a.ppy.sh/{}", name),
    }
}

fn data_with(names: &[&str]) -> OsuData {
    let mut d = OsuData::new(42, "secret".to_string());
    for n in names {
        d.insert_player(n.to_string(), SessionInfo::new_with_user(user(n, false, Some(1000))));
    }
    d
}

#[test]
fn new_data_is_empty() {
    let d = OsuData::new(7, "s".to_string());
    assert_eq!(d.osu_info, (7, "s".to_string()));
    assert!(!d.watching_gameplay);
    assert!(get_users(&d).is_empty());
}

#[test]
fn insert_player_replaces_same_name() {
    let mut d = data_with(&["xeamx", "Neme"]);
    d.insert_player("xeamx".to_string(), SessionInfo::new_with_user(user("xeamx", true, Some(5))));
    assert_eq!(get_users(&d), vec!["xeamx".to_string(), "Neme".to_string()]);
    assert_eq!(d.session("xeamx").unwrap().initial_user.global_rank, Some(5));
}

#[test]
fn flags_by_name() {
    let mut d = data_with(&["xeamx", "Neme"]);
    d.set_is_playing("Neme");
    assert_eq!(d.get_currently_playing(), 1);
    d.set_should_report("Neme");
    assert!(d.get_should_report("Neme"));
    assert!(!d.get_should_report("xeamx"));
    assert!(!d.get_should_report("nobody"));
    d.set_is_playing("nobody");
    assert_eq!(d.get_currently_playing(), 1);
    d.reset_session("Neme");
    assert!(!d.get_should_report("Neme"));
    assert_eq!(d.get_currently_playing(), 0);
}

#[test]
fn init_session_sets_both_profiles() {
    let mut d = data_with(&["xeamx"]);
    d.init_session("xeamx", &user("xeamx", true, Some(900)));
    let s = d.session("xeamx").unwrap();
    assert_eq!(s.initial_user.global_rank, Some(900));
    assert_eq!(s.updated_user.global_rank, Some(900));
}

#[test]
fn online_then_offline_poll_sends_a_recap() {
    let mut d = data_with(&["xeamx", "Neme"]);
    let step = UserActivity::user_activity(&mut d, &user("xeamx", true, Some(800)));
    assert!(step.check_pp);
    assert!(step.session_started);
    assert_eq!(step.watch.as_deref(), Some("xeamx"));
    assert!(step.report.is_none());
    assert!(d.watching_gameplay);
    assert!(d.get_should_report("xeamx"));

    // a second online poll does not restart the session
    let step = UserActivity::user_activity(&mut d, &user("xeamx", true, Some(700)));
    assert!(!step.session_started);
    assert_eq!(step.watch.as_deref(), Some("xeamx"));
    assert_eq!(d.session("xeamx").unwrap().initial_user.global_rank, Some(800));

    UserActivity::update_session(&mut d, &user("xeamx", true, Some(750)));
    let s = d.session("xeamx").unwrap();
    assert_eq!(s.improvement_counter, 1);
    assert_eq!(s.updated_user.global_rank, Some(750));

    let step = UserActivity::user_activity(&mut d, &user("xeamx", false, Some(750)));
    assert!(!step.check_pp);
    assert!(step.watch.is_none());
    let report = step.report.unwrap();
    assert_eq!(report.initial_user.global_rank, Some(800));
    assert_eq!(report.improvement_counter, 1);
    assert!(!d.get_should_report("xeamx"));
    assert_eq!(d.get_currently_playing(), 0);

    assert!(ThreadHandler::reset_activity_if_idle(&mut d));
    assert!(!d.watching_gameplay);
    assert!(!ThreadHandler::reset_activity_if_idle(&mut d));
}

#[test]
fn second_player_online_does_not_change_status() {
    let mut d = data_with(&["xeamx", "Neme"]);
    UserActivity::user_activity(&mut d, &user("xeamx", true, Some(1)));
    let step = UserActivity::user_activity(&mut d, &user("Neme", true, Some(2)));
    assert!(step.watch.is_none());
    assert_eq!(d.get_currently_playing(), 2);
    assert!(!ThreadHandler::reset_activity_if_idle(&mut d));
}

#[test]
fn offline_without_session_reports_nothing() {
    let mut d = data_with(&["xeamx"]);
    let step = UserActivity::user_activity(&mut d, &user("xeamx", false, None));
    assert!(step.report.is_none());
    assert!(!step.check_pp);
}

#[test]
fn rank_gain_and_recap_text() {
    let mut s = SessionInfo::new_with_user(user("Neme", true, Some(10_000)));
    s.updated_user = user("Neme", true, Some(1_244_567));
    assert_eq!(s.get_rank_gain(), 1_234_567);
    assert_eq!(s.rank_gain_text(), "+1,234,567");
    assert_eq!(s.recap_title(), "Neme session recap");
}

#[test]
fn combo_badges() {
    assert_eq!(PpCheck::combo_badge(true, 3, 4), ComboBadge::Perfect);
    assert_eq!(PpCheck::combo_badge(false, 0, 0), ComboBadge::FullCombo);
    assert_eq!(PpCheck::combo_badge(false, 0, 1), ComboBadge::Nothing);
    assert_eq!(PpCheck::combo_badge(false, 2, 0), ComboBadge::Nothing);
}

#[test]
fn latest_score_picks_last_of_ties() {
    assert_eq!(PpCheck::latest_score_index(&vec![5, 9, 3, 9, 1]), 3);
    assert_eq!(PpCheck::latest_score_index(&vec![-4]), 0);
    assert_eq!(PpCheck::latest_score_index(&vec![10, 2]), 0);
}
