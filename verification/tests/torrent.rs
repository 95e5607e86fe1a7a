use lantern::torrent::{
    blacklist_on_removal, download_url_from_page, hitnrun_action, is_duplicate_torrent_error,
    parse_hitnrun_html, query_id, reannounce_after_alert, resolve_download_href, session_plan,
    status_for_state, status_update_for_alert, HitnrunAction, HitnrunReport, NcoreHitnrunTorrent,
    SessionPlan, TorrentAlert, TorrentState, TorrentStatus,
};

fn torrent(id: &str, name: &str, timespent: Option<&str>, seed: Option<&str>) -> NcoreHitnrunTorrent {
    NcoreHitnrunTorrent {
        ncore_id: id.to_string(),
        name: name.to_string(),
        hnr_timespent: timespent.map(String::from),
        hnr_seed: seed.map(String::from),
        download_url: format!("torrents.php?action=details&id={}", id),
    }
}

#[test]
fn link_ids() {
    assert_eq!(query_id("torrents.php?action=details&id=123"), Some("123".to_string()));
    assert_eq!(query_id("torrents.php?id=7&x=1"), Some("7".to_string()));
    assert_eq!(query_id("torrents.php?id=&x=1"), Some("".to_string()));
    assert_eq!(query_id("torrents.php?ids=7&id=9"), Some("9".to_string()));
    assert_eq!(query_id("torrents.php?id&id=5"), Some("5".to_string()));
    assert_eq!(query_id("torrents.php?x=1?id=2"), None);
    assert_eq!(query_id("torrents.php?a=1&b=2"), None);
    assert_eq!(query_id("torrents.php"), None);
    assert_eq!(query_id("a?b?id=3"), None);
    assert_eq!(query_id("?id=a=b"), Some("a=b".to_string()));
}

const PAGE: &str = r#"<html><body><table>
<tr class="hnr_all"><td class="hnr_tname"><a href="torrents.php?action=details&amp;id=111"> First Movie </a></td>
<td class="hnr_ttimespent"> 2h 10m </td><td class="hnr_tseed">Stopped</td></tr>
<tr class="hnr_all2"><td class="hnr_tname"><a href="torrents.php?action=details&amp;id=222">Second</a></td>
<td class="hnr_ttimespent">-</td><td class="hnr_tseed">Seeding</td></tr>
<tr class="hnr_all"><td class="hnr_tname"><a href="index.php">No id</a></td></tr>
<tr class="other"><td class="hnr_tname"><a href="torrents.php?id=333">Not a row</a></td></tr>
</table></body></html>"#;

#[test]
fn hitnrun_page_rows() {
    let rows = parse_hitnrun_html(PAGE).unwrap();
    assert_eq!(rows.len(), 2);
    assert_eq!(rows[0].ncore_id, "111");
    assert_eq!(rows[0].name, "First Movie");
    assert_eq!(rows[0].hnr_timespent.as_deref(), Some("2h 10m"));
    assert_eq!(rows[0].hnr_seed.as_deref(), Some("Stopped"));
    assert_eq!(rows[0].download_url, "torrents.php?action=details&id=111");
    assert_eq!(rows[1].ncore_id, "222");
    assert_eq!(rows[1].hnr_timespent.as_deref(), Some("-"));
    assert!(parse_hitnrun_html("<html></html>").unwrap().is_empty());
}

#[test]
fn hitnrun_decisions() {
    let stopped = torrent("1", "a", Some("3h"), Some("Stopped"));
    assert_eq!(hitnrun_action(true, &None, &stopped), HitnrunAction::Skip);
    assert_eq!(hitnrun_action(false, &None, &stopped), HitnrunAction::Queue);
    let done = torrent("1", "a", Some("-"), Some("Stopped"));
    assert_eq!(hitnrun_action(false, &None, &done), HitnrunAction::Ignore);
    let seeding = torrent("1", "a", Some("3h"), Some("Seeding"));
    assert_eq!(hitnrun_action(false, &None, &seeding), HitnrunAction::Ignore);
    let no_time = torrent("1", "a", None, Some("Stopped"));
    assert_eq!(hitnrun_action(false, &None, &no_time), HitnrunAction::Ignore);
    let finished = torrent("1", "a", Some("-"), Some("Seeding"));
    assert_eq!(hitnrun_action(false, &Some("seeding".to_string()), &finished), HitnrunAction::MarkComplete);
    assert_eq!(hitnrun_action(false, &Some("complete".to_string()), &finished), HitnrunAction::Ignore);
    assert_eq!(hitnrun_action(false, &Some("downloading".to_string()), &seeding), HitnrunAction::Refresh);
    assert_eq!(hitnrun_action(false, &Some("pending".to_string()), &seeding), HitnrunAction::Refresh);
    assert_eq!(hitnrun_action(false, &Some("failed".to_string()), &seeding), HitnrunAction::Ignore);
}

#[test]
fn hitnrun_report_summary() {
    let mut report = HitnrunReport::new();
    let s = report.summary();
    assert_eq!(s.status, "info");
    assert_eq!(s.message, "No changes");

    report.record(&torrent("1", "Alpha", Some("3h"), Some("Stopped")), false, &None);
    report.record(&torrent("2", "Beta", Some("1h"), Some("Stopped")), false, &None);
    report.record(&torrent("3", "Gamma", Some("-"), Some("Seeding")), false, &Some("seeding".to_string()));
    report.record(&torrent("4", "Delta", Some("3h"), Some("Stopped")), true, &None);
    assert_eq!(report.added, vec!["#1 Alpha".to_string(), "#2 Beta".to_string()]);
    assert_eq!(report.completed, vec!["#3 Gamma".to_string()]);
    let s = report.summary();
    assert_eq!(s.status, "success");
    assert_eq!(s.message, "Added: #1 Alpha, #2 Beta | Completed: #3 Gamma");

    let mut only_done = HitnrunReport::new();
    only_done.record(&torrent("9", "Z", Some("-"), None), false, &Some("pending".to_string()));
    assert_eq!(only_done.summary().message, "Completed: #9 Z");
}

#[test]
fn download_links() {
    assert_eq!(resolve_download_href("https://ncore.pro", "https://x/y"), "https://x/y");
    assert_eq!(resolve_download_href("https://ncore.pro", "//torrents.php?a=1"), "https://ncore.pro/torrents.php?a=1");
    assert_eq!(resolve_download_href("https://ncore.pro", "dl.php"), "https://ncore.pro/dl.php");
    let page = r#"<div class="download"><a href="/torrents.php?action=download&id=5">get</a></div>"#;
    assert_eq!(
        download_url_from_page(page, "https://ncore.pro", "5"),
        Ok("https://ncore.pro/torrents.php?action=download&id=5".to_string())
    );
    assert_eq!(
        download_url_from_page("<p>nothing</p>", "https://ncore.pro", "5"),
        Err("could not find download link for ncore_id 5".to_string())
    );
    let no_href = r#"<div class="download"><a>get</a></div>"#;
    assert!(download_url_from_page(no_href, "https://ncore.pro", "6").is_err());
}

#[test]
fn duplicate_add_errors() {
    assert!(is_duplicate_torrent_error("Duplicate torrent"));
    assert!(is_duplicate_torrent_error("torrent already added"));
    assert!(!is_duplicate_torrent_error("invalid bencode"));
}

#[test]
fn session_states_map_to_statuses() {
    assert_eq!(status_for_state(TorrentState::Seeding), TorrentStatus::Seeding);
    assert_eq!(status_for_state(TorrentState::Complete), TorrentStatus::Seeding);
    assert_eq!(status_for_state(TorrentState::Sharing), TorrentStatus::Seeding);
    assert_eq!(status_for_state(TorrentState::Checking), TorrentStatus::Downloading);
    assert_eq!(status_for_state(TorrentState::FetchingMetadata), TorrentStatus::Downloading);
    assert_eq!(status_for_state(TorrentState::Paused), TorrentStatus::Paused);
    assert_eq!(status_for_state(TorrentState::Queued), TorrentStatus::Pending);
    assert_eq!(status_for_state(TorrentState::Stopped), TorrentStatus::Failed);
    assert_eq!(TorrentStatus::Failed.as_str(), "failed");
    assert_eq!(TorrentStatus::Seeding.as_str(), "seeding");
}

#[test]
fn alerts_update_and_reannounce() {
    let changed = TorrentAlert::StateChanged { info_hash: "ab".to_string(), new_state: TorrentState::Seeding };
    let u = status_update_for_alert(&changed).unwrap();
    assert_eq!(u.info_hash, "ab");
    assert_eq!(u.status, TorrentStatus::Seeding);
    assert!(u.only_if_changed);
    assert!(reannounce_after_alert(&changed, 1));
    assert!(!reannounce_after_alert(&changed, 0));
    let paused = TorrentAlert::StateChanged { info_hash: "ab".to_string(), new_state: TorrentState::Paused };
    assert!(!reannounce_after_alert(&paused, 1));
    let finished = TorrentAlert::Finished { info_hash: "cd".to_string() };
    let u = status_update_for_alert(&finished).unwrap();
    assert_eq!(u.status, TorrentStatus::Seeding);
    assert!(!u.only_if_changed);
    assert!(reannounce_after_alert(&finished, 0));
    assert!(status_update_for_alert(&TorrentAlert::Other).is_none());
    assert!(!reannounce_after_alert(&TorrentAlert::Other, 3));
}

#[test]
fn session_start_and_stop() {
    assert_eq!(session_plan(1, 0, false), SessionPlan::Start);
    assert_eq!(session_plan(0, 2, false), SessionPlan::Start);
    assert_eq!(session_plan(0, 0, true), SessionPlan::Stop);
    assert_eq!(session_plan(0, 0, false), SessionPlan::Keep);
    assert_eq!(session_plan(3, 1, true), SessionPlan::Keep);
}

#[test]
fn removal_blacklists_seeding_torrents() {
    assert!(blacklist_on_removal(Some(true)));
    assert!(!blacklist_on_removal(Some(false)));
    assert!(!blacklist_on_removal(None));
}
