use lantern::notifier::{alert_urls, ntfy_url, test_alert_result};

#[test]
fn topic_addresses() {
    assert_eq!(ntfy_url("alerts"), "https://ntfy.sh/alerts");
    assert_eq!(ntfy_url("https://push.example.com/alerts"), "https://push.example.com/alerts");
    let urls = alert_urls(&vec![" alerts ".to_string(), "  ".to_string(), "https://x/y".to_string()]);
    assert_eq!(urls, vec!["https://ntfy.sh/alerts".to_string(), "https://x/y".to_string()]);
}

#[test]
fn test_notification_results() {
    assert_eq!(test_alert_result(true, "200 OK", ""), Ok("Test notification sent successfully".to_string()));
    assert_eq!(test_alert_result(false, "403 Forbidden", "denied"), Err("HTTP 403 Forbidden: denied".to_string()));
}
