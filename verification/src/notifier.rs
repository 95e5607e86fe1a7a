//! Push notifications through ntfy: where each alert goes, and what the
//! test notification reports.
use vstd::prelude::*;

use crate::text::{contains_char, has_char, join2, strings_view, trim, trim_seq};

verus! {

/// Where a notification for `topic` is posted: the topic itself when it is
/// an address (holds a `/`), else the topic on ntfy.sh.
pub open spec fn ntfy_url_of(topic: Seq<char>) -> Seq<char> {
    if has_char(topic, '/') {
        topic
    } else {
        "https://ntfy.sh/"@ + topic
    }
}

/// Where a notification for `topic` is posted.
pub fn ntfy_url(topic: &str) -> (r: String)
    ensures
        r@ == ntfy_url_of(topic@),
{
    if contains_char(topic, '/') {
        String::from_str(topic)
    } else {
        join2("https://ntfy.sh/", topic)
    }
}

/// The addresses that an alert is posted to, one per stored topic that is
/// not blank, in order; topics are taken without surrounding white space.
pub open spec fn alert_urls_of(topics: Seq<Seq<char>>) -> Seq<Seq<char>>
    decreases topics.len(),
{
    if topics.len() == 0 {
        seq![]
    } else {
        let init = alert_urls_of(topics.drop_last());
        let t = trim_seq(topics.last());
        if t.len() == 0 {
            init
        } else {
            init.push(ntfy_url_of(t))
        }
    }
}

/// The addresses that an alert is posted to, for the stored topics of a user.
pub fn alert_urls(topics: &Vec<String>) -> (r: Vec<String>)
    ensures
        strings_view(r@) == alert_urls_of(strings_view(topics@)),
{
    let mut out: Vec<String> = Vec::new();
    let ghost views = strings_view(topics@);
    let n = topics.len();
    for i in 0..n
        invariant
            n == topics@.len(),
            views == strings_view(topics@),
            strings_view(out@) == alert_urls_of(views.take(i as int)),
    {
        assert(views.take(i + 1).drop_last() =~= views.take(i as int));
        assert(views.take(i + 1).last() == topics@[i as int]@);
        let topic = trim(topics[i].as_str());
        if topic.as_str().unicode_len() != 0 {
            let url = ntfy_url(topic.as_str());
            let ghost prev = out@;
            out.push(url);
            assert(strings_view(out@) =~= strings_view(prev).push(url@));
        }
    }
    assert(views.take(n as int) =~= views);
    out
}

/// What sending the test notification reports: `status` and `body` are the
/// reply's status line and text when it is not a success.
pub fn test_alert_result(success: bool, status: &str, body: &str) -> (r: Result<String, String>)
    ensures
        success ==> (r matches Ok(m) && m@ == "Test notification sent successfully"@),
        !success ==> (r matches Err(m) && m@ == "HTTP "@ + status@ + ": "@ + body@),
{
    if success {
        Ok(String::from_str("Test notification sent successfully"))
    } else {
        Err(join2("HTTP ", status).concat(": ").concat(body))
    }
}

} // verus!
