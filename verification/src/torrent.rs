//! nCore Hit-and-Run tracking: reading the Hit-and-Run page, deciding what to
//! do with each listed torrent, and driving the BitTorrent session.
use vstd::prelude::*;

use crate::text::{
    chars_of, find_char_from, join, join3, lemma_find_char_from_bounds, opt_str_eq, seq_join, str_eq, strings_view, substring,
    trim, trim_seq, contains, contains_seq, starts_with, starts_with_seq, join2, trim_start_char,
    trim_start_matches_char,
};

verus! {

// ----- Reading links -----

/// The query of a link: the text after its first `?`, up to the next `?`.
pub open spec fn query_of(href: Seq<char>) -> Option<Seq<char>> {
    match find_char_from(href, '?', 0) {
        None => None,
        Some(i) => {
            let rest = href.subrange(i + 1, href.len() as int);
            match find_char_from(rest, '?', 0) {
                None => Some(rest),
                Some(j) => Some(rest.subrange(0, j)),
            }
        },
    }
}

/// The value of a `key=value` parameter, if `p` is one for `key`.
pub open spec fn param_value(p: Seq<char>, key: Seq<char>) -> Option<Seq<char>> {
    match find_char_from(p, '=', 0) {
        None => None,
        Some(k) => if p.subrange(0, k) == key {
            Some(p.subrange(k + 1, p.len() as int))
        } else {
            None
        },
    }
}

/// The value of the first `&`-separated parameter of `q` named `key`.
pub open spec fn find_param(q: Seq<char>, key: Seq<char>) -> Option<Seq<char>>
    decreases q.len(),
{
    match find_char_from(q, '&', 0) {
        None => param_value(q, key),
        Some(i) => {
            proof {
                lemma_find_char_from_bounds(q, '&', 0);
            }
            match param_value(q.subrange(0, i), key) {
                Some(v) => Some(v),
                None => find_param(q.subrange(i + 1, q.len() as int), key),
            }
        },
    }
}

/// The `id` query parameter of a link.
pub open spec fn href_query_id(href: Seq<char>) -> Option<Seq<char>> {
    match query_of(href) {
        None => None,
        Some(q) => find_param(q, seq!['i', 'd']),
    }
}

/// The first index in `cs[from..to]` holding `c`.
fn find_char_between(cs: &Vec<char>, c: char, from: usize, to: usize) -> (r: Option<usize>)
    requires
        from <= to <= cs@.len(),
    ensures
        match find_char_from(cs@.subrange(from as int, to as int), c, 0) {
            Some(i) => r == Some((i + from) as usize),
            None => r is None,
        },
        r matches Some(i) ==> from <= i < to,
{
    let ghost sub = cs@.subrange(from as int, to as int);
    let mut i = from;
    while i < to
        invariant
            from <= i <= to <= cs@.len(),
            sub == cs@.subrange(from as int, to as int),
            find_char_from(sub, c, 0) == find_char_from(sub, c, i - from),
        decreases to - i,
    {
        assert(sub[i - from] == cs@[i as int]);
        if cs[i] == c {
            return Some(i);
        }
        i = i + 1;
    }
    None
}

#[verifier::loop_isolation(false)]
/// The bounds in `cs` of the value of `cs[a..b]` read as a parameter named `key`.
fn param_value_between(cs: &Vec<char>, key: &Vec<char>, a: usize, b: usize) -> (r: Option<
    (usize, usize),
>)
    requires
        a <= b <= cs@.len(),
    ensures
        match param_value(cs@.subrange(a as int, b as int), key@) {
            Some(v) => r matches Some((x, y)) && x <= y <= cs@.len() && cs@.subrange(
                x as int,
                y as int,
            ) == v,
            None => r is None,
        },
{
    let ghost p = cs@.subrange(a as int, b as int);
    proof {
        lemma_find_char_from_bounds(p, '=', 0);
    }
    match find_char_between(cs, '=', a, b) {
        None => None,
        Some(k) => {
            assert(p.subrange(0, k - a) =~= cs@.subrange(a as int, k as int));
            assert(p.subrange(k - a + 1, p.len() as int) =~= cs@.subrange(k + 1, b as int));
            if k - a != key.len() {
                return None;
            }
            let mut i: usize = 0;
            while i < key.len()
                invariant
                    a <= k < b <= cs@.len(),
                    k - a == key@.len(),
                    i <= key@.len(),
                    forall|m: int| 0 <= m < i ==> cs@[a + m] == key@[m],
                decreases key.len() - i,
            {
                if cs[a + i] != key[i] {
                    assert(cs@.subrange(a as int, k as int)[i as int] != key@[i as int]);
                    return None;
                }
                i = i + 1;
            }
            assert(cs@.subrange(a as int, k as int) =~= key@);
            Some((k + 1, b))
        },
    }
}

/// The bounds in `cs` of the query of the link `cs`.
fn query_bounds(cs: &Vec<char>) -> (r: Option<(usize, usize)>)
    ensures
        match query_of(cs@) {
            Some(q) => r matches Some((x, y)) && x <= y <= cs@.len() && cs@.subrange(
                x as int,
                y as int,
            ) == q,
            None => r is None,
        },
{
    let n = cs.len();
    proof {
        lemma_find_char_from_bounds(cs@, '?', 0);
    }
    assert(cs@.subrange(0, n as int) =~= cs@);
    let q1 = match find_char_between(cs, '?', 0, n) {
        None => {
            return None;
        },
        Some(i) => i,
    };
    let qs = q1 + 1;
    let ghost rest = cs@.subrange(qs as int, n as int);
    proof {
        lemma_find_char_from_bounds(rest, '?', 0);
    }
    match find_char_between(cs, '?', qs, n) {
        None => Some((qs, n)),
        Some(j) => {
            assert(rest.subrange(0, j - qs) =~= cs@.subrange(qs as int, j as int));
            Some((qs, j))
        },
    }
}

/// The bounds in `cs` of the value of the first parameter named `key` among the
/// `&`-separated parameters of `cs[qs..qe]`.
fn find_param_between(cs: &Vec<char>, key: &Vec<char>, qs: usize, qe: usize) -> (r: Option<
    (usize, usize),
>)
    requires
        qs <= qe <= cs@.len(),
    ensures
        match find_param(cs@.subrange(qs as int, qe as int), key@) {
            Some(v) => r matches Some((x, y)) && x <= y <= cs@.len() && cs@.subrange(
                x as int,
                y as int,
            ) == v,
            None => r is None,
        },
{
    let mut pos = qs;
    loop
        invariant
            qs <= pos <= qe <= cs@.len(),
            find_param(cs@.subrange(qs as int, qe as int), key@) == find_param(
                cs@.subrange(pos as int, qe as int),
                key@,
            ),
        decreases qe - pos,
    {
        let ghost q = cs@.subrange(pos as int, qe as int);
        proof {
            lemma_find_char_from_bounds(q, '&', 0);
        }
        match find_char_between(cs, '&', pos, qe) {
            None => {
                return param_value_between(cs, key, pos, qe);
            },
            Some(i) => {
                assert(q.subrange(0, i - pos) =~= cs@.subrange(pos as int, i as int));
                assert(q.subrange(i - pos + 1, q.len() as int) =~= cs@.subrange(
                    i + 1,
                    qe as int,
                ));
                let found = param_value_between(cs, key, pos, i);
                if found.is_some() {
                    return found;
                }
                pos = i + 1;
            },
        }
    }
}

/// The `id` query parameter of a link, as `href_query_id` describes it.
pub fn query_id(href: &str) -> (r: Option<String>)
    ensures
        match href_query_id(href@) {
            Some(v) => r matches Some(s) && s@ == v,
            None => r is None,
        },
{
    let cs = chars_of(href);
    let key = chars_of("id");
    assert(key@ == seq!['i', 'd']) by {
        reveal_strlit("id");
    }
    match query_bounds(&cs) {
        None => None,
        Some((qs, qe)) => match find_param_between(&cs, &key, qs, qe) {
            Some((x, y)) => Some(substring(href, x, y)),
            None => None,
        },
    }
}

// ----- The Hit-and-Run page -----

/// A torrent listed on nCore's Hit-and-Run page.
#[derive(Clone, Debug, PartialEq, Eq)]
pub struct NcoreHitnrunTorrent {
    pub ncore_id: String,
    pub name: String,
    pub hnr_timespent: Option<String>,
    pub hnr_seed: Option<String>,
    pub download_url: String,
}

/// The contents of a listed torrent.
pub struct HitnrunTorrentView {
    pub ncore_id: Seq<char>,
    pub name: Seq<char>,
    pub hnr_timespent: Option<Seq<char>>,
    pub hnr_seed: Option<Seq<char>>,
    pub download_url: Seq<char>,
}

pub open spec fn opt_string_view(o: Option<String>) -> Option<Seq<char>> {
    match o {
        Some(s) => Some(s@),
        None => None,
    }
}

impl View for NcoreHitnrunTorrent {
    type V = HitnrunTorrentView;

    open spec fn view(&self) -> HitnrunTorrentView {
        HitnrunTorrentView {
            ncore_id: self.ncore_id@,
            name: self.name@,
            hnr_timespent: opt_string_view(self.hnr_timespent),
            hnr_seed: opt_string_view(self.hnr_seed),
            download_url: self.download_url@,
        }
    }
}

/// An element picked out of a page: its text and its `href` attribute.
#[derive(Clone, Debug)]
pub struct ScrapedElement {
    pub text: String,
    pub href: Option<String>,
}

/// A picked element, as plain values.
pub type ScrapedView = Option<(Seq<char>, Option<Seq<char>>)>;

/// An element that a row selector picked, and what each cell selector picked inside it.
#[derive(Clone, Debug)]
pub struct ScrapedRow {
    pub element: ScrapedElement,
    pub cells: Vec<Option<ScrapedElement>>,
}

/// A picked row, as plain values.
pub type ScrapedRowView = ((Seq<char>, Option<Seq<char>>), Seq<ScrapedView>);

pub open spec fn scraped_view(e: Option<ScrapedElement>) -> ScrapedView {
    match e {
        Some(el) => Some((el.text@, opt_string_view(el.href))),
        None => None,
    }
}

pub open spec fn cells_view(cells: Seq<Option<ScrapedElement>>) -> Seq<ScrapedView> {
    cells.map_values(|e: Option<ScrapedElement>| scraped_view(e))
}

pub open spec fn scraped_row_view(row: ScrapedRow) -> ScrapedRowView {
    ((row.element.text@, opt_string_view(row.element.href)), cells_view(row.cells@))
}

pub open spec fn scraped_rows_view(rows: Seq<ScrapedRow>) -> Seq<ScrapedRowView> {
    rows.map_values(|row: ScrapedRow| scraped_row_view(row))
}

pub open spec fn scrape_result_view(r: Result<Vec<ScrapedRow>, String>) -> Result<
    Seq<ScrapedRowView>,
    Seq<char>,
> {
    match r {
        Ok(rows) => Ok(scraped_rows_view(rows@)),
        Err(e) => Err(e@),
    }
}

/// What `scraper` finds in the HTML document `html`: for each element that
/// matches the CSS selector `row_css`, in document order, its text and `href`
/// attribute, and for each selector of `cell_css` the text and `href` of the
/// first element inside it that matches; or the text of the error for the
/// first selector that does not parse.
pub uninterp spec fn scraped_cells(
    html: Seq<char>,
    row_css: Seq<char>,
    cell_css: Seq<Seq<char>>,
) -> Result<Seq<((Seq<char>, Option<Seq<char>>), Seq<Option<(Seq<char>, Option<Seq<char>>)>>)>, Seq<char>>;

/// Parses `html` with `scraper::Html::parse_document` and, for each element
/// that `scraper::Selector` `row_css` selects, takes its text
/// (`ElementRef::text`) and `href` (`ElementRef::attr`), and the first element
/// that each selector of `cell_css` selects inside it (`ElementRef::select`).
/// Trusted: the result is what `scraped_cells` names for these arguments,
/// and each row holds one entry per selector of `cell_css`.
#[verifier::external_body]
fn scrape_cells(html: &str, row_css: &str, cell_css: &Vec<String>) -> (r: Result<
    Vec<ScrapedRow>,
    String,
>)
    ensures
        scrape_result_view(r) == scraped_cells(html@, row_css@, strings_view(cell_css@)),
        r matches Ok(rows) ==> forall|i: int|
            0 <= i < rows@.len() ==> (#[trigger] rows@[i]).cells@.len() == cell_css@.len(),
{
    let parse = |css: &str| scraper::Selector::parse(css).map_err(|e| e.to_string());
    let rows = parse(row_css)?;
    let cells = cell_css.iter().map(|c| parse(c)).collect::<Result<Vec<_>, String>>()?;
    let pick = |e: scraper::ElementRef| ScrapedElement { text: e.text().collect(), href: e.attr("href").map(String::from) };
    let document = scraper::Html::parse_document(html);
    Ok(document.select(&rows).map(|row| ScrapedRow { element: pick(row),
        cells: cells.iter().map(|cell| row.select(cell).next().map(pick)).collect() }).collect())
}

/// The text of a picked element, trimmed, if it was found.
pub open spec fn cell_text(c: ScrapedView) -> Option<Seq<char>> {
    match c {
        Some((t, _)) => Some(trim_seq(t)),
        None => None,
    }
}

/// The `href` of a picked element, or the empty string.
pub open spec fn cell_href(c: ScrapedView) -> Seq<char> {
    match c {
        Some((_, Some(h))) => h,
        _ => seq![],
    }
}

/// The torrent that a row of the Hit-and-Run table lists: its cells are the
/// name link, the remaining seeding time and the seeding state. A row whose
/// link has no non-empty `id` parameter lists none.
pub open spec fn torrent_of_row(row: Seq<ScrapedView>) -> Option<HitnrunTorrentView> {
    let href = cell_href(row[0]);
    let id = match href_query_id(href) {
        Some(v) => v,
        None => seq![],
    };
    if id.len() > 0 {
        Some(
            HitnrunTorrentView {
                ncore_id: id,
                name: match cell_text(row[0]) {
                    Some(t) => t,
                    None => seq![],
                },
                hnr_timespent: cell_text(row[1]),
                hnr_seed: cell_text(row[2]),
                download_url: href,
            },
        )
    } else {
        None
    }
}

/// The torrents that the rows list, in order.
pub open spec fn torrents_of_rows(rows: Seq<ScrapedRowView>) -> Seq<HitnrunTorrentView>
    decreases rows.len(),
{
    if rows.len() == 0 {
        seq![]
    } else {
        let init = torrents_of_rows(rows.drop_last());
        match torrent_of_row(rows.last().1) {
            Some(t) => init.push(t),
            None => init,
        }
    }
}

pub open spec fn torrents_view(v: Seq<NcoreHitnrunTorrent>) -> Seq<HitnrunTorrentView> {
    v.map_values(|t: NcoreHitnrunTorrent| t@)
}

fn opt_trimmed(e: &Option<ScrapedElement>) -> (r: Option<String>)
    ensures
        opt_string_view(r) == cell_text(scraped_view(*e)),
{
    match e {
        Some(el) => Some(trim(el.text.as_str())),
        None => None,
    }
}

/// The torrent that one row of the Hit-and-Run table lists, if any.
pub fn torrent_from_row(row: &Vec<Option<ScrapedElement>>) -> (r: Option<NcoreHitnrunTorrent>)
    requires
        row@.len() == 3,
    ensures
        match torrent_of_row(cells_view(row@)) {
            Some(t) => r matches Some(x) && x@ == t,
            None => r is None,
        },
{
    let ghost cells = cells_view(row@);
    assert(cells[0] == scraped_view(row@[0]));
    assert(cells[1] == scraped_view(row@[1]));
    assert(cells[2] == scraped_view(row@[2]));
    let href = match &row[0] {
        Some(el) => match &el.href {
            Some(h) => h.clone(),
            None => String::new(),
        },
        None => String::new(),
    };
    let id = match query_id(href.as_str()) {
        Some(v) => v,
        None => String::new(),
    };
    if id.as_str().unicode_len() == 0 {
        return None;
    }
    let name = match opt_trimmed(&row[0]) {
        Some(t) => t,
        None => String::new(),
    };
    Some(
        NcoreHitnrunTorrent {
            ncore_id: id,
            name,
            hnr_timespent: opt_trimmed(&row[1]),
            hnr_seed: opt_trimmed(&row[2]),
            download_url: href,
        },
    )
}

/// The torrents that the rows of the Hit-and-Run table list, in order.
pub fn torrents_from_rows(rows: &Vec<ScrapedRow>) -> (r: Vec<NcoreHitnrunTorrent>)
    requires
        forall|i: int| 0 <= i < rows@.len() ==> (#[trigger] rows@[i]).cells@.len() == 3,
    ensures
        torrents_view(r@) == torrents_of_rows(scraped_rows_view(rows@)),
{
    let mut out: Vec<NcoreHitnrunTorrent> = Vec::new();
    let n = rows.len();
    for i in 0..n
        invariant
            n == rows@.len(),
            forall|k: int| 0 <= k < rows@.len() ==> (#[trigger] rows@[k]).cells@.len() == 3,
            torrents_view(out@) == torrents_of_rows(scraped_rows_view(rows@.take(i as int))),
    {
        assert(scraped_rows_view(rows@.take(i + 1)).drop_last() =~= scraped_rows_view(
            rows@.take(i as int),
        ));
        assert(scraped_rows_view(rows@.take(i + 1)).last() == scraped_row_view(rows@[i as int]));
        let found = torrent_from_row(&rows[i].cells);
        match found {
            Some(t) => {
                out.push(t);
                assert(torrents_view(out@) =~= torrents_view(out@.drop_last()).push(
                    out@.last()@,
                ));
            },
            None => {},
        }
    }
    assert(rows@.take(n as int) =~= rows@);
    out
}

/// The torrents listed on nCore's Hit-and-Run page `html`.
pub fn parse_hitnrun_html(html: &str) -> (r: Result<Vec<NcoreHitnrunTorrent>, String>)
    ensures
        match scraped_cells(
            html@,
            ".hnr_all, .hnr_all2"@,
            seq![".hnr_tname a"@, ".hnr_ttimespent"@, ".hnr_tseed"@],
        ) {
            Ok(rows) => r matches Ok(v) && torrents_view(v@) == torrents_of_rows(rows),
            Err(e) => r matches Err(m) && m@ == "invalid selector: "@ + e,
        },
{
    let mut cells: Vec<String> = Vec::new();
    cells.push(String::from_str(".hnr_tname a"));
    cells.push(String::from_str(".hnr_ttimespent"));
    cells.push(String::from_str(".hnr_tseed"));
    assert(strings_view(cells@) =~= seq![".hnr_tname a"@, ".hnr_ttimespent"@, ".hnr_tseed"@]);
    match scrape_cells(html, ".hnr_all, .hnr_all2", &cells) {
        Ok(rows) => Ok(torrents_from_rows(&rows)),
        Err(e) => Err(join2("invalid selector: ", e.as_str())),
    }
}

// ----- What to do with a listed torrent -----

/// What one Hit-and-Run check does with a listed torrent.
#[derive(Clone, Copy, Debug, PartialEq, Eq)]
pub enum HitnrunAction {
    /// Its data was removed while seeding: leave it alone.
    Skip,
    /// New and stopped with seeding time left: start tracking it as pending.
    Queue,
    /// Tracked and no seeding time left: mark it complete.
    MarkComplete,
    /// Tracked and active: store the latest seeding time and state.
    Refresh,
    /// Nothing to do.
    Ignore,
}

/// The decision for a listed torrent: `blacklisted` tells whether its data was
/// removed while seeding, `existing` is the status it is tracked with, if any.
pub open spec fn hitnrun_action_of(
    blacklisted: bool,
    existing: Option<Seq<char>>,
    timespent: Option<Seq<char>>,
    seed: Option<Seq<char>>,
) -> HitnrunAction {
    if blacklisted {
        HitnrunAction::Skip
    } else {
        match existing {
            None => if seed == Some("Stopped"@) && timespent is Some && timespent != Some("-"@) {
                HitnrunAction::Queue
            } else {
                HitnrunAction::Ignore
            },
            Some(status) => if timespent == Some("-"@) && status != "complete"@ {
                HitnrunAction::MarkComplete
            } else if status == "pending"@ || status == "downloading"@ || status == "seeding"@ {
                HitnrunAction::Refresh
            } else {
                HitnrunAction::Ignore
            },
        }
    }
}

/// What becomes of each listed torrent:
/// - one whose data was removed while seeding is skipped;
/// - a tracked one with no seeding time left (`-`) is marked complete,
///   unless it already is;
/// - otherwise a tracked one that is pending, downloading or seeding has its
///   latest seeding time and state stored;
/// - a new one is queued exactly when its seeding is `Stopped` and it has
///   seeding time left;
/// - anything else is left alone.
pub proof fn hitnrun_decisions(
    blacklisted: bool,
    existing: Option<Seq<char>>,
    status: Seq<char>,
    timespent: Option<Seq<char>>,
    seed: Option<Seq<char>>,
)
    ensures
        blacklisted ==> hitnrun_action_of(blacklisted, existing, timespent, seed)
            == HitnrunAction::Skip,
        !blacklisted && existing == Some(status) && timespent == Some("-"@) && status
            != "complete"@ ==> hitnrun_action_of(blacklisted, existing, timespent, seed)
            == HitnrunAction::MarkComplete,
        !blacklisted && existing == Some(status) && timespent != Some("-"@) && (status
            == "pending"@ || status == "downloading"@ || status == "seeding"@)
            ==> hitnrun_action_of(blacklisted, existing, timespent, seed) == HitnrunAction::Refresh,
        !blacklisted && existing == Some(status) && (timespent != Some("-"@) || status
            == "complete"@) && status != "pending"@ && status != "downloading"@ && status
            != "seeding"@ ==> hitnrun_action_of(blacklisted, existing, timespent, seed)
            == HitnrunAction::Ignore,
        !blacklisted && existing is None ==> (hitnrun_action_of(blacklisted, existing, timespent, seed)
            == HitnrunAction::Queue <==> (seed == Some("Stopped"@) && timespent is Some && timespent
            != Some("-"@))),
        !blacklisted && existing is None ==> (hitnrun_action_of(blacklisted, existing, timespent, seed)
            == HitnrunAction::Queue || hitnrun_action_of(blacklisted, existing, timespent, seed)
            == HitnrunAction::Ignore),
{
}

/// The decision for a listed torrent.
pub fn hitnrun_action(
    blacklisted: bool,
    existing: &Option<String>,
    torrent: &NcoreHitnrunTorrent,
) -> (r: HitnrunAction)
    ensures
        r == hitnrun_action_of(
            blacklisted,
            opt_string_view(*existing),
            torrent@.hnr_timespent,
            torrent@.hnr_seed,
        ),
{
    if blacklisted {
        return HitnrunAction::Skip;
    }
    match existing {
        None => {
            if opt_str_eq(&torrent.hnr_seed, "Stopped") && torrent.hnr_timespent.is_some()
                && !opt_str_eq(&torrent.hnr_timespent, "-") {
                HitnrunAction::Queue
            } else {
                HitnrunAction::Ignore
            }
        },
        Some(status) => {
            if opt_str_eq(&torrent.hnr_timespent, "-") && !str_eq(status.as_str(), "complete") {
                HitnrunAction::MarkComplete
            } else if str_eq(status.as_str(), "pending") || str_eq(status.as_str(), "downloading")
                || str_eq(status.as_str(), "seeding") {
                HitnrunAction::Refresh
            } else {
                HitnrunAction::Ignore
            }
        },
    }
}

/// How a torrent is named in the log of a Hit-and-Run check: `#<id> <name>`.
pub open spec fn torrent_label_of(t: HitnrunTorrentView) -> Seq<char> {
    "#"@ + t.ncore_id + " "@ + t.name
}

/// How a torrent is named in the log of a Hit-and-Run check.
pub fn torrent_label(t: &NcoreHitnrunTorrent) -> (r: String)
    ensures
        r@ == torrent_label_of(t@),
{
    join3("#", t.ncore_id.as_str(), " ").concat(t.name.as_str())
}

/// What one Hit-and-Run check has done so far: the torrents it started
/// tracking and those it marked complete, in the order met.
pub struct HitnrunReport {
    pub added: Vec<String>,
    pub completed: Vec<String>,
}

pub struct HitnrunReportView {
    pub added: Seq<Seq<char>>,
    pub completed: Seq<Seq<char>>,
}

impl View for HitnrunReport {
    type V = HitnrunReportView;

    open spec fn view(&self) -> HitnrunReportView {
        HitnrunReportView { added: strings_view(self.added@), completed: strings_view(self.completed@) }
    }
}

/// The outcome written to the execution log at the end of a check.
pub struct HitnrunSummary {
    pub status: String,
    pub message: String,
}

/// The parts of the summary message.
pub open spec fn summary_parts(added: Seq<Seq<char>>, completed: Seq<Seq<char>>) -> Seq<Seq<char>> {
    let a = if added.len() > 0 {
        seq!["Added: "@ + seq_join(added, ", "@)]
    } else {
        seq![]
    };
    let c = if completed.len() > 0 {
        seq!["Completed: "@ + seq_join(completed, ", "@)]
    } else {
        seq![]
    };
    if a.len() + c.len() == 0 {
        seq!["No changes"@]
    } else {
        a + c
    }
}

pub open spec fn summary_status_of(added: Seq<Seq<char>>, completed: Seq<Seq<char>>) -> Seq<char> {
    if added.len() > 0 || completed.len() > 0 {
        "success"@
    } else {
        "info"@
    }
}

pub open spec fn summary_message_of(added: Seq<Seq<char>>, completed: Seq<Seq<char>>) -> Seq<char> {
    seq_join(summary_parts(added, completed), " | "@)
}

impl HitnrunReport {
    /// A report of a check that has done nothing yet.
    pub fn new() -> (r: Self)
        ensures
            r@.added.len() == 0,
            r@.completed.len() == 0,
    {
        HitnrunReport { added: Vec::new(), completed: Vec::new() }
    }

    /// Decides what to do with a listed torrent and records it: a queued
    /// torrent joins `added`, a completed one joins `completed`.
    pub fn record(
        &mut self,
        torrent: &NcoreHitnrunTorrent,
        blacklisted: bool,
        existing: &Option<String>,
    ) -> (r: HitnrunAction)
        ensures
            r == hitnrun_action_of(
                blacklisted,
                opt_string_view(*existing),
                torrent@.hnr_timespent,
                torrent@.hnr_seed,
            ),
            final(self)@.added == if r == HitnrunAction::Queue {
                old(self)@.added.push(torrent_label_of(torrent@))
            } else {
                old(self)@.added
            },
            final(self)@.completed == if r == HitnrunAction::MarkComplete {
                old(self)@.completed.push(torrent_label_of(torrent@))
            } else {
                old(self)@.completed
            },
    {
        let action = hitnrun_action(blacklisted, existing, torrent);
        match action {
            HitnrunAction::Queue => {
                self.added.push(torrent_label(torrent));
                assert(strings_view(self.added@) =~= strings_view(old(self).added@).push(
                    torrent_label_of(torrent@),
                ));
            },
            HitnrunAction::MarkComplete => {
                self.completed.push(torrent_label(torrent));
                assert(strings_view(self.completed@) =~= strings_view(old(self).completed@).push(
                    torrent_label_of(torrent@),
                ));
            },
            _ => {},
        }
        action
    }

    /// The status and message logged for the whole check.
    pub fn summary(&self) -> (r: HitnrunSummary)
        ensures
            r.status@ == summary_status_of(self@.added, self@.completed),
            r.message@ == summary_message_of(self@.added, self@.completed),
    {
        let has_added = self.added.len() > 0;
        let has_completed = self.completed.len() > 0;
        let status = if has_added || has_completed {
            String::from_str("success")
        } else {
            String::from_str("info")
        };
        let mut parts: Vec<String> = Vec::new();
        if has_added {
            parts.push(join2("Added: ", join(&self.added, ", ").as_str()));
        }
        if has_completed {
            parts.push(join2("Completed: ", join(&self.completed, ", ").as_str()));
        }
        if parts.len() == 0 {
            parts.push(String::from_str("No changes"));
        }
        assert(strings_view(parts@) =~= summary_parts(self@.added, self@.completed));
        HitnrunSummary { status, message: join(&parts, " | ") }
    }
}

/// A check logs `info` with the message `No changes` exactly when it
/// neither queued nor completed a torrent; otherwise it logs `success`.
pub proof fn summary_is_info_exactly_when_nothing_changed(
    added: Seq<Seq<char>>,
    completed: Seq<Seq<char>>,
)
    ensures
        (summary_status_of(added, completed) == "info"@) <==> (added.len() == 0 && completed.len()
            == 0),
        added.len() == 0 && completed.len() == 0 ==> summary_message_of(added, completed)
            == "No changes"@,
{
    assert("info"@ != "success"@) by {
        reveal_strlit("info");
        reveal_strlit("success");
        assert("info"@.len() != "success"@.len());
    }
    if added.len() == 0 && completed.len() == 0 {
        assert(summary_parts(added, completed) =~= seq!["No changes"@]);
    }
}

// ----- The download link -----

/// The absolute address of a download link found on a torrent's page at `base`.
pub open spec fn download_url_of(base: Seq<char>, href: Seq<char>) -> Seq<char> {
    if starts_with_seq(href, "http"@) {
        href
    } else {
        base + "/"@ + trim_start_char(href, '/')
    }
}

/// The absolute address of a download link found on a torrent's page at `base_url`.
pub fn resolve_download_href(base_url: &str, href: &str) -> (r: String)
    ensures
        r@ == download_url_of(base_url@, href@),
{
    if starts_with(href, "http") {
        String::from_str(href)
    } else {
        let rest = trim_start_matches_char(href, '/');
        join3(base_url, "/", rest.as_str())
    }
}

/// The download address on a torrent's details page whose picked `.download > a`
/// links are `rows`: the `href` of the first one, made absolute; none if the
/// first has no `href` or there is none.
pub open spec fn download_url_from_rows(base: Seq<char>, rows: Seq<ScrapedRowView>) -> Option<
    Seq<char>,
> {
    if rows.len() > 0 {
        match rows[0].0.1 {
            Some(href) => Some(download_url_of(base, href)),
            None => None,
        }
    } else {
        None
    }
}

/// The address of the `.torrent` file linked from a torrent's details page
/// `html`, fetched from `base_url`.
pub fn download_url_from_page(html: &str, base_url: &str, ncore_id: &str) -> (r: Result<
    String,
    String,
>)
    ensures
        match scraped_cells(html@, ".download > a"@, seq![]) {
            Ok(rows) => match download_url_from_rows(base_url@, rows) {
                Some(url) => r matches Ok(u) && u@ == url,
                None => r matches Err(m) && m@ == "could not find download link for ncore_id "@
                    + ncore_id@,
            },
            Err(e) => r matches Err(m) && m@ == "invalid selector: "@ + e,
        },
{
    let cells: Vec<String> = Vec::new();
    assert(strings_view(cells@) =~= seq![]);
    match scrape_cells(html, ".download > a", &cells) {
        Err(e) => Err(join2("invalid selector: ", e.as_str())),
        Ok(rows) => {
            if rows.len() > 0 {
                assert(scraped_rows_view(rows@)[0] == scraped_row_view(rows@[0]));
                match &rows[0].element.href {
                    Some(href) => {
                        return Ok(resolve_download_href(base_url, href.as_str()));
                    },
                    None => {},
                }
            }
            Err(join2("could not find download link for ncore_id ", ncore_id))
        },
    }
}

/// Whether the error text of a refused `add torrent` says the torrent is
/// already in the session.
pub fn is_duplicate_torrent_error(err: &str) -> (r: bool)
    ensures
        r == (contains_seq(err@, "Duplicate"@) || contains_seq(err@, "already"@)),
{
    contains(err, "Duplicate") || contains(err, "already")
}

// ----- The BitTorrent session -----

/// The states the BitTorrent session reports for a torrent.
#[derive(Clone, Copy, Debug, PartialEq, Eq)]
pub enum TorrentState {
    Queued,
    Checking,
    FetchingMetadata,
    Downloading,
    Complete,
    Seeding,
    Sharing,
    Paused,
    Stopped,
}

/// The status a tracked torrent is stored with.
#[derive(Clone, Copy, Debug, PartialEq, Eq)]
pub enum TorrentStatus {
    Pending,
    Downloading,
    Seeding,
    Complete,
    Paused,
    Failed,
}

pub open spec fn status_text(s: TorrentStatus) -> Seq<char> {
    match s {
        TorrentStatus::Pending => "pending"@,
        TorrentStatus::Downloading => "downloading"@,
        TorrentStatus::Seeding => "seeding"@,
        TorrentStatus::Complete => "complete"@,
        TorrentStatus::Paused => "paused"@,
        TorrentStatus::Failed => "failed"@,
    }
}

impl TorrentStatus {
    /// The text stored in the database for this status.
    pub fn as_str(self) -> (r: &'static str)
        ensures
            r@ == status_text(self),
    {
        match self {
            TorrentStatus::Pending => "pending",
            TorrentStatus::Downloading => "downloading",
            TorrentStatus::Seeding => "seeding",
            TorrentStatus::Complete => "complete",
            TorrentStatus::Paused => "paused",
            TorrentStatus::Failed => "failed",
        }
    }
}

/// The status stored for each state the session reports: `downloading`
/// exactly while it downloads, checks or fetches metadata; `pending` exactly
/// while queued; `seeding` exactly once it has the data (complete, seeding or
/// sharing); `paused` when paused; `failed` when stopped.
pub proof fn stored_status_follows_session_state(state: TorrentState)
    ensures
        status_text(status_for_state_of(state)) == "downloading"@ <==> (state
            == TorrentState::Downloading || state == TorrentState::Checking || state
            == TorrentState::FetchingMetadata),
        status_for_state_of(state) == TorrentStatus::Downloading <==> (state
            == TorrentState::Downloading || state == TorrentState::Checking || state
            == TorrentState::FetchingMetadata),
        status_for_state_of(state) == TorrentStatus::Pending <==> state == TorrentState::Queued,
        status_for_state_of(state) == TorrentStatus::Seeding <==> (state == TorrentState::Complete
            || state == TorrentState::Seeding || state == TorrentState::Sharing),
        status_for_state_of(state) == TorrentStatus::Paused <==> state == TorrentState::Paused,
        status_for_state_of(state) == TorrentStatus::Failed <==> state == TorrentState::Stopped,
        status_for_state_of(state) != TorrentStatus::Complete,
{
    reveal_strlit("downloading");
    reveal_strlit("pending");
    reveal_strlit("seeding");
    reveal_strlit("complete");
    reveal_strlit("paused");
    reveal_strlit("failed");
    assert("downloading"@.len() == 11);
    assert("pending"@.len() == 7);
    assert("seeding"@.len() == 7);
    assert("complete"@.len() == 8);
    assert("paused"@.len() == 6);
    assert("failed"@.len() == 6);
}

pub open spec fn status_for_state_of(state: TorrentState) -> TorrentStatus {
    match state {
        TorrentState::Seeding | TorrentState::Complete | TorrentState::Sharing => TorrentStatus::Seeding,
        TorrentState::Downloading | TorrentState::Checking | TorrentState::FetchingMetadata => TorrentStatus::Downloading,
        TorrentState::Paused => TorrentStatus::Paused,
        TorrentState::Queued => TorrentStatus::Pending,
        TorrentState::Stopped => TorrentStatus::Failed,
    }
}

/// The stored status for a torrent the session reports in `state`.
pub fn status_for_state(state: TorrentState) -> (r: TorrentStatus)
    ensures
        r == status_for_state_of(state),
{
    match state {
        TorrentState::Seeding | TorrentState::Complete | TorrentState::Sharing => TorrentStatus::Seeding,
        TorrentState::Downloading | TorrentState::Checking | TorrentState::FetchingMetadata => TorrentStatus::Downloading,
        TorrentState::Paused => TorrentStatus::Paused,
        TorrentState::Queued => TorrentStatus::Pending,
        TorrentState::Stopped => TorrentStatus::Failed,
    }
}

/// The session's alerts that change what is stored, with the torrent's info
/// hash in hexadecimal.
#[derive(Clone, Debug)]
pub enum TorrentAlert {
    StateChanged { info_hash: String, new_state: TorrentState },
    Finished { info_hash: String },
    Other,
}

/// A change to the stored status of the torrent with a given info hash.
#[derive(Clone, Debug)]
pub struct StatusUpdate {
    pub info_hash: String,
    pub status: TorrentStatus,
    /// Only rows whose status differs are changed.
    pub only_if_changed: bool,
}

/// The stored change an alert calls for: a state change sets the mapped
/// status where it differs; a finished download sets `seeding`.
pub fn status_update_for_alert(alert: &TorrentAlert) -> (r: Option<StatusUpdate>)
    ensures
        match *alert {
            TorrentAlert::StateChanged { info_hash, new_state } => r matches Some(u) && u.info_hash@
                == info_hash@ && u.status == status_for_state_of(new_state) && u.only_if_changed,
            TorrentAlert::Finished { info_hash } => r matches Some(u) && u.info_hash@ == info_hash@
                && u.status == TorrentStatus::Seeding && !u.only_if_changed,
            TorrentAlert::Other => r is None,
        },
{
    match alert {
        TorrentAlert::StateChanged { info_hash, new_state } => Some(
            StatusUpdate {
                info_hash: info_hash.clone(),
                status: status_for_state(*new_state),
                only_if_changed: true,
            },
        ),
        TorrentAlert::Finished { info_hash } => Some(
            StatusUpdate { info_hash: info_hash.clone(), status: TorrentStatus::Seeding, only_if_changed: false },
        ),
        TorrentAlert::Other => None,
    }
}

/// Whether to ask the trackers again for peers once the stored change for
/// `alert` changed `rows_changed` rows: after a finished download always, after
/// a state change only when a row changed to `seeding`.
pub fn reannounce_after_alert(alert: &TorrentAlert, rows_changed: u64) -> (r: bool)
    ensures
        r == match *alert {
            TorrentAlert::StateChanged { new_state, .. } => rows_changed > 0 && status_for_state_of(
                new_state,
            ) == TorrentStatus::Seeding,
            TorrentAlert::Finished { .. } => true,
            TorrentAlert::Other => false,
        },
{
    match alert {
        TorrentAlert::StateChanged { new_state, .. } => rows_changed > 0 && matches!(
            status_for_state(*new_state),
            TorrentStatus::Seeding
        ),
        TorrentAlert::Finished { .. } => true,
        TorrentAlert::Other => false,
    }
}

/// What to do with the BitTorrent session.
#[derive(Clone, Copy, Debug, PartialEq, Eq)]
pub enum SessionPlan {
    /// Torrents need work and no session runs: start one.
    Start,
    /// No torrent needs work but a session runs: stop it.
    Stop,
    /// Leave the session as it is.
    Keep,
}

/// The session plan, given the number of pending or downloading torrents, the
/// number of seeding ones, and whether a session runs.
pub fn session_plan(active: i64, seeding: i64, session_exists: bool) -> (r: SessionPlan)
    ensures
        r == if (active > 0 || seeding > 0) && !session_exists {
            SessionPlan::Start
        } else if !(active > 0 || seeding > 0) && session_exists {
            SessionPlan::Stop
        } else {
            SessionPlan::Keep
        },
{
    let has_work = active > 0 || seeding > 0;
    if has_work && !session_exists {
        SessionPlan::Start
    } else if !has_work && session_exists {
        SessionPlan::Stop
    } else {
        SessionPlan::Keep
    }
}

/// Whether removing a torrent must also keep it from being tracked again:
/// so it is when it was seeding at the time (unknown counts as not seeding).
pub fn blacklist_on_removal(is_seeding: Option<bool>) -> (r: bool)
    ensures
        r == (is_seeding == Some(true)),
{
    match is_seeding {
        Some(b) => b,
        None => false,
    }
}

} // verus!
