//! The "featured content" feed of the day: its records, the date it is asked
//! for, and where a copy of it is cached.
use vstd::prelude::*;
use crate::paths::{join_path, path_join};
use crate::text::{decimal, decimal_chars, push_chars, push_str, string_of, zero_pad, zero_pad_chars};

verus! {

/// A page as the feed describes it.
#[derive(Debug, Clone)]
pub struct PageSummary {
    pub title: String,
    pub normalizedtitle: Option<String>,
    pub description: Option<String>,
    pub extract: Option<String>,
}

/// The title to show: the normalized title if the feed gave one.
pub open spec fn shown_title(title: String, normalized: Option<String>) -> Seq<char> {
    match normalized {
        Some(n) => n@,
        None => title@,
    }
}

impl PageSummary {
    pub fn display_title(&self) -> (r: &str)
        ensures
            r@ == shown_title(self.title, self.normalizedtitle),
    {
        match &self.normalizedtitle {
            Some(n) => n.as_str(),
            None => self.title.as_str(),
        }
    }
}

/// A news story with the pages it links.
#[derive(Debug, Clone)]
pub struct NewsItem {
    pub story: Option<String>,
    pub links: Vec<PageSummary>,
}

/// Something that happened on this day in some year.
#[derive(Debug, Clone)]
pub struct OnThisDayEvent {
    pub text: String,
    pub year: Option<i32>,
    pub pages: Vec<PageSummary>,
}

/// One of yesterday's most read articles.
#[derive(Debug, Clone)]
pub struct MostReadArticle {
    pub title: String,
    pub normalizedtitle: Option<String>,
    pub description: Option<String>,
    pub extract: Option<String>,
    pub views: Option<u64>,
    pub rank: Option<u32>,
}

impl MostReadArticle {
    pub fn display_title(&self) -> (r: &str)
        ensures
            r@ == shown_title(self.title, self.normalizedtitle),
    {
        match &self.normalizedtitle {
            Some(n) => n.as_str(),
            None => self.title.as_str(),
        }
    }
}

/// The most read articles of a day.
#[derive(Debug, Clone)]
pub struct MostReadPayload {
    pub date: Option<String>,
    pub articles: Vec<MostReadArticle>,
}

/// The whole feed of a day.
#[derive(Debug, Clone)]
pub struct DailyFeed {
    pub tfa: Option<PageSummary>,
    pub news: Vec<NewsItem>,
    pub onthisday: Vec<OnThisDayEvent>,
    pub mostread: Option<MostReadPayload>,
}

/// The day of the era and the start of its year in wikid's day-count
/// arithmetic, for `secs` seconds after the epoch.
pub open spec fn era_day_and_year_start(secs: nat) -> (int, int, int, int) {
    let days = secs / 86400;
    let z = days + 719468;
    let era = z / 146097;
    let doe = z - era * 146097;
    let yoe = (doe - doe / 1020 + doe / 1460 - doe / 146096) / 365;
    let start = 365 * yoe + yoe / 4 - yoe / 100;
    (era as int, doe, yoe, start)
}

/// Whether wikid's day-count arithmetic, done in unsigned 32-bit numbers,
/// stays above zero for `secs`: on some days the start of the year it
/// computes lies after the day itself, and the subtraction would go below
/// zero (a panic under overflow checks).
pub open spec fn feed_date_defined(secs: nat) -> bool {
    let (era, doe, yoe, start) = era_day_and_year_start(secs);
    doe >= start
}

/// The `(year, month, day)` that the feed is asked for at `secs` seconds
/// after the epoch, by wikid's day-count arithmetic (meaningful where
/// `feed_date_defined` holds).
pub open spec fn feed_date(secs: nat) -> (u32, u32, u32) {
    let (era, doe, yoe, start) = era_day_and_year_start(secs);
    let doy = doe - start;
    let mp = (5 * doy + 2) / 153;
    let d = doy - (153 * mp + 2) / 5 + 1;
    let m = if mp < 10 { mp + 3 } else { mp - 9 };
    let y = yoe + era * 400 + (if m <= 2 { 1int } else { 0int });
    (y as u32, m as u32, d as u32)
}

fn era_day(secs: u64) -> (r: (u64, u32, u32, u32))
    ensures
        ({
            let (era, doe, yoe, start) = era_day_and_year_start(secs as nat);
            r.0 == era && r.1 == doe && r.2 == yoe && r.3 == start
        }),
{
    let days: u64 = secs / 86400;
    let z: u64 = days + 719468;
    let era: u64 = z / 146097;
    assert(era * 146097 <= z) by (nonlinear_arith)
        requires era == z / 146097;
    assert(z - era * 146097 < 146097) by (nonlinear_arith)
        requires era == z / 146097;
    let doe: u32 = (z - era * 146097) as u32;
    let yoe: u32 = (doe - doe / 1020 + doe / 1460 - doe / 146096) / 365;
    assert(yoe <= 401);
    let start: u32 = 365 * yoe + yoe / 4 - yoe / 100;
    (era, doe, yoe, start)
}

/// Whether the day-count arithmetic stays in range for `secs`.
pub fn feed_date_in_range(secs: u64) -> (r: bool)
    ensures
        r == feed_date_defined(secs as nat),
{
    let (_era, doe, _yoe, start) = era_day(secs);
    doe >= start
}

/// The feed date for a clock reading of `secs` seconds after the epoch.
pub fn feed_date_from_secs(secs: u64) -> (r: (u32, u32, u32))
    requires
        feed_date_defined(secs as nat),
    ensures
        r == feed_date(secs as nat),
{
    let (era, doe, yoe, start) = era_day(secs);
    let doy: u32 = doe - start;
    let mp: u32 = (5 * doy + 2) / 153;
    assert((153 * mp + 2) / 5 <= doy) by (nonlinear_arith)
        requires mp == (5 * doy + 2) / 153;
    let d: u32 = doy - (153 * mp + 2) / 5 + 1;
    let m: u32 = if mp < 10 { mp + 3 } else { mp - 9 };
    let y: u64 = yoe as u64 + era * 400 + if m <= 2 { 1 } else { 0 };
    (y as u32, m, d)
}

/// Seconds since the Unix epoch by the system clock, or `None` if the clock
/// is set before the epoch (`SystemTime::now`, `duration_since`, `as_secs`).
/// What the clock reads is not stated.
#[verifier::external_body]
fn unix_time_secs() -> (r: Option<u64>) {
    std::time::SystemTime::now().duration_since(std::time::UNIX_EPOCH).ok().map(|d| d.as_secs())
}

/// Today's feed date by the system clock (a clock before the epoch reads as
/// the epoch); `None` on the days where the date arithmetic would go below
/// zero.
pub fn utc_today() -> (r: Option<(u32, u32, u32)>)
    ensures
        exists|secs: u64|
            if feed_date_defined(secs as nat) {
                r == Some(feed_date(secs as nat))
            } else {
                r is None
            },
{
    let secs = match unix_time_secs() {
        Some(s) => s,
        None => 0,
    };
    if feed_date_in_range(secs) {
        Some(feed_date_from_secs(secs))
    } else {
        None
    }
}

/// `feed_<year>_<MM>_<DD>.json`, month and day zero-padded to two digits.
pub open spec fn feed_file_name(year: u32, month: u32, day: u32) -> Seq<char> {
    "feed_"@ + decimal(year as nat) + "_"@ + zero_pad(decimal(month as nat), 2) + "_"@ + zero_pad(
        decimal(day as nat),
        2,
    ) + ".json"@
}

/// Where the feed of a day is cached, under `cache_dir`.
pub fn feed_cache_path(cache_dir: &str, year: u32, month: u32, day: u32) -> (r: String)
    ensures
        r@ == path_join(cache_dir@, feed_file_name(year, month, day)),
{
    let mut name = string_of("feed_");
    let ys = decimal_chars(year as u64);
    push_chars(&mut name, &ys);
    push_str(&mut name, "_");
    let ms = zero_pad_chars(decimal_chars(month as u64), 2);
    push_chars(&mut name, &ms);
    push_str(&mut name, "_");
    let ds = zero_pad_chars(decimal_chars(day as u64), 2);
    push_chars(&mut name, &ds);
    push_str(&mut name, ".json");
    join_path(cache_dir, name.as_str())
}

/// The REST address of the feed of a day: year zero-padded to four digits,
/// month and day to two.
pub open spec fn daily_feed_url_of(year: u32, month: u32, day: u32) -> Seq<char> {
    "https://en.wikipedia.org/api/rest_v1/feed/featured/"@ + zero_pad(decimal(year as nat), 4) + "/"@
        + zero_pad(decimal(month as nat), 2) + "/"@ + zero_pad(decimal(day as nat), 2)
}

/// The address from which the feed of a day is fetched.
pub fn daily_feed_url(year: u32, month: u32, day: u32) -> (r: String)
    ensures
        r@ == daily_feed_url_of(year, month, day),
{
    let mut url = string_of("https://en.wikipedia.org/api/rest_v1/feed/featured/");
    let ys = zero_pad_chars(decimal_chars(year as u64), 4);
    push_chars(&mut url, &ys);
    push_str(&mut url, "/");
    let ms = zero_pad_chars(decimal_chars(month as u64), 2);
    push_chars(&mut url, &ms);
    push_str(&mut url, "/");
    let ds = zero_pad_chars(decimal_chars(day as u64), 2);
    push_chars(&mut url, &ds);
    url
}

} // verus!
