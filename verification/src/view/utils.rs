//! Texts that the views show around their lists: how long ago, a link cut
//! to size, the footer, the status bar and the title of a story list.

use crate::text::{decimal, spec_decimal, str_equal};
use std::time::Duration;
use std::time::SystemTime;
use substring::Substring;
use vstd::prelude::*;
use vstd::string::*;

verus! {

/// A link longer than this many characters is cut.
pub const MAX_URL_LEN: usize = 64;

/// `std::time::SystemTime`, a reading of the system clock. The contracts
/// see nothing of it.
#[verifier::external_type_specification]
#[verifier::external_body]
pub struct ExSystemTime(SystemTime);

/// `SystemTime::now`: the time by the system clock. Nothing is known of it.
#[verifier::external_body]
fn system_time_now() -> SystemTime {
    SystemTime::now()
}

/// `SystemTime::duration_since` from `SystemTime::UNIX_EPOCH`: how long after
/// the epoch `time` is, or `None` where it lies before the epoch.
#[verifier::external_body]
fn since_unix_epoch(time: &SystemTime) -> Option<Duration> {
    time.duration_since(SystemTime::UNIX_EPOCH).ok()
}

/// `Duration::as_secs`: the whole seconds of a duration.
#[verifier::external_body]
fn duration_as_secs(duration: &Duration) -> u64 {
    duration.as_secs()
}

/// The seconds since the epoch by the system clock; 0 where the clock stands
/// before the epoch.
pub fn unix_time_now() -> u64 {
    let reading = match since_unix_epoch(&system_time_now()) {
        Some(duration) => Some(duration_as_secs(&duration)),
        None => None,
    };
    seconds_or_zero(reading)
}

/// The whole minutes from `time` to `now`, both in seconds since the epoch.
/// A time that lies after `now` counts as no time gone.
pub open spec fn elapsed_minutes(now: u64, time: u64) -> nat {
    if now >= time {
        ((now - time) / 60) as nat
    } else {
        0
    }
}

/// The elapsed time in the largest unit that it fills: minutes under an
/// hour, hours under a day, days under 365 days, years from there.
pub open spec fn spec_elapsed_text(now: u64, time: u64) -> Seq<char> {
    let minutes = elapsed_minutes(now, time);
    if minutes < 60 {
        spec_decimal(minutes) + " minutes"@
    } else if minutes < 60 * 24 {
        spec_decimal(minutes / 60) + " hours"@
    } else if minutes < 60 * 24 * 365 {
        spec_decimal(minutes / 60 / 24) + " days"@
    } else {
        spec_decimal(minutes / 60 / 24 / 365) + " years"@
    }
}

/// The time from `time` to `now` as text, both in seconds since the epoch.
pub fn elapsed_time_as_text(now: u64, time: u64) -> (r: String)
    ensures
        r@ == spec_elapsed_text(now, time),
{
    let elapsed_time_in_minutes: u64 = if now >= time {
        (now - time) / 60
    } else {
        0
    };
    if elapsed_time_in_minutes < 60 {
        let mut out = decimal(elapsed_time_in_minutes);
        out.append(" minutes");
        out
    } else if elapsed_time_in_minutes < 60 * 24 {
        let mut out = decimal(elapsed_time_in_minutes / 60);
        out.append(" hours");
        out
    } else if elapsed_time_in_minutes < 60 * 24 * 365 {
        let mut out = decimal(elapsed_time_in_minutes / 60 / 24);
        out.append(" days");
        out
    } else {
        let mut out = decimal(elapsed_time_in_minutes / 60 / 24 / 365);
        out.append(" years");
        out
    }
}

/// The time gone since `time`, in seconds since the epoch, by the system
/// clock, as text. The clock is read once; whatever it says, the text is the
/// one that `elapsed_time_as_text` gives for it.
pub fn get_elapsed_time_as_text(time: u64) -> (r: String)
    ensures
        exists|now: u64| r@ == spec_elapsed_text(now, time),
{
    let now = unix_time_now();
    elapsed_time_as_text(now, time)
}

/// The characters of `s` from `start` up to `end`, counting characters, both
/// cut to the length of `s`; none where `end` does not lie after `start`.
pub open spec fn spec_substring(s: Seq<char>, start: int, end: int) -> Seq<char> {
    if end <= start {
        Seq::empty()
    } else {
        s.subrange(
            if start < s.len() { start } else { s.len() as int },
            if end < s.len() { end } else { s.len() as int },
        )
    }
}

/// `Substring::substring` on `str`: the slice of the characters from
/// `start_index` up to `end_index`, by character and not by byte. Indices
/// past the end are taken as the end, and a range that is empty or turned
/// round gives the empty slice.
#[verifier::external_body]
fn substring<'a>(s: &'a str, start_index: usize, end_index: usize) -> (r: &'a str)
    ensures
        r@ == spec_substring(s@, start_index as int, end_index as int),
{
    s.substring(start_index, end_index)
}

/// A link of more than 64 characters is cut to its first 50 and its last 14
/// with three dots between; a shorter one stays whole.
pub open spec fn spec_shorten_url(url: Seq<char>) -> Seq<char> {
    if url.len() > MAX_URL_LEN {
        url.subrange(0, 50) + "..."@ + url.subrange(url.len() - 14, url.len() as int)
    } else {
        url
    }
}

/// Cuts a link that is too long for a line.
pub fn shorten_url(url: &str) -> (r: String)
    ensures
        r@ == spec_shorten_url(url@),
{
    let len = url.unicode_len();
    if len > MAX_URL_LEN {
        let mut out = substring(url, 0, 50).to_owned();
        out.append("...");
        out.append(substring(url, len - 14, len));
        out
    } else {
        url.to_owned()
    }
}

/// What a button of the footer asks for.
#[derive(Clone, Copy, Debug, PartialEq, Eq, Structural)]
pub enum FooterAction {
    Help,
    Quit,
}

/// A button of the footer.
#[derive(Debug, PartialEq, Eq)]
pub struct FooterButton {
    pub label: String,
    pub action: FooterAction,
}

/// Where a line of text stands between the left and the right edge.
#[derive(Clone, Copy, Debug, PartialEq, Eq, Structural)]
pub enum HAlign {
    Left,
    Center,
    Right,
}

/// Where a line of text stands between the top and the bottom edge.
#[derive(Clone, Copy, Debug, PartialEq, Eq, Structural)]
pub enum VAlign {
    Top,
    Center,
    Bottom,
}

/// The footer: a title over the full width that is left, and buttons
/// beside it.
#[derive(Debug, PartialEq, Eq)]
pub struct FooterView {
    pub title: String,
    pub title_h_align: HAlign,
    pub title_v_align: VAlign,
    pub buttons: Vec<FooterButton>,
}

/// The footer of every screen: the title in the middle of the bottom line,
/// then a help and a quit button.
pub fn construct_footer_view() -> (r: FooterView)
    ensures
        r.title@ == "Hacker News Terminal UI - made by AOME ©"@,
        r.title_h_align == HAlign::Center,
        r.title_v_align == VAlign::Bottom,
        r.buttons@.len() == 2,
        r.buttons@[0].label@ == "[help] "@,
        r.buttons@[0].action == FooterAction::Help,
        r.buttons@[1].label@ == "[quit] "@,
        r.buttons@[1].action == FooterAction::Quit,
{
    let mut buttons: Vec<FooterButton> = Vec::new();
    buttons.push(FooterButton { label: "[help] ".to_owned(), action: FooterAction::Help });
    buttons.push(FooterButton { label: "[quit] ".to_owned(), action: FooterAction::Quit });
    FooterView {
        title: "Hacker News Terminal UI - made by AOME ©".to_owned(),
        title_h_align: HAlign::Center,
        title_v_align: VAlign::Bottom,
        buttons,
    }
}

/// A status bar: one line of text over the full width.
#[derive(Debug, PartialEq, Eq)]
pub struct StatusBar {
    pub text: String,
    pub align: HAlign,
}

/// The status bar that shows `desc` in its middle.
pub fn get_status_bar_with_desc(desc: &str) -> (r: StatusBar)
    ensures
        r.text@ == desc@,
        r.align == HAlign::Center,
{
    StatusBar { text: desc.to_owned(), align: HAlign::Center }
}

/// The title that a list of stories has under a filtering tag, if the tag is
/// one of the five that exist.
pub open spec fn spec_tag_title(tag: Seq<char>) -> Option<Seq<char>> {
    if tag == "front_page"@ {
        Some("Front Page"@)
    } else if tag == "story"@ {
        Some("All Stories"@)
    } else if tag == "job"@ {
        Some("Jobs"@)
    } else if tag == "ask_hn"@ {
        Some("Ask HN"@)
    } else if tag == "show_hn"@ {
        Some("Show HN"@)
    } else {
        None
    }
}

/// The description of a list of stories: its title, how it is sorted, and
/// its page, counted from 1.
pub open spec fn spec_story_view_desc(tag: Seq<char>, by_date: bool, page: nat) -> Seq<char> {
    "Story View - "@ + spec_tag_title(tag).unwrap() + " ("@ + (if by_date {
        "new"@
    } else {
        "popular"@
    }) + ", page: "@ + spec_decimal(page + 1) + ")"@
}

/// The title of the list of stories under `tag`, or `None` for a tag that
/// does not exist.
pub fn tag_title(tag: &str) -> (r: Option<&'static str>)
    ensures
        r is Some == spec_tag_title(tag@) is Some,
        r matches Some(title) ==> spec_tag_title(tag@) == Some(title@),
{
    if str_equal(tag, "front_page") {
        Some("Front Page")
    } else if str_equal(tag, "story") {
        Some("All Stories")
    } else if str_equal(tag, "job") {
        Some("Jobs")
    } else if str_equal(tag, "ask_hn") {
        Some("Ask HN")
    } else if str_equal(tag, "show_hn") {
        Some("Show HN")
    } else {
        None
    }
}

/// The description of the list of stories under `tag`, sorted by date or by
/// popularity, on page `page`, counted from 0.
pub fn get_story_view_desc_by_tag(tag: &str, by_date: bool, page: usize) -> (r: String)
    requires
        spec_tag_title(tag@) is Some,
        page < usize::MAX,
    ensures
        r@ == spec_story_view_desc(tag@, by_date, page as nat),
{
    let title = tag_title(tag).unwrap();
    let mut out = "Story View - ".to_owned();
    out.append(title);
    out.append(" (");
    out.append(if by_date { "new" } else { "popular" });
    out.append(", page: ");
    let number = decimal((page + 1) as u64);
    out.append(number.as_str());
    out.append(")");
    out
}

/// The seconds since the epoch that a reading of the clock stands for: the
/// seconds that it gives, and 0 for a reading that lies before the epoch
/// and so gives none.
pub fn seconds_or_zero(reading: Option<u64>) -> (r: u64)
    ensures
        r == match reading {
            Some(seconds) => seconds,
            None => 0,
        },
{
    match reading {
        Some(seconds) => seconds,
        None => 0,
    }
}

} // verus!
