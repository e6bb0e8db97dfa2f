//! The texts that the views share.
use crate::common::domain::{Activity, ContentBlock, HistoryItem};
use crate::strings;
use crate::strings::{chars_of, clipped, decimal_of, join, replace_char, string_of, words};
use vstd::prelude::*;

verus! {

/// What is said of whether an agent can be used.
pub fn availability_label(available: bool) -> (r: &'static str)
    ensures
        r@ == if available {
            "可用"@
        } else {
            "不可用"@
        },
{
    if available {
        "可用"
    } else {
        "不可用"
    }
}

/// The form of a day and a time: `MM-DD HH:MM`.
pub open spec fn day_and_time(s: Seq<char>) -> bool {
    &&& s.len() == 11
    &&& forall|i: int|
        0 <= i < 11 ==> if i == 2 {
            #[trigger] s[i] == '-'
        } else if i == 5 {
            s[i] == ' '
        } else if i == 8 {
            s[i] == ':'
        } else {
            strings::is_digit(s[i])
        }
}

/// A year has a day more than others.
pub open spec fn leap(year: int) -> bool {
    year % 4 == 0 && (year % 100 != 0 || year % 400 == 0)
}

/// How many days a month has.
pub open spec fn month_days(year: int, month: int) -> int {
    if month == 2 {
        if leap(year) {
            29
        } else {
            28
        }
    } else if month == 4 || month == 6 || month == 9 || month == 11 {
        30
    } else {
        31
    }
}

/// How many days of a year are before a month.
pub open spec fn days_before_month(year: int, month: int) -> int
    decreases month,
{
    if month <= 1 {
        0
    } else {
        days_before_month(year, month - 1) + month_days(year, month - 1)
    }
}

/// How many days are between the beginning of 1970 and that of a year: 477 leap days are before
/// 1970.
pub open spec fn days_before_year(year: int) -> int {
    365 * (year - 1970) + (year - 1) / 4 - (year - 1) / 100 + (year - 1) / 400 - 477
}

/// A date of the Gregorian calendar is that of a day, which is counted from the beginning of 1970.
pub open spec fn is_date(year: int, month: int, day: int, number: int) -> bool {
    &&& 1 <= month <= 12
    &&& 1 <= day <= month_days(year, month)
    &&& number == days_before_year(year) + days_before_month(year, month) + day - 1
}

/// A number below a hundred, in two digits.
pub open spec fn two_digits(n: int) -> Seq<char> {
    seq![strings::digit_char((n / 10) as nat), strings::digit_char((n % 10) as nat)]
}

/// The text shows the month, the day, the hour and the minute on a clock that is so many seconds
/// ahead of the universal time, at a point in time that is given in seconds from the beginning of
/// 1970.
pub open spec fn shows_clock(text: Seq<char>, seconds: int, ahead: int) -> bool {
    let local = seconds + ahead;
    exists|year: int, month: int, day: int| #[trigger]
        is_date(year, month, day, local / 86400) && text == two_digits(month) + seq!['-']
            + two_digits(day) + seq![' '] + two_digits(local / 3600 % 24) + seq![':'] + two_digits(
            local / 60 % 60,
        )
}

/// The text shows a point in time on the clock of some time zone. No zone is a day and two hours
/// away from the universal time.
pub open spec fn shows_time(text: Seq<char>, seconds: int) -> bool {
    exists|ahead: int| -93599 <= ahead <= 93599 && #[trigger] shows_clock(text, seconds, ahead)
}

/// `jiff::Timestamp::from_second`, `Timestamp::to_zoned` with the time zone of the system, and
/// `Zoned::strftime` with `%m-%d %H:%M`: the local day and time of a point in time, given in
/// seconds from the beginning of 1970; nothing where it is out of the range that jiff covers. The
/// day is that of the Gregorian calendar, and the clock is ahead of the universal time, or behind
/// it, by no more than jiff lets a time zone be. By how much it is depends on the time zone of the
/// machine, and is not said.
#[verifier::external_body]
fn local_time(seconds: i64) -> (r: Option<String>)
    ensures
        r is Some <==> -377705023201 <= seconds <= 253402207200,
        r matches Some(text) ==> shows_time(text@, seconds as int),
{
    let point = jiff::Timestamp::from_second(seconds).ok()?;
    let local = point.to_zoned(jiff::tz::TimeZone::system());
    Some(local.strftime("%m-%d %H:%M").to_string())
}

proof fn lemma_clock_form(text: Seq<char>, seconds: int, ahead: int)
    requires
        shows_clock(text, seconds, ahead),
    ensures
        day_and_time(text),
{
    let local = seconds + ahead;
    let (year, month, day) = choose|year: int, month: int, day: int| #[trigger]
        is_date(year, month, day, local / 86400) && text == two_digits(month) + seq!['-']
            + two_digits(day) + seq![' '] + two_digits(local / 3600 % 24) + seq![':'] + two_digits(
            local / 60 % 60,
        );
    assert(0 <= month / 10 <= 9 && 0 <= day / 10 <= 9);
}

/// The local day and time of a point in time, given in milliseconds; empty where it is too far
/// away.
pub fn timestamp(ms: u64) -> (r: String)
    ensures
        ms / 1000 <= 253402207200 ==> shows_time(r@, (ms / 1000) as int) && day_and_time(r@),
        ms / 1000 > 253402207200 ==> r@.len() == 0,
{
    match local_time((ms / 1000) as i64) {
        Some(text) => {
            proof {
                let seconds = (ms / 1000) as int;
                let ahead = choose|ahead: int|
                    -93599 <= ahead <= 93599 && #[trigger] shows_clock(text@, seconds, ahead);
                lemma_clock_form(text@, seconds, ahead);
            }
            text
        },
        None => String::new(),
    }
}

/// The text of a piece of content. What is no text is named.
pub open spec fn block_text(block: ContentBlock) -> Seq<char> {
    match block {
        ContentBlock::Text { text } => text@,
        ContentBlock::Resource { uri, .. } => "[资源 "@ + (match uri {
            Some(uri) => uri@,
            None => Seq::empty(),
        }) + "]"@,
        ContentBlock::ResourceLink { name, uri, .. } => "[链接 "@ + name@ + " "@ + uri@ + "]"@,
    }
}

/// The text of content.
pub open spec fn content_text(blocks: Seq<ContentBlock>) -> Seq<char>
    decreases blocks.len(),
{
    if blocks.len() == 0 {
        Seq::empty()
    } else {
        content_text(blocks.drop_last()) + block_text(blocks.last())
    }
}

/// The text of content.
pub fn blocks_text(blocks: &Vec<ContentBlock>) -> (r: String)
    ensures
        r@ == content_text(blocks@),
{
    let mut r: String = String::new();
    let mut i: usize = 0;
    proof {
        assert(blocks@.take(0) =~= Seq::empty());
    }
    while i < blocks.len()
        invariant
            0 <= i <= blocks@.len(),
            r@ == content_text(blocks@.take(i as int)),
        decreases blocks.len() - i,
    {
        let ghost before = r@;
        match &blocks[i] {
            ContentBlock::Text { text } => r.append(text.as_str()),
            ContentBlock::Resource { uri, .. } => {
                r.append("[资源 ");
                match uri {
                    Some(uri) => r.append(uri.as_str()),
                    None => {},
                }
                r.append("]");
            },
            ContentBlock::ResourceLink { name, uri, .. } => {
                r.append("[链接 ");
                r.append(name.as_str());
                r.append(" ");
                r.append(uri.as_str());
                r.append("]");
            },
        }
        proof {
            assert(blocks@.take(i + 1).drop_last() =~= blocks@.take(i as int));
            assert(blocks@.take(i + 1).last() == blocks@[i as int]);
            assert(r@ =~= before + block_text(blocks@[i as int]));
        }
        i = i + 1;
    }
    proof {
        assert(blocks@.take(i as int) =~= blocks@);
    }
    r
}

/// The text of an entry of a conversation.
pub fn history_text(item: &HistoryItem) -> (r: String)
    ensures
        r@ == match item {
            HistoryItem::UserMessage { content, .. } => content_text(content@),
            HistoryItem::AgentMessage { content, .. } => content_text(content@),
        },
{
    match item {
        HistoryItem::UserMessage { content, .. } => blocks_text(content),
        HistoryItem::AgentMessage { content, .. } => blocks_text(content),
    }
}

/// When an entry of a conversation was made.
pub fn history_timestamp(item: &HistoryItem) -> (r: u64)
    ensures
        r == match item {
            HistoryItem::UserMessage { timestamp, .. } => *timestamp,
            HistoryItem::AgentMessage { timestamp, .. } => *timestamp,
        },
{
    match item {
        HistoryItem::UserMessage { timestamp, .. } => *timestamp,
        HistoryItem::AgentMessage { timestamp, .. } => *timestamp,
    }
}

/// An activity in one line.
pub open spec fn activity_text(activity: Activity) -> Seq<char> {
    match activity {
        Activity::Thinking { thinking, .. } => "思考："@ + thinking@,
        Activity::ToolCall { tool_name, title, .. } => if title is Some && title->0@.len() > 0 {
            "工具："@ + tool_name@ + " · "@ + title->0@
        } else {
            "工具："@ + tool_name@
        },
        Activity::Error { error, .. } => "错误："@ + error@,
    }
}

/// An activity in one line.
pub fn activity_line(activity: &Activity) -> (r: String)
    ensures
        r@ == activity_text(*activity),
{
    let mut r: String = String::new();
    match activity {
        Activity::Thinking { thinking, .. } => {
            r.append("思考：");
            r.append(thinking.as_str());
        },
        Activity::ToolCall { tool_name, title, .. } => {
            r.append("工具：");
            r.append(tool_name.as_str());
            match title {
                Some(title) => {
                    if !title.as_str().is_empty() {
                        r.append(" · ");
                        r.append(title.as_str());
                    }
                },
                None => {},
            }
        },
        Activity::Error { error, .. } => {
            r.append("错误：");
            r.append(error.as_str());
        },
    }
    proof {
        assert(r@ =~= activity_text(*activity));
    }
    r
}

/// When an activity was made.
pub fn activity_timestamp(activity: &Activity) -> (r: u64)
    ensures
        r == match activity {
            Activity::Thinking { timestamp, .. } => *timestamp,
            Activity::ToolCall { timestamp, .. } => *timestamp,
            Activity::Error { timestamp, .. } => *timestamp,
        },
{
    match activity {
        Activity::Thinking { timestamp, .. } => *timestamp,
        Activity::ToolCall { timestamp, .. } => *timestamp,
        Activity::Error { timestamp, .. } => *timestamp,
    }
}

/// A text cut to a length, with a mark where it was cut, in one line.
pub open spec fn shortened(text: Seq<char>, max: nat) -> Seq<char> {
    strings::replaced(
        if text.len() > max {
            text.take(max as int).push('…')
        } else {
            text
        },
        '\n',
        ' ',
    )
}

/// A text cut to a length, with a mark where it was cut, in one line.
pub fn truncate(text: &str, max_chars: usize) -> (r: String)
    ensures
        r@ == shortened(text@, max_chars as nat),
{
    let mut r: String = clipped(text, max_chars);
    if text.unicode_len() > max_chars {
        r.push('…');
    }
    replace_char(r.as_str(), '\n', ' ')
}

/// Three digits of a number below a thousand.
pub open spec fn three_digits(n: nat) -> Seq<char> {
    seq![
        strings::digit_char(n / 100),
        strings::digit_char(n / 10 % 10),
        strings::digit_char(n % 10),
    ]
}

/// A number with commas between the thousands.
pub open spec fn grouped(n: nat) -> Seq<char>
    decreases n,
{
    if n < 1000 {
        strings::decimal(n)
    } else {
        grouped(n / 1000) + ","@ + three_digits(n % 1000)
    }
}

fn digit(d: u64) -> (r: char)
    requires
        d < 10,
    ensures
        r == strings::digit_char(d as nat),
{
    (48u8 + d as u8) as char
}

/// A number with commas between the thousands.
pub fn group_digits(n: u64) -> (r: String)
    ensures
        r@ == grouped(n as nat),
    decreases n,
{
    if n < 1000 {
        return decimal_of(n);
    }
    let mut r: String = group_digits(n / 1000);
    let low: u64 = n % 1000;
    let ghost before = r@;
    r.append(",");
    r.push(digit(low / 100));
    r.push(digit(low / 10 % 10));
    r.push(digit(low % 10));
    proof {
        assert(r@ =~= before + ","@ + three_digits(low as nat));
    }
    r
}

/// How much of a whole a part is, in tenths of a percent, rounded.
pub open spec fn tenths(part: nat, whole: nat) -> nat {
    (part * 2000 + whole) / (whole * 2)
}

/// How much of its context a session uses. Nothing is shown while that is not known, and no share
/// while the size of the context is not known.
pub open spec fn usage_text(size: nat, window: nat) -> Option<Seq<char>> {
    if size == 0 {
        None
    } else if window == 0 {
        Some(grouped(size) + " token"@)
    } else {
        let share = tenths(size, window);
        Some(
            grouped(size) + " / "@ + grouped(window) + " token（"@ + strings::decimal(share / 10)
                + "."@ + strings::decimal(share % 10) + "%）"@,
        )
    }
}

/// How much of its context a session uses.
pub fn context_usage_text(size: u64, window: u64) -> (r: Option<String>)
    ensures
        match usage_text(size as nat, window as nat) {
            Some(text) => r is Some && r->0@ == text,
            None => r is None,
        },
{
    if size == 0 {
        return None;
    }
    let mut r: String = group_digits(size);
    if window == 0 {
        r.append(" token");
        return Some(r);
    }
    proof {
        assert(size as u128 * 2000 + window as u128 <= u128::MAX) by (nonlinear_arith)
            requires
                size <= u64::MAX,
                window <= u64::MAX,
        ;
    }
    let share: u128 = (size as u128 * 2000 + window as u128) / (window as u128 * 2);
    r.append(" / ");
    r.append(group_digits(window).as_str());
    r.append(" token（");
    r.append(decimal_wide(share / 10).as_str());
    r.append(".");
    r.append(decimal_of((share % 10) as u64).as_str());
    r.append("%）");
    Some(r)
}

fn decimal_wide(n: u128) -> (r: String)
    ensures
        r@ == strings::decimal(n as nat),
    decreases n,
{
    if n < 10 {
        return decimal_of(n as u64);
    }
    let mut r: String = decimal_wide(n / 10);
    r.push(digit((n % 10) as u64));
    r
}

/// A text in one line, with one space between its words.
pub fn one_line(text: &str) -> (r: String)
    ensures
        r@ == strings::join_of(strings::words_of(text@), " "@),
{
    join(&words(text), " ")
}

/// Whether a character separates the parts of a path on some platform.
pub open spec fn separator(c: char) -> bool {
    c == '/' || c == '\\'
}

/// A path without the separators at its end.
pub open spec fn without_end(path: Seq<char>) -> Seq<char>
    decreases path.len(),
{
    if path.len() > 0 && separator(path.last()) {
        without_end(path.drop_last())
    } else {
        path
    }
}

/// What is behind the last separator of a path.
pub open spec fn behind_last(path: Seq<char>) -> Seq<char>
    decreases path.len(),
{
    if path.len() == 0 || separator(path.last()) {
        Seq::empty()
    } else {
        behind_last(path.drop_last()).push(path.last())
    }
}

/// The last part of a path; a path without parts stays as it is.
pub open spec fn last_part(path: Seq<char>) -> Seq<char> {
    let kept = without_end(path);
    if kept.len() == 0 {
        path
    } else {
        behind_last(kept)
    }
}

proof fn lemma_without_end(path: Seq<char>, n: int)
    requires
        0 <= n <= path.len(),
        n == 0 || !separator(path[n - 1]),
        forall|i: int| n <= i < path.len() ==> separator(#[trigger] path[i]),
    ensures
        without_end(path) == path.take(n),
    decreases path.len(),
{
    if n < path.len() {
        lemma_without_end(path.drop_last(), n);
        assert(path.drop_last().take(n) =~= path.take(n));
    } else {
        assert(path.take(n) =~= path);
    }
}

proof fn lemma_behind_last(path: Seq<char>, n: int)
    requires
        0 <= n <= path.len(),
        n == 0 || separator(path[n - 1]),
        forall|i: int| n <= i < path.len() ==> !separator(#[trigger] path[i]),
    ensures
        behind_last(path) == path.skip(n),
    decreases path.len(),
{
    if n < path.len() {
        lemma_behind_last(path.drop_last(), n);
        assert(path.drop_last().skip(n).push(path.last()) =~= path.skip(n));
    } else {
        assert(path.skip(n) =~= Seq::empty());
    }
}

/// The last part of a path; a path without parts stays as it is.
pub fn short_cwd(path: &str) -> (r: String)
    ensures
        r@ == last_part(path@),
{
    let x: Vec<char> = chars_of(path);
    let mut end: usize = x.len();
    while end > 0 && (x[end - 1] == '/' || x[end - 1] == '\\')
        invariant
            0 <= end <= x@.len(),
            forall|i: int| end <= i < x@.len() ==> separator(#[trigger] x@[i]),
        decreases end,
    {
        end = end - 1;
    }
    proof {
        lemma_without_end(x@, end as int);
    }
    if end == 0 {
        return path.to_owned();
    }
    let ghost kept = x@.take(end as int);
    let mut start: usize = end;
    while start > 0 && x[start - 1] != '/' && x[start - 1] != '\\'
        invariant
            0 <= start <= end <= x@.len(),
            kept == x@.take(end as int),
            forall|i: int| start <= i < end ==> !separator(#[trigger] kept[i]),
        decreases start,
    {
        assert(kept[start - 1] == x@[start - 1]);
        start = start - 1;
    }
    proof {
        if start > 0 {
            assert(kept[start - 1] == x@[start - 1]);
        }
        lemma_behind_last(kept, start as int);
        assert(kept.skip(start as int) =~= x@.subrange(start as int, end as int));
    }
    string_of(&x, start, end)
}

/// A directory and the beginning of a name in it, from what was typed: the directory is all up to
/// the last slash. Nothing where no slash was typed.
pub open spec fn typed_dir(text: Seq<char>) -> Option<(Seq<char>, Seq<char>)>
    decreases text.len(),
{
    if text.len() == 0 {
        None
    } else if text.last() == '/' {
        Some((text, Seq::empty()))
    } else {
        match typed_dir(text.drop_last()) {
            Some((dir, prefix)) => Some((dir, prefix.push(text.last()))),
            None => None,
        }
    }
}

proof fn lemma_typed_dir(text: Seq<char>, n: int)
    requires
        0 <= n <= text.len(),
        n == 0 || text[n - 1] == '/',
        forall|i: int| n <= i < text.len() ==> #[trigger] text[i] != '/',
    ensures
        n == 0 ==> typed_dir(text) is None,
        n > 0 ==> typed_dir(text) == Some((text.take(n), text.skip(n))),
    decreases text.len(),
{
    if n < text.len() {
        let less = text.drop_last();
        lemma_typed_dir(less, n);
        assert(less.take(n) =~= text.take(n));
        assert(less.skip(n).push(text.last()) =~= text.skip(n));
    } else if n > 0 {
        assert(text.take(n) =~= text);
        assert(text.skip(n) =~= Seq::empty());
    }
}

/// A directory and the beginning of a name in it, from what was typed.
pub fn split_dir_query(text: &str) -> (r: Option<(String, String)>)
    ensures
        match typed_dir(text@) {
            Some((dir, prefix)) => r is Some && (r->0).0@ == dir && (r->0).1@ == prefix,
            None => r is None,
        },
{
    let x: Vec<char> = chars_of(text);
    let mut n: usize = x.len();
    while n > 0 && x[n - 1] != '/'
        invariant
            0 <= n <= x@.len(),
            forall|i: int| n <= i < x@.len() ==> #[trigger] x@[i] != '/',
        decreases n,
    {
        n = n - 1;
    }
    proof {
        lemma_typed_dir(x@, n as int);
        assert(x@.subrange(0, n as int) =~= x@.take(n as int));
        assert(x@.subrange(n as int, x@.len() as int) =~= x@.skip(n as int));
    }
    if n == 0 {
        return None;
    }
    Some((string_of(&x, 0, n), string_of(&x, n, x.len())))
}

} // verus!
