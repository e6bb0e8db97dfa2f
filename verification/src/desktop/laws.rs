//! What holds of what the client shows.
use super::sessions::{Bubble, Choice, SlashRow};
use crate::common::api::{Agent, QuickCommand, RecentWorkspace};
use crate::common::domain::{
    Activity, ContentBlock, HistoryItem, SessionConfigSelectEntry, SlashCommand,
};
use crate::desktop::sessions;
use crate::desktop::state::Core;
use crate::desktop::ui;
use crate::strings;
use vstd::prelude::*;

verus! {

/// What is said is shown part by part: texts as they are, other parts by what they refer to.
pub proof fn law_what_is_said_is_shown_part_by_part(
    blocks: Seq<ContentBlock>,
    block: ContentBlock,
)
    ensures
        ui::content_text(Seq::empty()).len() == 0,
        block matches ContentBlock::Text { text } ==> ui::content_text(blocks.push(block))
            == ui::content_text(blocks) + text@,
        block matches ContentBlock::Resource { uri: Some(uri), .. } ==> ui::content_text(
            blocks.push(block),
        ) == ui::content_text(blocks) + ("[资源 "@ + uri@ + "]"@),
        block matches ContentBlock::Resource { uri: None, .. } ==> ui::content_text(
            blocks.push(block),
        ) == ui::content_text(blocks) + ("[资源 "@ + "]"@),
        block matches ContentBlock::ResourceLink { name, uri, .. } ==> ui::content_text(
            blocks.push(block),
        ) == ui::content_text(blocks) + ("[链接 "@ + name@ + " "@ + uri@ + "]"@),
{
    assert(blocks.push(block).drop_last() =~= blocks);
    assert("[资源 "@ + Seq::<char>::empty() =~= "[资源 "@);
}

/// An activity is shown by what it is and what it does.
pub proof fn law_activities_are_shown_by_what_they_do(activity: Activity)
    ensures
        activity matches Activity::Thinking { thinking, .. } ==> ui::activity_text(activity)
            == "思考："@ + thinking@,
        activity matches Activity::ToolCall { tool_name, title: None, .. } ==> ui::activity_text(
            activity,
        ) == "工具："@ + tool_name@,
        activity matches Activity::ToolCall { tool_name, title: Some(title), .. } ==> title@.len()
            > 0 ==> ui::activity_text(activity) == "工具："@ + tool_name@ + " · "@ + title@,
        activity matches Activity::Error { error, .. } ==> ui::activity_text(activity)
            == "错误："@ + error@,
{
}

/// A shortened text is one line: as much of the text as there may be, line feeds turned into spaces,
/// with a mark behind it where something is missing.
pub proof fn law_shortened_texts_are_one_line(text: Seq<char>, max: nat, i: int)
    requires
        0 <= i < ui::shortened(text, max).len(),
    ensures
        ui::shortened(text, max)[i] != '\n',
        text.len() <= max ==> ui::shortened(text, max).len() == text.len(),
        text.len() > max ==> ui::shortened(text, max).len() == max + 1 && ui::shortened(
            text,
            max,
        ).last() == '…',
        i < text.len() && i < max ==> ui::shortened(text, max)[i] == if text[i] == '\n' {
            ' '
        } else {
            text[i]
        },
{
}

proof fn lemma_three_more_digits(n: nat)
    requires
        n >= 1000,
    ensures
        strings::decimal(n) == strings::decimal(n / 1000) + ui::three_digits(n % 1000),
{
    let a = n / 10;
    let b = n / 100;
    assert(a / 10 == b);
    assert(b / 10 == n / 1000);
    assert(strings::decimal(n) == strings::decimal(a).push(strings::digit_char(n % 10)));
    assert(strings::decimal(a) == strings::decimal(b).push(strings::digit_char(a % 10)));
    assert(strings::decimal(b) == strings::decimal(n / 1000).push(strings::digit_char(b % 10)));
    assert(n % 1000 / 100 == b % 10);
    assert(n % 1000 / 10 % 10 == a % 10);
    assert(n % 1000 % 10 == n % 10);
    assert(strings::decimal(n) =~= strings::decimal(n / 1000) + ui::three_digits(n % 1000));
}

proof fn lemma_last_group(front: Seq<char>, digits: Seq<char>)
    requires
        digits.len() == 3,
        forall|i: int| 0 <= i < digits.len() ==> #[trigger] digits[i] != ',',
    ensures
        ({
            let all = front + seq![','] + digits;
            &&& all.len() == front.len() + 4
            &&& all[all.len() - 4] == ','
            &&& all.take(all.len() - 4) == front
            &&& !all.skip(all.len() - 3).contains(',')
        }),
{
    let all = front + seq![','] + digits;
    assert(all.take(all.len() - 4) =~= front);
    assert(all.skip(all.len() - 3) =~= digits);
}

/// A large number is shown with a comma before every three digits from its end; without the commas it
/// is the number.
#[verifier::spinoff_prover]
#[verifier::rlimit(50)]
pub proof fn law_large_numbers_are_grouped_by_three(n: nat)
    ensures
        ui::grouped(n).filter(|c: char| c != ',') == strings::decimal(n),
        n < 1000 ==> ui::grouped(n) == strings::decimal(n),
        n >= 1000 ==> ui::grouped(n).len() >= 5 && ui::grouped(n)[ui::grouped(n).len() - 4] == ','
            && ui::grouped(n).take(ui::grouped(n).len() - 4) == ui::grouped(n / 1000)
            && !ui::grouped(n).skip(ui::grouped(n).len() - 3).contains(','),
    decreases n,
{
    let plain = |c: char| c != ',';
    strings::lemma_decimal(n);
    if n < 1000 {
        let d = strings::decimal(n);
        assert forall|i: int| 0 <= i < d.len() implies plain(#[trigger] d[i]) by {
            assert(strings::is_digit(d[i]));
        }
        lemma_all_kept(d, plain);
    } else {
        law_large_numbers_are_grouped_by_three(n / 1000);
        lemma_three_more_digits(n);
        reveal_strlit(",");
        let front = ui::grouped(n / 1000);
        let digits = ui::three_digits(n % 1000);
        let all = ui::grouped(n);
        assert(all =~= front + (","@ + digits));
        assert forall|i: int| 0 <= i < digits.len() implies plain(#[trigger] digits[i]) by {}
        lemma_all_kept(digits, plain);
        Seq::filter_distributes_over_add(front, ","@ + digits, plain);
        Seq::filter_distributes_over_add(","@, digits, plain);
        assert(","@ =~= seq![',']);
        assert(","@.filter(plain) =~= Seq::empty()) by {
            reveal(Seq::filter);
            assert(","@.drop_last() =~= Seq::empty());
            assert(Seq::<char>::empty().filter(plain) =~= Seq::empty());
        }
        assert(all.filter(plain) =~= strings::decimal(n / 1000) + digits);
        strings::lemma_decimal(n / 1000);
        assert(front.len() >= 1) by {
            if n / 1000 >= 1000 {
            } else {
                assert(front == strings::decimal(n / 1000));
            }
        }
        lemma_last_group(front, digits);
        assert(all == front + seq![','] + digits);
    }
}

proof fn lemma_all_kept(s: Seq<char>, plain: spec_fn(char) -> bool)
    requires
        forall|i: int| 0 <= i < s.len() ==> plain(#[trigger] s[i]),
    ensures
        s.filter(plain) == s,
    decreases s.len(),
{
    reveal(Seq::filter);
    if s.len() > 0 {
        let less = s.drop_last();
        assert forall|i: int| 0 <= i < less.len() implies plain(#[trigger] less[i]) by {
            assert(s[i] == less[i]);
        }
        lemma_all_kept(less, plain);
        assert(plain(s[s.len() - 1]));
        assert(less.push(s.last()) =~= s);
    } else {
        assert(s.filter(plain) =~= s);
    }
}

/// The share of the context that is used is told to the nearest tenth of a percent.
pub proof fn law_shares_are_rounded_to_tenths(part: nat, whole: nat)
    requires
        whole > 0,
    ensures
        2 * whole * ui::tenths(part, whole) <= 2000 * part + whole,
        2000 * part + whole < 2 * whole * (ui::tenths(part, whole) + 1),
{
    let d = whole * 2;
    let x = part * 2000 + whole;
    vstd::arithmetic::div_mod::lemma_fundamental_div_mod(x as int, d as int);
    vstd::arithmetic::div_mod::lemma_mod_bound(x as int, d as int);
    assert(2 * whole * ui::tenths(part, whole) == d * (x / d)) by (nonlinear_arith)
        requires
            d == whole * 2,
            ui::tenths(part, whole) == x / d,
    ;
    assert(2 * whole * (ui::tenths(part, whole) + 1) == d * (x / d) + d) by (nonlinear_arith)
        requires
            d == whole * 2,
            ui::tenths(part, whole) == x / d,
    ;
}

/// How much of the context is used is told where something is, of how much where that is known.
pub proof fn law_used_context_is_told(size: nat, window: nat)
    ensures
        ui::usage_text(size, window) is None <==> size == 0,
        size > 0 && window == 0 ==> ui::usage_text(size, window) == Some(
            ui::grouped(size) + " token"@,
        ),
        size > 0 && window > 0 ==> ui::usage_text(size, window) == Some(
            ui::grouped(size) + " / "@ + ui::grouped(window) + " token（"@ + strings::decimal(
                ui::tenths(size, window) / 10,
            ) + "."@ + strings::decimal(ui::tenths(size, window) % 10) + "%）"@,
        ),
{
}

proof fn lemma_behind_last(dir: Seq<char>, name: Seq<char>)
    requires
        dir.len() > 0,
        dir.last() == '/' || dir.last() == '\\',
        forall|i: int| 0 <= i < name.len() ==> #[trigger] name[i] != '/' && name[i] != '\\',
    ensures
        ui::behind_last(dir + name) == name,
    decreases name.len(),
{
    if name.len() == 0 {
        assert(dir + name =~= dir);
        assert(ui::behind_last(dir) =~= name);
    } else {
        let less = name.drop_last();
        assert forall|i: int| 0 <= i < less.len() implies #[trigger] less[i] != '/' && less[i]
            != '\\' by {
            assert(less[i] == name[i]);
        }
        lemma_behind_last(dir, less);
        assert((dir + name).drop_last() =~= dir + less);
        assert((dir + name).last() == name.last());
        assert(name[name.len() - 1] == name.last());
        assert(less.push(name.last()) =~= name);
    }
}

/// A directory is shown by its last name, whatever separators stand behind it.
pub proof fn law_directories_are_shown_by_their_last_name(dir: Seq<char>, name: Seq<char>)
    requires
        name.len() > 0,
        forall|i: int| 0 <= i < name.len() ==> #[trigger] name[i] != '/' && name[i] != '\\',
    ensures
        ui::last_part(dir.push('/') + name) == name,
        ui::last_part(dir.push('\\') + name) == name,
        ui::last_part((dir.push('/') + name).push('/')) == name,
{
    let a = dir.push('/') + name;
    let b = dir.push('\\') + name;
    assert(name[name.len() - 1] == name.last());
    assert(a.last() == name.last() && b.last() == name.last());
    lemma_behind_last(dir.push('/'), name);
    lemma_behind_last(dir.push('\\'), name);
    assert(a.push('/').drop_last() =~= a);
    assert(ui::without_end(a) == a);
    assert(ui::without_end(a.push('/')) == a);
}

proof fn lemma_separators_at_the_end(path: Seq<char>, tail: Seq<char>)
    requires
        path.len() == 0 || (path.last() != '/' && path.last() != '\\'),
        forall|i: int| 0 <= i < tail.len() ==> #[trigger] tail[i] == '/' || tail[i] == '\\',
    ensures
        ui::without_end(path + tail) == path,
    decreases tail.len(),
{
    if tail.len() == 0 {
        assert(path + tail =~= path);
    } else {
        let less = tail.drop_last();
        assert forall|i: int| 0 <= i < less.len() implies #[trigger] less[i] == '/' || less[i]
            == '\\' by {
            assert(less[i] == tail[i]);
        }
        lemma_separators_at_the_end(path, less);
        assert((path + tail).drop_last() =~= path + less);
        assert((path + tail).last() == tail[tail.len() - 1]);
    }
}

proof fn lemma_lone_name(name: Seq<char>)
    requires
        forall|i: int| 0 <= i < name.len() ==> #[trigger] name[i] != '/' && name[i] != '\\',
    ensures
        ui::behind_last(name) == name,
    decreases name.len(),
{
    if name.len() > 0 {
        let less = name.drop_last();
        assert forall|i: int| 0 <= i < less.len() implies #[trigger] less[i] != '/' && less[i]
            != '\\' by {
            assert(less[i] == name[i]);
        }
        lemma_lone_name(less);
        assert(name[name.len() - 1] == name.last());
        assert(less.push(name.last()) =~= name);
    } else {
        assert(ui::behind_last(name) =~= name);
    }
}

/// A path of one name is shown by that name, whatever separators stand behind it, and one of
/// separators alone as it is.
pub proof fn law_lone_names_are_shown_as_they_are(name: Seq<char>, tail: Seq<char>)
    requires
        forall|i: int| 0 <= i < name.len() ==> #[trigger] name[i] != '/' && name[i] != '\\',
        forall|i: int| 0 <= i < tail.len() ==> #[trigger] tail[i] == '/' || tail[i] == '\\',
    ensures
        name.len() > 0 ==> ui::last_part(name + tail) == name,
        ui::last_part(tail) == tail,
{
    lemma_lone_name(name);
    if name.len() > 0 {
        assert(name[name.len() - 1] == name.last());
        lemma_separators_at_the_end(name, tail);
    }
    lemma_separators_at_the_end(Seq::empty(), tail);
    assert(Seq::<char>::empty() + tail =~= tail);
}

/// Days follow each other from the first of 1970 on: within a month, which has thirty or thirty-one of
/// them but for the second, to the next month, and to the next year.
pub proof fn law_days_follow_each_other(year: int, month: int, day: int, number: int)
    requires
        ui::is_date(year, month, day, number),
    ensures
        ui::is_date(1970, 1, 1, 0),
        ({
            let last = if month == 2 {
                if year % 4 == 0 && (year % 100 != 0 || year % 400 == 0) {
                    29int
                } else {
                    28
                }
            } else if month == 4 || month == 6 || month == 9 || month == 11 {
                30
            } else {
                31
            };
            &&& 1 <= month <= 12
            &&& 1 <= day <= last
            &&& day < last ==> ui::is_date(year, month, day + 1, number + 1)
            &&& day == last && month < 12 ==> ui::is_date(year, month + 1, 1, number + 1)
            &&& day == last && month == 12 ==> ui::is_date(year + 1, 1, 1, number + 1)
        }),
{
    reveal_with_fuel(ui::days_before_month, 13);
    if month == 12 {
        assert(ui::days_before_month(year, 12) == if ui::leap(year) {
            335int
        } else {
            334
        });
        assert(year / 4 - (year - 1) / 4 == if year % 4 == 0 {
            1int
        } else {
            0
        });
        assert(year / 100 - (year - 1) / 100 == if year % 100 == 0 {
            1int
        } else {
            0
        });
        assert(year / 400 - (year - 1) / 400 == if year % 400 == 0 {
            1int
        } else {
            0
        });
        assert(year % 400 == 0 ==> year % 100 == 0);
        assert(year % 100 == 0 ==> year % 4 == 0);
    }
}

/// A choice stands for a name under a label, is marked where it was picked, and can be picked where
/// that is possible.
pub proof fn law_choices_stand_for_names(
    choice: Choice,
    name: Seq<char>,
    label: Seq<char>,
    selected: bool,
    enabled: bool,
)
    ensures
        choice.stands_for(name, label, selected, enabled) <==> choice.name@ == name && choice.label@
            == label && (choice.selected <==> selected) && (choice.enabled <==> enabled),
        forall|one: Option<String>| #[trigger]
            sessions::picked(one, name) <==> one is Some && one->0@ == name,
{
}

/// The agents of a machine are those that were found on it, and none on one that is not known.
pub proof fn law_machines_have_their_agents(
    agents: Seq<(String, Vec<Agent>)>,
    machine: Seq<char>,
    k: int,
)
    requires
        0 <= k < agents.len(),
    ensures
        agents[k].0@ == machine && (forall|j: int| 0 <= j < k ==> (#[trigger] agents[j]).0@
            != machine) ==> sessions::agents_of(agents, machine) == agents[k].1@,
        (forall|j: int| 0 <= j < agents.len() ==> (#[trigger] agents[j]).0@ != machine)
            ==> sessions::agents_of(agents, machine).len() == 0,
    decreases agents.len(),
{
    if agents[0].0@ != machine {
        let rest = agents.skip(1);
        assert(rest.len() == 0 ==> sessions::agents_of(rest, machine).len() == 0);
        assert forall|j: int| 0 <= j < rest.len() implies rest[j] == #[trigger] agents[j + 1] by {}
        if rest.len() > 0 {
            let n = if k > 0 {
                k - 1
            } else {
                0
            };
            law_machines_have_their_agents(rest, machine, n);
            if agents[k].0@ == machine && (forall|j: int|
                0 <= j < k ==> (#[trigger] agents[j]).0@ != machine) {
                assert(k > 0);
                assert forall|j: int| 0 <= j < n implies (#[trigger] rest[j]).0@ != machine by {
                    assert(agents[j + 1].0@ != machine);
                }
            }
            if forall|j: int| 0 <= j < agents.len() ==> (#[trigger] agents[j]).0@ != machine {
                assert forall|j: int| 0 <= j < rest.len() implies (#[trigger] rest[j]).0@
                    != machine by {
                    assert(agents[j + 1].0@ != machine);
                }
            }
        }
    }
}

/// An agent can be used where it is on the machine and available; a session can be made where the
/// agent that was picked can be used on the machine that was picked.
pub proof fn law_sessions_are_made_with_usable_agents(
    core: Core,
    machine: Seq<char>,
    agent: Seq<char>,
)
    ensures
        sessions::usable(core.settings.agents@, machine, agent) <==> exists|i: int|
            0 <= i < sessions::agents_of(core.settings.agents@, machine).len() && (
            #[trigger] sessions::agents_of(core.settings.agents@, machine)[i]).available
                && sessions::agents_of(core.settings.agents@, machine)[i].name@ == agent,
        sessions::ready(core) <==> core.new_session.machine is Some && core.new_session.agent
            is Some && sessions::usable(
            core.settings.agents@,
            core.new_session.machine->0@,
            core.new_session.agent->0@,
        ),
{
}

/// The directories that are offered are the first twenty of those that were used on the machine that
/// was picked.
pub proof fn law_directories_of_the_machine_are_offered(
    workspaces: Seq<RecentWorkspace>,
    machine: String,
    i: int,
)
    requires
        0 <= i < sessions::recent_of(workspaces, Some(machine)).len(),
    ensures
        ({
            let own = workspaces.filter(|w: RecentWorkspace| w.machine@ == machine@);
            let offered = sessions::recent_of(workspaces, Some(machine));
            &&& offered[i] == own[i]
            &&& offered[i].machine@ == machine@
            &&& offered.len() == if own.len() > 20 {
                20
            } else {
                own.len()
            }
        }),
        sessions::recent_of(workspaces, None).len() == 0,
{
    let own = workspaces.filter(|w: RecentWorkspace| w.machine@ == machine@);
    let same = workspaces.filter(
        |w: RecentWorkspace| sessions::picked(Some(machine), w.machine@),
    );
    lemma_same_filter(
        workspaces,
        |w: RecentWorkspace| w.machine@ == machine@,
        |w: RecentWorkspace| sessions::picked(Some(machine), w.machine@),
    );
    lemma_all_fit(workspaces, |w: RecentWorkspace| w.machine@ == machine@);
    lemma_none_fit(workspaces, |w: RecentWorkspace| sessions::picked(None, w.machine@));
}

proof fn lemma_same_filter<T>(s: Seq<T>, a: spec_fn(T) -> bool, b: spec_fn(T) -> bool)
    requires
        forall|x: T| #[trigger] a(x) == b(x),
    ensures
        s.filter(a) == s.filter(b),
    decreases s.len(),
{
    reveal(Seq::filter);
    if s.len() > 0 {
        lemma_same_filter(s.drop_last(), a, b);
        assert(a(s.last()) == b(s.last()));
    }
}

proof fn lemma_all_fit<T>(s: Seq<T>, fits: spec_fn(T) -> bool)
    ensures
        forall|i: int| 0 <= i < s.filter(fits).len() ==> fits(#[trigger] s.filter(fits)[i]),
    decreases s.len(),
{
    reveal(Seq::filter);
    if s.len() > 0 {
        lemma_all_fit(s.drop_last(), fits);
        let before = s.drop_last().filter(fits);
        assert forall|i: int| 0 <= i < s.filter(fits).len() implies fits(
            #[trigger] s.filter(fits)[i],
        ) by {
            if i < before.len() {
                assert(s.filter(fits)[i] == before[i]);
            }
        }
    }
}

proof fn lemma_none_fit<T>(s: Seq<T>, fits: spec_fn(T) -> bool)
    requires
        forall|x: T| !#[trigger] fits(x),
    ensures
        s.filter(fits).len() == 0,
    decreases s.len(),
{
    reveal(Seq::filter);
    if s.len() > 0 {
        lemma_none_fit(s.drop_last(), fits);
        assert(!fits(s.last()));
    }
}

/// A message is shown with its text and its time, on the side of who said it.
pub proof fn law_messages_are_shown_on_their_side(bubble: Bubble, item: HistoryItem)
    requires
        sessions::bubble_of(bubble, item),
    ensures
        bubble.own <==> item is UserMessage,
        item matches HistoryItem::UserMessage { content, timestamp, .. } ==> bubble.text@
            == ui::content_text(content@) && bubble.timestamp == timestamp,
        item matches HistoryItem::AgentMessage { content, timestamp, .. } ==> bubble.text@
            == ui::content_text(content@) && bubble.timestamp == timestamp,
{
}

/// A quick command is offered everywhere where it has no project, and else in sessions of its
/// project: that of the session, or of the workflow where the session has none.
pub proof fn law_commands_are_offered_in_their_project(core: Core, command: QuickCommand)
    ensures
        command.project is None ==> sessions::offered(command, sessions::open_project(core)),
        command.project matches Some(name) ==> (sessions::offered(
            command,
            sessions::open_project(core),
        ) <==> sessions::open_project(core) is Some && sessions::open_project(core)->0@ == name@),
        core.view.session matches Some(session) ==> session.project is Some
            ==> sessions::open_project(core) == session.project,
        core.view.session is None || core.view.session->0.project is None ==> sessions::open_project(
            core,
        ) == if core.view.workflow is Some {
            core.view.workflow->0.project
        } else {
            None
        },
{
}

/// A command is shown behind a slash with its hint, or with what it does where it has none.
pub proof fn law_commands_are_shown_with_their_hint(
    row: SlashRow,
    command: SlashCommand,
    selected: bool,
)
    requires
        sessions::slash_row_of(row, command, selected),
    ensures
        row.name@ == "/"@ + command.name@,
        command.hint matches Some(hint) ==> row.hint@ == ui::shortened(hint@, 48),
        command.hint is None ==> row.hint@ == ui::shortened(command.description@, 48),
        row.selected <==> selected,
{
}

/// A value is shown by the name of the first choice that has it, and by itself where none has.
pub proof fn law_values_are_shown_by_their_names(
    options: Seq<SessionConfigSelectEntry>,
    value: Seq<char>,
    k: int,
)
    requires
        0 <= k < options.len(),
    ensures
        options[k].value@ == value && (forall|j: int| 0 <= j < k ==> (#[trigger] options[j]).value@
            != value) ==> sessions::value_name(options, value) == options[k].name@,
        (forall|j: int| 0 <= j < options.len() ==> (#[trigger] options[j]).value@ != value)
            ==> sessions::value_name(options, value) == value,
    decreases options.len(),
{
    if options[0].value@ != value {
        let rest = options.skip(1);
        assert(rest.len() == 0 ==> sessions::value_name(rest, value) == value);
        assert forall|j: int| 0 <= j < rest.len() implies rest[j] == #[trigger] options[j + 1] by {}
        if rest.len() > 0 {
            let n = if k > 0 {
                k - 1
            } else {
                0
            };
            law_values_are_shown_by_their_names(rest, value, n);
            if options[k].value@ == value && (forall|j: int|
                0 <= j < k ==> (#[trigger] options[j]).value@ != value) {
                assert(k > 0);
                assert forall|j: int| 0 <= j < n implies (#[trigger] rest[j]).value@ != value by {
                    assert(options[j + 1].value@ != value);
                }
            }
            if forall|j: int| 0 <= j < options.len() ==> (#[trigger] options[j]).value@ != value {
                assert forall|j: int| 0 <= j < rest.len() implies (#[trigger] rest[j]).value@
                    != value by {
                    assert(options[j + 1].value@ != value);
                }
            }
        }
    }
}

} // verus!
