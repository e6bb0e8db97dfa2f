//! What holds of the polling as a whole.
use super::Request;
use crate::common::api::{Agent, Session, Terminal, Workflow};
use crate::common::domain::{Activity, ContentBlock, HistoryItem};
use crate::desktop::client::{Body, Verb};
use crate::desktop::poll;
use crate::desktop::state::{Core, ListEntry, OpenTarget, SettingsTab, SidePanel, Ticks};
use crate::sorting;
use crate::sorting::Ranked;
use vstd::prelude::*;

verus! {

/// Of whatever is open, session or workflow, the conversation and what goes on are due at a tick
/// exactly when they were never fetched or five and two seconds have passed since. The
/// activities are due every ten seconds while their panel is open. The plan, while its panel is
/// open, and the options are due of a session alone.
pub proof fn law_what_is_open_is_kept_up_to_date(
    target: OpenTarget,
    panel: Option<SidePanel>,
    last: Ticks,
    now: u64,
)
    ensures
        ({
            let due = poll::open_due(target, panel, last, now);
            &&& due.target == target
            &&& due.history <==> (last.history matches Some(at) ==> at + 5000 <= now)
            &&& due.ongoing <==> (last.ongoing matches Some(at) ==> at + 2000 <= now)
            &&& due.activities <==> panel == Some(SidePanel::Activities) && (
            last.activities matches Some(at) ==> at + 10000 <= now)
            &&& due.plan <==> target is Session && panel == Some(SidePanel::Plan) && (
            last.plan matches Some(at) ==> at + 10000 <= now)
            &&& due.options <==> target is Session && (last.options matches Some(at) ==> at + 5000
                <= now)
        }),
{
}

/// A conversation that was fetched is due again after five seconds and not before, session or
/// workflow alike; and what is due stays due until it is fetched.
pub proof fn law_the_conversation_is_fetched_in_turn(
    target: OpenTarget,
    other: OpenTarget,
    panel: Option<SidePanel>,
    last: Ticks,
    now: u64,
    later: u64,
)
    requires
        now <= later,
    ensures
        poll::open_due(target, panel, last, now).history == poll::open_due(
            other,
            panel,
            last,
            now,
        ).history,
        poll::open_due(target, panel, last, now).history ==> poll::open_due(
            target,
            panel,
            last,
            later,
        ).history,
        poll::open_due(
            target,
            panel,
            Ticks { history: Some(now), ..last },
            later,
        ).history <==> later - now >= 5000,
        poll::open_due(target, panel, Ticks { history: None, ..last }, now).history,
{
}

/// An answer is kept only where it is about what is open: a session or a workflow, and the same one.
pub proof fn law_only_what_is_open_is_kept(core: Core, target: OpenTarget)
    ensures
        poll::is_open(core, target) <==> match (core.open, target) {
            (Some(OpenTarget::Session(a)), OpenTarget::Session(b)) => a@ == b@,
            (Some(OpenTarget::Workflow(a)), OpenTarget::Workflow(b)) => a@ == b@,
            _ => false,
        },
{
}

/// The newest page stands at the end of the window as it came.
pub proof fn law_newest_page_stands_at_the_end<T>(
    items: Seq<T>,
    page: Seq<T>,
    key: spec_fn(T) -> Seq<char>,
)
    ensures
        page.is_suffix_of(poll::with_newest(items, page, key)),
        items.len() == 0 ==> poll::with_newest(items, page, key) == page,
        page.len() == 0 ==> poll::with_newest(items, page, key) == items,
{
    reveal(Seq::filter);
    let all = poll::with_newest(items, page, key);
    assert(all.skip(all.len() - page.len()) =~= page);
    if items.len() == 0 {
        assert(all =~= page);
    }
    if page.len() == 0 {
        assert forall|i: int| 0 <= i < items.len() implies !poll::on_page(
            page,
            key,
            key(#[trigger] items[i]),
        ) by {}
        super::lemma_none_on_page(items, page, key);
        assert(all =~= items);
    }
}

/// An item behind the others of the window stays behind them and before the page, unless the page
/// holds an item of its name.
pub proof fn law_older_items_keep_their_places<T>(
    items: Seq<T>,
    item: T,
    page: Seq<T>,
    key: spec_fn(T) -> Seq<char>,
)
    ensures
        ({
            let before = poll::with_newest(items, page, key);
            let named = exists|k: int| 0 <= k < page.len() && key(#[trigger] page[k]) == key(item);
            poll::with_newest(items.push(item), page, key) == if named {
                before
            } else {
                before.insert(before.len() - page.len(), item)
            }
        }),
{
    reveal(Seq::filter);
    assert(items.push(item).drop_last() =~= items);
    let names = page.map_values(key);
    if names.contains(key(item)) {
        let k = names.index_of(key(item));
        assert(key(page[k]) == key(item));
    } else {
        assert forall|k: int| 0 <= k < page.len() implies key(#[trigger] page[k]) != key(item) by {
            assert(names[k] == key(page[k]));
        }
        let before = poll::with_newest(items, page, key);
        assert(poll::with_newest(items.push(item), page, key) =~= before.insert(
            before.len() - page.len(),
            item,
        ));
    }
}

/// The list holds every session and every workflow that was fetched, and nothing else.
pub proof fn law_the_list_holds_what_was_fetched(
    sessions: Seq<Session>,
    workflows: Seq<Workflow>,
    entry: ListEntry,
)
    ensures
        poll::as_entries(sessions, workflows).contains(entry) <==> match entry {
            ListEntry::Session(session) => sessions.contains(session),
            ListEntry::Workflow(workflow) => workflows.contains(workflow),
        },
        poll::as_entries(sessions, workflows).len() == sessions.len() + workflows.len(),
{
    let all = poll::as_entries(sessions, workflows);
    if all.contains(entry) {
        let k = all.index_of(entry);
        if k < sessions.len() {
            assert(sessions.contains(sessions[k]));
        } else {
            assert(workflows.contains(workflows[k - sessions.len()]));
        }
    }
    match entry {
        ListEntry::Session(session) => if sessions.contains(session) {
            let k = sessions.index_of(session);
            assert(all[k] == entry);
        },
        ListEntry::Workflow(workflow) => if workflows.contains(workflow) {
            let k = workflows.index_of(workflow);
            assert(all[sessions.len() + k] == entry);
        },
    }
}

/// In the list what changed last stands first.
pub proof fn law_the_newest_entries_stand_first(entries: Seq<ListEntry>, i: int, j: int)
    requires
        0 <= i < j < entries.len(),
    ensures
        ({
            let changed = |e: ListEntry|
                match e {
                    ListEntry::Session(session) => session.updated_at,
                    ListEntry::Workflow(workflow) => workflow.updated_at,
                };
            changed(sorting::sorted_of(entries)[i]) >= changed(sorting::sorted_of(entries)[j])
        }),
{
    sorting::law_sorting_orders(entries);
    let all = sorting::sorted_of(entries);
    assert(all[i].ranks(all[j]));
}

proof fn lemma_put(entries: Seq<ListEntry>, entry: ListEntry, id: Seq<char>)
    ensures
        ({
            let after = poll::put(entries, entry);
            let has = |list: Seq<ListEntry>|
                exists|k: int| 0 <= k < list.len() && (#[trigger] list[k]).key() == id;
            &&& has(after) <==> has(entries) || id == entry.key()
            &&& after.contains(entry)
            &&& forall|k: int|
                0 <= k < entries.len() && (#[trigger] entries[k]).key() != entry.key() ==> after[k]
                    == entries[k] && k < after.len()
        }),
{
    let at = poll::place_of(entries, entry.key()) as int;
    super::lemma_place(entries, entry.key());
    let after = poll::put(entries, entry);
    if at < entries.len() {
        assert(after[at] == entry);
    } else {
        assert(after[entries.len() as int] == entry);
    }
    if exists|k: int| 0 <= k < entries.len() && (#[trigger] entries[k]).key() == id {
        let k = choose|k: int| 0 <= k < entries.len() && (#[trigger] entries[k]).key() == id;
        assert(after[k].key() == id);
    }
    if exists|k: int| 0 <= k < after.len() && (#[trigger] after[k]).key() == id {
        let k = choose|k: int| 0 <= k < after.len() && (#[trigger] after[k]).key() == id;
        if k < entries.len() {
            assert(entries[k].key() == after[k].key());
        }
    }
    if id == entry.key() {
        let k = after.index_of(entry);
        assert(after[k].key() == id);
    }
}

/// Taking up an older page loses no entry of the list and none of the page: what either of them
/// names is in the list afterwards, and nothing else is.
pub proof fn law_older_pages_lose_nothing(
    entries: Seq<ListEntry>,
    page: Seq<ListEntry>,
    id: Seq<char>,
)
    ensures
        ({
            let has = |list: Seq<ListEntry>|
                exists|k: int| 0 <= k < list.len() && (#[trigger] list[k]).key() == id;
            has(poll::put_all(entries, page)) <==> has(entries) || has(page)
        }),
    decreases page.len(),
{
    if page.len() > 0 {
        let less = page.drop_last();
        law_older_pages_lose_nothing(entries, less, id);
        lemma_put(poll::put_all(entries, less), page.last(), id);
        if exists|k: int| 0 <= k < page.len() && (#[trigger] page[k]).key() == id {
            let k = choose|k: int| 0 <= k < page.len() && (#[trigger] page[k]).key() == id;
            if k < less.len() {
                assert(less[k].key() == id);
            }
        }
        if exists|k: int| 0 <= k < less.len() && (#[trigger] less[k]).key() == id {
            let k = choose|k: int| 0 <= k < less.len() && (#[trigger] less[k]).key() == id;
            assert(page[k].key() == id);
        }
        if page.last().key() == id {
            assert(page[page.len() - 1].key() == id);
        }
    }
}

/// An entry that is taken up again takes the place of the one that it was, and the others stay.
pub proof fn law_an_entry_takes_its_place(entries: Seq<ListEntry>, entry: ListEntry, k: int)
    requires
        0 <= k < entries.len(),
        poll::once_each(entries, |e: ListEntry| e.key()),
    ensures
        entries[k].key() == entry.key() ==> poll::put(entries, entry) == entries.update(k, entry),
        poll::put(entries, entry).contains(entry),
        poll::put(entries, entries[k]) == entries,
{
    let key = |e: ListEntry| e.key();
    super::lemma_place(entries, entry.key());
    super::lemma_place(entries, entries[k].key());
    lemma_put(entries, entry, entry.key());
    let at = poll::place_of(entries, entry.key()) as int;
    if entries[k].key() == entry.key() {
        assert(at <= k);
        if at < k {
            assert(key(entries[at]) != key(entries[k]));
        }
    }
    let own = poll::place_of(entries, entries[k].key()) as int;
    assert(own <= k);
    if own < k {
        assert(key(entries[own]) != key(entries[k]));
    }
    assert(poll::put(entries, entries[k]) =~= entries);
}

/// As much is fetched again as was there or as fits in view, whichever is more.
pub proof fn law_refreshing_covers_what_was_loaded(a: usize, b: usize)
    ensures
        poll::larger(a, b) >= a,
        poll::larger(a, b) >= b,
        poll::larger(a, b) == a || poll::larger(a, b) == b,
{
}

/// Where there are terminals, one of them is active: the one that was, while there is one of its
/// name, and else the first. Where there are none, none is.
pub proof fn law_one_terminal_is_active(active: Option<String>, terminals: Seq<Terminal>)
    ensures
        poll::active_of(active, terminals) is Some <==> terminals.len() > 0,
        poll::active_of(active, terminals) matches Some(id) ==> exists|k: int|
            0 <= k < terminals.len() && (#[trigger] terminals[k]).id@ == id@,
        active is Some && (exists|k: int|
            0 <= k < terminals.len() && (#[trigger] terminals[k]).id@ == active->0@)
            ==> poll::active_of(active, terminals) == active,
        terminals.len() > 0 && (active is None || forall|k: int|
            0 <= k < terminals.len() ==> (#[trigger] terminals[k]).id@ != active->0@)
            ==> poll::active_of(active, terminals) == Some(terminals[0].id),
        poll::active_of(poll::active_of(active, terminals), terminals) == poll::active_of(
            active,
            terminals,
        ),
{
    if terminals.len() > 0 {
        assert(terminals[0].id@ == terminals[0].id@);
    }
}

/// A page of the settings fetches what it shows and nothing else.
pub proof fn law_settings_fetch_what_they_show(tab: SettingsTab)
    ensures
        tab == SettingsTab::Connection <==> poll::settings_needs(tab).len() == 0,
        tab != SettingsTab::Connection ==> poll::settings_needs(tab).len() == 1,
        tab == SettingsTab::Machines ==> poll::settings_needs(tab)[0] is Machines,
        tab == SettingsTab::Orchestrator ==> poll::settings_needs(tab)[0] is Orchestrator,
        tab == SettingsTab::QuickCommands ==> poll::settings_needs(tab)[0] is QuickCommands,
        tab == SettingsTab::Skills ==> poll::settings_needs(tab)[0] is Skills,
        tab == SettingsTab::WorkflowPlans ==> poll::settings_needs(tab)[0] is Plans,
        tab == SettingsTab::Projects ==> poll::settings_needs(tab)[0] is Projects,
{
}

/// What cancels a session asks for that session to be cancelled; a workflow is told to cancel
/// everything that it does.
pub proof fn law_cancelling_speaks_to_what_is_open(request: Request, target: OpenTarget)
    requires
        poll::cancels(request, target),
    ensures
        request.verb == Verb::Post,
        target matches OpenTarget::Session(id) ==> request.path@ == "/sessions/"@ + id@
            + "/cancel"@ && request.body is Empty,
        target matches OpenTarget::Workflow(id) ==> request.path@ == "/workflows/"@ + id@ && (
        request.body matches Body::Prompt(prompt) && prompt.input@.len() == 1 && (
        prompt.input@[0] matches ContentBlock::Text { text } && text@
            == "取消当前进行中的全部工作"@)),
{
}

/// Messages and activities are told apart by their own ids, and a machine whose agents could not be
/// fetched has none.
pub proof fn law_items_are_told_apart_by_their_ids(
    item: HistoryItem,
    activity: Activity,
    list: Result<Vec<Agent>, String>,
)
    ensures
        poll::history_key()(item) == item.key(),
        poll::activity_key()(activity) == activity.key(),
        list is Err ==> poll::agents_or_none(list).len() == 0,
        list matches Ok(agents) ==> poll::agents_or_none(list) == agents@,
{
}

} // verus!
