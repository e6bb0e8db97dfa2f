//! When the views are refreshed, and what becomes of what was fetched. Nothing is kept of an
//! answer about a session that is not open any more.
pub mod laws;

use super::client::{Body, Client, Request};
use super::state::{
    due, ConnectionStatus, Core, ListEntry, OpenTarget, OpenView, Paging, SessionView, SettingsTab,
    SidePanel, Ticks, ACTIVITIES_INTERVAL, HISTORY_INTERVAL, ONGOING_INTERVAL, OPTIONS_INTERVAL,
    PLAN_INTERVAL, SESSION_LIST_INTERVAL,
};
use crate::common::api::{
    ActivitiesPage, Agent, HistoryPage, Machine, OrchestratorConfig, Project, PromptRequest,
    QuickCommand, RecentWorkspace, Session, SessionList, Skill, Terminal, Workflow, WorkflowList,
    WorkflowPlanItem,
};
use crate::common::domain::{
    Activity, ContentBlock, HistoryItem, SessionConfigOption, SessionPlanEntry, SlashCommand,
};
use crate::desktop::state;
use crate::sorting;
use crate::sorting::{sort, Ranked};
use crate::strings;
use crate::strings::{among, same};
use vstd::prelude::*;

verus! {

/// How long to wait before the connection is tried again, in milliseconds.
pub const RECONNECT_INTERVAL: u64 = 5000;

/// Which views of the open session are due.
#[derive(Debug, PartialEq)]
pub struct OpenRefresh {
    pub target: OpenTarget,
    pub history: bool,
    pub activities: bool,
    pub plan: bool,
    pub options: bool,
    pub ongoing: bool,
}

/// What is done at a tick.
#[derive(Debug, PartialEq)]
pub enum Tick {
    Nothing,
    /// The connection is tried.
    Connect,
    /// What is due is refreshed.
    Refresh { list: bool, open: Option<OpenRefresh> },
}

/// Which views of an open session are due: the activities and the plan only where their panels
/// are open, the plan and the options only of a session that is no workflow.
pub open spec fn open_due(
    target: OpenTarget,
    panel: Option<SidePanel>,
    last: Ticks,
    now: u64,
) -> OpenRefresh {
    OpenRefresh {
        target,
        history: state::due_at(last.history, HISTORY_INTERVAL, now),
        activities: panel == Some(SidePanel::Activities) && state::due_at(
            last.activities,
            ACTIVITIES_INTERVAL,
            now,
        ),
        plan: target is Session && panel == Some(SidePanel::Plan) && state::due_at(
            last.plan,
            PLAN_INTERVAL,
            now,
        ),
        options: target is Session && state::due_at(last.options, OPTIONS_INTERVAL, now),
        ongoing: state::due_at(last.ongoing, ONGOING_INTERVAL, now),
    }
}

/// What is done at a tick: without a client nothing, without a connection it is tried from time
/// to time, and otherwise what is due is refreshed. What is set is never refreshed at a tick.
pub fn tick(core: &Core, now: u64) -> (r: Tick)
    ensures
        r == if core.client is None {
            Tick::Nothing
        } else if core.status != ConnectionStatus::Online {
            if state::due_at(core.last.list, RECONNECT_INTERVAL, now) {
                Tick::Connect
            } else {
                Tick::Nothing
            }
        } else {
            Tick::Refresh {
                list: state::due_at(core.last.list, SESSION_LIST_INTERVAL, now),
                open: match core.open {
                    Some(target) => Some(open_due(target, core.side_panel, core.last, now)),
                    None => None,
                },
            }
        },
        core.client is Some && core.status == ConnectionStatus::Online && core.open is Some ==> (
        r matches Tick::Refresh { open: Some(due), .. } && due.target == core.open->0 && (
        due.history <==> (core.last.history matches Some(at) ==> at + 5000 <= now)) && (
        due.ongoing <==> (core.last.ongoing matches Some(at) ==> at + 2000 <= now))),
        core.client is Some && core.status == ConnectionStatus::Online ==> (
        r matches Tick::Refresh { list, .. } && (list <==> (core.last.list matches Some(at) ==> at
            + 10000 <= now))),
        r is Connect <==> core.client is Some && core.status != ConnectionStatus::Online && (
        core.last.list matches Some(at) ==> at + 5000 <= now),
{
    if core.client.is_none() {
        return Tick::Nothing;
    }
    match &core.status {
        ConnectionStatus::Online => {},
        _ => {
            if due(core.last.list, RECONNECT_INTERVAL, now) {
                return Tick::Connect;
            }
            return Tick::Nothing;
        },
    }
    let last: Ticks = core.last;
    let activities_open: bool = match core.side_panel {
        Some(SidePanel::Activities) => true,
        _ => false,
    };
    let plan_open: bool = match core.side_panel {
        Some(SidePanel::Plan) => true,
        _ => false,
    };
    let open: Option<OpenRefresh> = match &core.open {
        Some(target) => {
            let is_session: bool = match target {
                OpenTarget::Session(_) => true,
                OpenTarget::Workflow(_) => false,
            };
            Some(
                OpenRefresh {
                    target: target.clone(),
                    history: due(last.history, HISTORY_INTERVAL, now),
                    activities: activities_open && due(last.activities, ACTIVITIES_INTERVAL, now),
                    plan: is_session && plan_open && due(last.plan, PLAN_INTERVAL, now),
                    options: is_session && due(last.options, OPTIONS_INTERVAL, now),
                    ongoing: due(last.ongoing, ONGOING_INTERVAL, now),
                },
            )
        },
        None => None,
    };
    Tick::Refresh { list: due(last.list, SESSION_LIST_INTERVAL, now), open }
}

/// Takes up what came of trying the connection. Once there is one, the list and the shown view are
/// fetched at once.
pub fn connection_checked(core: &mut Core, outcome: Result<(), String>, now: u64)
    ensures
        *final(core) == match outcome {
            Ok(_) => (Core {
                status: ConnectionStatus::Online,
                last: Ticks { list: None, ..old(core).last },
                loaded_view: None,
                ..*old(core)
            }),
            Err(error) => (Core {
                status: ConnectionStatus::Failed(error),
                last: Ticks { list: Some(now), ..old(core).last },
                ..*old(core)
            }),
        },
{
    match outcome {
        Ok(_) => {
            core.status = ConnectionStatus::Online;
            core.last.list = None;
            core.loaded_view = None;
        },
        Err(error) => {
            core.status = ConnectionStatus::Failed(error);
            core.last.list = Some(now);
        },
    }
}

impl Ranked for ListEntry {
    /// What changed later stands first.
    open spec fn ranks(self, other: Self) -> bool {
        self.changed() >= other.changed()
    }

    proof fn total(a: Self, b: Self) {
    }

    proof fn transitive(a: Self, b: Self, c: Self) {
    }

    fn at_most(&self, other: &Self) -> (r: bool) {
        self.updated_at() >= other.updated_at()
    }
}

/// Sessions and workflows as entries of the list, sessions first.
pub open spec fn as_entries(sessions: Seq<Session>, workflows: Seq<Workflow>) -> Seq<ListEntry> {
    sessions.map_values(|s: Session| ListEntry::Session(s)) + workflows.map_values(
        |w: Workflow| ListEntry::Workflow(w),
    )
}

fn entries_of(sessions: Vec<Session>, workflows: Vec<Workflow>) -> (r: Vec<ListEntry>)
    ensures
        r@ == as_entries(sessions@, workflows@),
{
    let mut out: Vec<ListEntry> = Vec::new();
    let ghost first = sessions@;
    let ghost then = workflows@;
    let ghost one = |s: Session| ListEntry::Session(s);
    let ghost other = |w: Workflow| ListEntry::Workflow(w);
    for session in it: sessions
        invariant
            it.seq() == first,
            one == (|s: Session| ListEntry::Session(s)),
            out@ == first.take(it.index() as int).map_values(one),
    {
        let ghost before = out@;
        let ghost n = it.index() as int;
        out.push(ListEntry::Session(session));
        proof {
            assert(out@ =~= first.take(n + 1).map_values(one));
        }
    }
    proof {
        assert(first.take(first.len() as int) =~= first);
        assert(out@ + then.take(0).map_values(other) =~= out@);
    }
    let ghost mid = out@;
    for workflow in it: workflows
        invariant
            it.seq() == then,
            other == (|w: Workflow| ListEntry::Workflow(w)),
            out@ == mid + then.take(it.index() as int).map_values(other),
    {
        let ghost n = it.index() as int;
        out.push(ListEntry::Workflow(workflow));
        proof {
            assert(out@ =~= mid + then.take(n + 1).map_values(other));
        }
    }
    proof {
        assert(then.take(then.len() as int) =~= then);
    }
    out
}

/// The larger of two numbers.
pub open spec fn larger(a: usize, b: usize) -> usize {
    if a >= b {
        a
    } else {
        b
    }
}

fn max_of(a: usize, b: usize) -> (r: usize)
    ensures
        r == larger(a, b),
{
    if a >= b {
        a
    } else {
        b
    }
}

/// How many sessions and how many workflows are asked for when the list is refreshed: what is
/// loaded, or a page.
pub fn list_limit(core: &Core) -> (r: usize)
    ensures
        r == larger(core.list_loaded, core.list_paging.page_size),
{
    max_of(core.list_loaded, core.list_paging.page_size)
}

/// Takes up the list of sessions and of workflows. Where one of them cannot be had, the connection
/// counts as lost.
pub fn refresh_list(
    core: &mut Core,
    limit: usize,
    sessions: Result<SessionList, String>,
    workflows: Result<WorkflowList, String>,
    now: u64,
)
    ensures
        match (sessions, workflows) {
            (Ok(sessions), Ok(workflows)) => {
                &&& final(core).entries@ == sorting::sorted_of(
                    as_entries(sessions.sessions@, workflows.workflows@),
                )
                &&& *final(core) == (Core {
                    entries: final(core).entries,
                    list_loaded: limit,
                    list_paging: Paging {
                        has_older: sessions.has_more || workflows.has_more,
                        ..old(core).list_paging
                    },
                    last: Ticks { list: Some(now), ..old(core).last },
                    ..*old(core)
                })
            },
            (Err(error), _) => *final(core) == (Core {
                status: ConnectionStatus::Failed(error),
                last: Ticks { list: Some(now), ..old(core).last },
                ..*old(core)
            }),
            (_, Err(error)) => *final(core) == (Core {
                status: ConnectionStatus::Failed(error),
                last: Ticks { list: Some(now), ..old(core).last },
                ..*old(core)
            }),
        },
{
    core.last.list = Some(now);
    match sessions {
        Ok(sessions) => match workflows {
            Ok(workflows) => {
                let has_older: bool = sessions.has_more || workflows.has_more;
                core.entries = sort(entries_of(sessions.sessions, workflows.workflows));
                core.list_loaded = limit;
                core.list_paging.has_older = has_older;
            },
            Err(error) => {
                core.status = ConnectionStatus::Failed(error);
            },
        },
        Err(error) => {
            core.status = ConnectionStatus::Failed(error);
        },
    }
}

/// The first place of an entry with an identity, or the number of entries.
pub open spec fn place_of(entries: Seq<ListEntry>, id: Seq<char>) -> nat
    decreases entries.len(),
{
    if entries.len() == 0 || entries[0].key() == id {
        0
    } else {
        1 + place_of(entries.skip(1), id)
    }
}

/// An entry put in the place of the one with its identity, or behind the others.
pub open spec fn put(entries: Seq<ListEntry>, entry: ListEntry) -> Seq<ListEntry> {
    let at = place_of(entries, entry.key()) as int;
    if at < entries.len() {
        entries.update(at, entry)
    } else {
        entries.push(entry)
    }
}

/// Entries put one after the other.
pub open spec fn put_all(entries: Seq<ListEntry>, page: Seq<ListEntry>) -> Seq<ListEntry>
    decreases page.len(),
{
    if page.len() == 0 {
        entries
    } else {
        put(put_all(entries, page.drop_last()), page.last())
    }
}

proof fn lemma_place_is(entries: Seq<ListEntry>, id: Seq<char>, n: int)
    requires
        0 <= n <= entries.len(),
        forall|i: int| 0 <= i < n ==> (#[trigger] entries[i]).key() != id,
        n == entries.len() || entries[n].key() == id,
    ensures
        place_of(entries, id) == n,
    decreases entries.len(),
{
    if n > 0 {
        let rest = entries.skip(1);
        assert forall|i: int| 0 <= i < n - 1 implies (#[trigger] rest[i]).key() != id by {
            assert(rest[i] == entries[i + 1]);
        }
        assert(entries[0].key() != id);
        lemma_place_is(rest, id, n - 1);
    }
}

fn put_entry(entries: &mut Vec<ListEntry>, entry: ListEntry)
    ensures
        final(entries)@ == put(old(entries)@, entry),
{
    let ghost before = entries@;
    let mut i: usize = 0;
    while i < entries.len() && !same(entries[i].id(), entry.id())
        invariant
            0 <= i <= entries@.len(),
            entries@ == before,
            forall|j: int| 0 <= j < i ==> (#[trigger] entries@[j]).key() != entry.key(),
        decreases entries.len() - i,
    {
        i = i + 1;
    }
    proof {
        lemma_place_is(before, entry.key(), i as int);
    }
    if i < entries.len() {
        entries.set(i, entry);
    } else {
        entries.push(entry);
    }
}

/// Begins to fetch a page of older entries: where it begins and how many it has. Nothing where
/// there are none, or where one is on its way.
pub fn begin_older_page(paging: &mut Paging, loaded: usize) -> (r: Option<(usize, usize)>)
    ensures
        ({
            let ready = old(paging).has_older && !old(paging).loading_older;
            &&& r == if ready {
                Some((loaded, larger(old(paging).page_size, 1)))
            } else {
                None
            }
            &&& *final(paging) == if ready {
                Paging { loading_older: true, ..*old(paging) }
            } else {
                *old(paging)
            }
        }),
{
    if !paging.has_older || paging.loading_older {
        return None;
    }
    paging.loading_older = true;
    Some((loaded, max_of(paging.page_size, 1)))
}

/// How many entries are asked for when a list is refreshed: no fewer than are loaded, so that what
/// is loaded stays without gaps.
pub fn refresh_limit(loaded: usize, page_size: usize) -> (r: usize)
    ensures
        r == larger(larger(loaded, page_size), 1),
{
    max_of(max_of(loaded, page_size), 1)
}

/// Takes up a page of older sessions and workflows.
pub fn load_older_sessions(
    core: &mut Core,
    offset: usize,
    limit: usize,
    sessions: Result<SessionList, String>,
    workflows: Result<WorkflowList, String>,
)
    requires
        offset + limit <= usize::MAX,
    ensures
        match (sessions, workflows) {
            (Ok(sessions), Ok(workflows)) => {
                &&& final(core).entries@ == sorting::sorted_of(
                    put_all(
                        old(core).entries@,
                        as_entries(sessions.sessions@, workflows.workflows@),
                    ),
                )
                &&& *final(core) == (Core {
                    entries: final(core).entries,
                    list_loaded: (offset + limit) as usize,
                    list_paging: Paging {
                        has_older: sessions.has_more || workflows.has_more,
                        loading_older: false,
                        ..old(core).list_paging
                    },
                    ..*old(core)
                })
            },
            _ => *final(core) == (Core {
                list_paging: Paging { loading_older: false, ..old(core).list_paging },
                ..*old(core)
            }),
        },
{
    core.list_paging.loading_older = false;
    let (sessions, workflows): (SessionList, WorkflowList) = match (sessions, workflows) {
        (Ok(sessions), Ok(workflows)) => (sessions, workflows),
        _ => {
            return;
        },
    };
    core.list_paging.has_older = sessions.has_more || workflows.has_more;
    core.list_loaded = offset + limit;
    let page: Vec<ListEntry> = entries_of(sessions.sessions, workflows.workflows);
    let ghost all = page@;
    let ghost before = core.entries@;
    let mut entries: Vec<ListEntry> = Vec::new();
    std::mem::swap(&mut entries, &mut core.entries);
    proof {
        assert(all.take(0) =~= Seq::empty());
    }
    for entry in it: page
        invariant
            it.seq() == all,
            entries@ == put_all(before, all.take(it.index() as int)),
    {
        let ghost n = it.index() as int;
        put_entry(&mut entries, entry);
        proof {
            assert(all.take(n + 1).drop_last() =~= all.take(n));
            assert(all.take(n + 1).last() == entry);
        }
    }
    proof {
        assert(all.take(all.len() as int) =~= all);
    }
    core.entries = sort(entries);
}

/// The function names items, and it names them so.
pub open spec fn named_by<T, F: Fn(&T) -> &str>(id: F, key: spec_fn(T) -> Seq<char>) -> bool {
    &&& forall|item: &T| #[trigger] id.requires((item,))
    &&& forall|item: &T, name: &str| #[trigger] id.ensures((item,), name) ==> name@ == key(*item)
}

/// An item of the page has this name.
pub open spec fn on_page<T>(page: Seq<T>, key: spec_fn(T) -> Seq<char>, name: Seq<char>) -> bool {
    page.map_values(key).contains(name)
}

/// The items that are not on the page.
pub open spec fn off_page<T>(items: Seq<T>, page: Seq<T>, key: spec_fn(T) -> Seq<char>) -> Seq<T> {
    items.filter(|item: T| !on_page(page, key, key(item)))
}

/// What is loaded once the newest page is taken up: the page takes the place of its items, and
/// stands behind all others.
pub open spec fn with_newest<T>(
    items: Seq<T>,
    page: Seq<T>,
    key: spec_fn(T) -> Seq<char>,
) -> Seq<T> {
    off_page(items, page, key) + page
}

/// Takes up the newest page. Items are the same where the function gives them the same name.
pub fn merge_newest<T, F: Fn(&T) -> &str>(
    items: &mut Vec<T>,
    paging: &mut Paging,
    page: Vec<T>,
    page_has_more: bool,
    id: F,
)
    requires
        exists|key: spec_fn(T) -> Seq<char>| named_by(id, key),
    ensures
        *final(paging) == (Paging { has_older: page_has_more, ..*old(paging) }),
        forall|key: spec_fn(T) -> Seq<char>| #[trigger]
            named_by(id, key) ==> final(items)@ == with_newest(old(items)@, page@, key),
{
    let ghost before = items@;
    let ghost fresh = page@;
    paging.has_older = page_has_more;
    let mut names: Vec<String> = Vec::new();
    let mut i: usize = 0;
    while i < page.len()
        invariant
            0 <= i <= page@.len(),
            names@.len() == i,
            exists|key: spec_fn(T) -> Seq<char>| named_by(id, key),
            forall|key: spec_fn(T) -> Seq<char>| #[trigger]
                named_by(id, key) ==> forall|j: int|
                    0 <= j < i ==> (#[trigger] names@[j])@ == key(page@[j]),
        decreases page.len() - i,
    {
        let name: &str = id(&page[i]);
        names.push(name.to_owned());
        i = i + 1;
    }
    let mut all: Vec<T> = Vec::new();
    std::mem::swap(&mut all, items);
    let mut out: Vec<T> = Vec::new();
    proof {
        assert forall|key: spec_fn(T) -> Seq<char>| #[trigger] named_by(id, key) implies out@
            == off_page(before.take(0), fresh, key) by {
            reveal(Seq::filter);
        }
    }
    for item in it: all
        invariant
            it.seq() == before,
            fresh == page@,
            names@.len() == fresh.len(),
            exists|key: spec_fn(T) -> Seq<char>| named_by(id, key),
            forall|key: spec_fn(T) -> Seq<char>| #[trigger]
                named_by(id, key) ==> forall|j: int|
                    0 <= j < fresh.len() ==> (#[trigger] names@[j])@ == key(fresh[j]),
            forall|key: spec_fn(T) -> Seq<char>| #[trigger]
                named_by(id, key) ==> out@ == off_page(
                    before.take(it.index() as int),
                    fresh,
                    key,
                ),
    {
        let ghost n = it.index() as int;
        let ghost kept = out@;
        let name: &str = id(&item);
        let ghost called = name@;
        let repeated: bool = among(&names, name);
        if !repeated {
            out.push(item);
        }
        proof {
            assert forall|key: spec_fn(T) -> Seq<char>| #[trigger] named_by(id, key) implies out@
                == off_page(before.take(n + 1), fresh, key) by {
                reveal(Seq::filter);
                assert(kept == off_page(before.take(n), fresh, key));
                assert(before.take(n + 1).drop_last() =~= before.take(n));
                assert(before.take(n + 1).last() == item);
                assert(key(item) == called);
                assert(fresh.map_values(key) =~= strings::views(names@));
            }
        }
    }
    proof {
        assert(before.take(before.len() as int) =~= before);
    }
    let mut page: Vec<T> = page;
    out.append(&mut page);
    *items = out;
}

/// Puts a page of older items before the others, and notes how many they are.
pub fn prepend_older<T>(items: &mut Vec<T>, paging: &mut Paging, page: Vec<T>)
    ensures
        final(items)@ == page@ + old(items)@,
        *final(paging) == (Paging { shift: Some(page@.len() as usize), ..*old(paging) }),
{
    paging.shift = Some(page.len());
    let mut merged: Vec<T> = page;
    merged.append(items);
    *items = merged;
}

/// The session is open.
pub open spec fn is_open(core: Core, target: OpenTarget) -> bool {
    core.open is Some && core.open->0.same_as(target)
}

fn still_open(core: &Core, target: &OpenTarget) -> (r: bool)
    ensures
        r == is_open(*core, *target),
{
    match &core.open {
        Some(open) => open.is(target),
        None => false,
    }
}

/// The state with other details of the open session.
pub open spec fn with_detail(core: Core, detail: SessionView) -> Core {
    Core { view: OpenView { detail, ..core.view }, ..core }
}

/// Takes up the open session.
pub fn session_refreshed(core: &mut Core, target: &OpenTarget, fetched: Result<Session, String>)
    ensures
        *final(core) == match fetched {
            Ok(session) => if is_open(*old(core), *target) {
                Core { view: OpenView { session: Some(session), ..old(core).view }, ..*old(core) }
            } else {
                *old(core)
            },
            Err(_) => *old(core),
        },
{
    match fetched {
        Ok(session) => {
            if still_open(core, target) {
                core.view.session = Some(session);
            }
        },
        Err(_) => {},
    }
}

/// Takes up the open workflow.
pub fn workflow_refreshed(core: &mut Core, target: &OpenTarget, fetched: Result<Workflow, String>)
    ensures
        *final(core) == match fetched {
            Ok(workflow) => if is_open(*old(core), *target) {
                Core {
                    view: OpenView { workflow: Some(workflow), ..old(core).view },
                    ..*old(core)
                }
            } else {
                *old(core)
            },
            Err(_) => *old(core),
        },
{
    match fetched {
        Ok(workflow) => {
            if still_open(core, target) {
                core.view.workflow = Some(workflow);
            }
        },
        Err(_) => {},
    }
}

/// How many entries of the conversation are asked for when it is refreshed.
pub fn history_limit(core: &Core) -> (r: usize)
    ensures
        r == larger(
            larger(
                core.view.detail.history@.len() as usize,
                core.view.detail.history_paging.page_size,
            ),
            1,
        ),
{
    refresh_limit(core.view.detail.history.len(), core.view.detail.history_paging.page_size)
}

/// How many activities are asked for when they are refreshed.
pub fn activities_limit(core: &Core) -> (r: usize)
    ensures
        r == larger(
            larger(
                core.view.detail.activities@.len() as usize,
                core.view.detail.activities_paging.page_size,
            ),
            1,
        ),
{
    refresh_limit(core.view.detail.activities.len(), core.view.detail.activities_paging.page_size)
}

/// What identifies an entry of a conversation.
pub open spec fn history_key() -> spec_fn(HistoryItem) -> Seq<char> {
    |item: HistoryItem| item.key()
}

/// What identifies an activity.
pub open spec fn activity_key() -> spec_fn(Activity) -> Seq<char> {
    |activity: Activity| activity.key()
}

/// Takes up the newest page of the conversation.
pub fn refresh_history(
    core: &mut Core,
    target: &OpenTarget,
    fetched: Result<HistoryPage, String>,
    now: u64,
)
    ensures
        fetched is Ok && is_open(*old(core), *target) ==> {
            &&& final(core).view.detail.history@ == with_newest(
                old(core).view.detail.history@,
                fetched->Ok_0.items@,
                history_key(),
            )
            &&& *final(core) == (Core {
                last: Ticks { history: Some(now), ..old(core).last },
                ..with_detail(
                    *old(core),
                    SessionView {
                        history: final(core).view.detail.history,
                        history_paging: Paging {
                            has_older: fetched->Ok_0.has_more,
                            ..old(core).view.detail.history_paging
                        },
                        ..old(core).view.detail
                    },
                )
            })
        },
        fetched is Err || !is_open(*old(core), *target) ==> *final(core) == (Core {
            last: Ticks { history: Some(now), ..old(core).last },
            ..*old(core)
        }),
{
    core.last.history = Some(now);
    match fetched {
        Ok(page) => {
            if still_open(core, target) {
                proof {
                    assert(named_by(HistoryItem::id, history_key()));
                }
                merge_newest(
                    &mut core.view.detail.history,
                    &mut core.view.detail.history_paging,
                    page.items,
                    page.has_more,
                    HistoryItem::id,
                );
            }
        },
        Err(_) => {},
    }
}

/// Takes up the newest page of activities.
pub fn refresh_activities(
    core: &mut Core,
    target: &OpenTarget,
    fetched: Result<ActivitiesPage, String>,
    now: u64,
)
    ensures
        fetched is Ok && is_open(*old(core), *target) ==> {
            &&& final(core).view.detail.activities@ == with_newest(
                old(core).view.detail.activities@,
                fetched->Ok_0.activities@,
                activity_key(),
            )
            &&& *final(core) == (Core {
                last: Ticks { activities: Some(now), ..old(core).last },
                ..with_detail(
                    *old(core),
                    SessionView {
                        activities: final(core).view.detail.activities,
                        activities_paging: Paging {
                            has_older: fetched->Ok_0.has_more,
                            ..old(core).view.detail.activities_paging
                        },
                        ..old(core).view.detail
                    },
                )
            })
        },
        fetched is Err || !is_open(*old(core), *target) ==> *final(core) == (Core {
            last: Ticks { activities: Some(now), ..old(core).last },
            ..*old(core)
        }),
{
    core.last.activities = Some(now);
    match fetched {
        Ok(page) => {
            if still_open(core, target) {
                proof {
                    assert(named_by(Activity::id, activity_key()));
                }
                merge_newest(
                    &mut core.view.detail.activities,
                    &mut core.view.detail.activities_paging,
                    page.activities,
                    page.has_more,
                    Activity::id,
                );
            }
        },
        Err(_) => {},
    }
}

/// Takes up the plan of the open session.
pub fn plan_refreshed(
    core: &mut Core,
    target: &OpenTarget,
    fetched: Result<Vec<SessionPlanEntry>, String>,
    now: u64,
)
    ensures
        *final(core) == (Core {
            last: Ticks { plan: Some(now), ..old(core).last },
            ..match fetched {
                Ok(plan) => if is_open(*old(core), *target) {
                    with_detail(*old(core), SessionView { plan, ..old(core).view.detail })
                } else {
                    *old(core)
                },
                Err(_) => *old(core),
            }
        }),
{
    core.last.plan = Some(now);
    match fetched {
        Ok(plan) => {
            if still_open(core, target) {
                core.view.detail.plan = plan;
            }
        },
        Err(_) => {},
    }
}

/// Takes up what the open session is doing.
pub fn ongoing_refreshed(
    core: &mut Core,
    target: &OpenTarget,
    fetched: Result<Option<Activity>, String>,
    now: u64,
)
    ensures
        *final(core) == (Core {
            last: Ticks { ongoing: Some(now), ..old(core).last },
            ..match fetched {
                Ok(ongoing) => if is_open(*old(core), *target) {
                    with_detail(*old(core), SessionView { ongoing, ..old(core).view.detail })
                } else {
                    *old(core)
                },
                Err(_) => *old(core),
            }
        }),
{
    core.last.ongoing = Some(now);
    match fetched {
        Ok(ongoing) => {
            if still_open(core, target) {
                core.view.detail.ongoing = ongoing;
            }
        },
        Err(_) => {},
    }
}

/// Takes up the options of the open session. The slash commands are asked for behind them, as long
/// as the session is still open.
pub fn options_refreshed(
    core: &mut Core,
    target: &OpenTarget,
    fetched: Result<Vec<SessionConfigOption>, String>,
    now: u64,
) -> (r: bool)
    ensures
        r == is_open(*old(core), *target),
        *final(core) == (Core {
            last: Ticks { options: Some(now), ..old(core).last },
            ..match fetched {
                Ok(config_options) => if is_open(*old(core), *target) {
                    with_detail(
                        *old(core),
                        SessionView { config_options, ..old(core).view.detail },
                    )
                } else {
                    *old(core)
                },
                Err(_) => *old(core),
            }
        }),
{
    core.last.options = Some(now);
    let open: bool = still_open(core, target);
    match fetched {
        Ok(options) => {
            if open {
                core.view.detail.config_options = options;
            }
        },
        Err(_) => {},
    }
    open
}

/// Takes up the slash commands of the open session.
pub fn slash_commands_refreshed(
    core: &mut Core,
    target: &OpenTarget,
    fetched: Result<Vec<SlashCommand>, String>,
)
    ensures
        *final(core) == match fetched {
            Ok(slash_commands) => if is_open(*old(core), *target) {
                with_detail(*old(core), SessionView { slash_commands, ..old(core).view.detail })
            } else {
                *old(core)
            },
            Err(_) => *old(core),
        },
{
    match fetched {
        Ok(commands) => {
            if still_open(core, target) {
                core.view.detail.slash_commands = commands;
            }
        },
        Err(_) => {},
    }
}

/// Begins to fetch an older page of the conversation.
pub fn begin_older_history(core: &mut Core) -> (r: Option<(usize, usize)>)
    ensures
        ({
            let paging = old(core).view.detail.history_paging;
            let ready = paging.has_older && !paging.loading_older;
            &&& r == if ready {
                Some(
                    (old(core).view.detail.history@.len() as usize, larger(paging.page_size, 1)),
                )
            } else {
                None
            }
            &&& *final(core) == if ready {
                with_detail(
                    *old(core),
                    SessionView {
                        history_paging: Paging { loading_older: true, ..paging },
                        ..old(core).view.detail
                    },
                )
            } else {
                *old(core)
            }
        }),
{
    let loaded: usize = core.view.detail.history.len();
    begin_older_page(&mut core.view.detail.history_paging, loaded)
}

/// Begins to fetch an older page of activities.
pub fn begin_older_activities(core: &mut Core) -> (r: Option<(usize, usize)>)
    ensures
        ({
            let paging = old(core).view.detail.activities_paging;
            let ready = paging.has_older && !paging.loading_older;
            &&& r == if ready {
                Some(
                    (old(core).view.detail.activities@.len() as usize, larger(paging.page_size, 1)),
                )
            } else {
                None
            }
            &&& *final(core) == if ready {
                with_detail(
                    *old(core),
                    SessionView {
                        activities_paging: Paging { loading_older: true, ..paging },
                        ..old(core).view.detail
                    },
                )
            } else {
                *old(core)
            }
        }),
{
    let loaded: usize = core.view.detail.activities.len();
    begin_older_page(&mut core.view.detail.activities_paging, loaded)
}

/// Takes up an older page of the conversation.
pub fn load_older_history(
    core: &mut Core,
    target: &OpenTarget,
    fetched: Result<HistoryPage, String>,
)
    ensures
        fetched is Ok && is_open(*old(core), *target) ==> {
            let page = fetched->Ok_0;
            &&& final(core).view.detail.history@ == page.items@ + old(core).view.detail.history@
            &&& *final(core) == with_detail(
                *old(core),
                SessionView {
                    history: final(core).view.detail.history,
                    history_paging: Paging {
                        has_older: page.has_more,
                        loading_older: false,
                        shift: Some(page.items@.len() as usize),
                        ..old(core).view.detail.history_paging
                    },
                    ..old(core).view.detail
                },
            )
        },
        fetched is Err || !is_open(*old(core), *target) ==> *final(core) == with_detail(
            *old(core),
            SessionView {
                history_paging: Paging {
                    loading_older: false,
                    ..old(core).view.detail.history_paging
                },
                ..old(core).view.detail
            },
        ),
{
    core.view.detail.history_paging.loading_older = false;
    match fetched {
        Ok(page) => {
            if still_open(core, target) {
                core.view.detail.history_paging.has_older = page.has_more;
                prepend_older(
                    &mut core.view.detail.history,
                    &mut core.view.detail.history_paging,
                    page.items,
                );
            }
        },
        Err(_) => {},
    }
}

/// Takes up an older page of activities.
pub fn load_older_activities(
    core: &mut Core,
    target: &OpenTarget,
    fetched: Result<ActivitiesPage, String>,
)
    ensures
        fetched is Ok && is_open(*old(core), *target) ==> {
            let page = fetched->Ok_0;
            &&& final(core).view.detail.activities@ == page.activities@
                + old(core).view.detail.activities@
            &&& *final(core) == with_detail(
                *old(core),
                SessionView {
                    activities: final(core).view.detail.activities,
                    activities_paging: Paging {
                        has_older: page.has_more,
                        loading_older: false,
                        shift: Some(page.activities@.len() as usize),
                        ..old(core).view.detail.activities_paging
                    },
                    ..old(core).view.detail
                },
            )
        },
        fetched is Err || !is_open(*old(core), *target) ==> *final(core) == with_detail(
            *old(core),
            SessionView {
                activities_paging: Paging {
                    loading_older: false,
                    ..old(core).view.detail.activities_paging
                },
                ..old(core).view.detail
            },
        ),
{
    core.view.detail.activities_paging.loading_older = false;
    match fetched {
        Ok(page) => {
            if still_open(core, target) {
                core.view.detail.activities_paging.has_older = page.has_more;
                prepend_older(
                    &mut core.view.detail.activities,
                    &mut core.view.detail.activities_paging,
                    page.activities,
                );
            }
        },
        Err(_) => {},
    }
}

/// What can be fetched when a view opens.
#[derive(Debug, Clone, Copy, PartialEq, Eq, Structural)]
pub enum Fetch {
    /// The machines and their agents.
    Machines,
    RecentWorkspaces,
    Projects,
    /// What is set of the built-in agent.
    Orchestrator,
    Plans,
    QuickCommands,
    Skills,
    /// The options and the slash commands of the open session.
    SessionControls,
    /// The terminals of the open session.
    Terminals,
}

/// What the view of a new session needs, whatever kind it is to be.
pub fn refresh_new_session() -> (r: Vec<Fetch>)
    ensures
        r@ == seq![Fetch::Machines, Fetch::RecentWorkspaces, Fetch::Projects],
{
    vec![Fetch::Machines, Fetch::RecentWorkspaces, Fetch::Projects]
}

/// What a new workflow needs.
pub fn refresh_workflow_setup() -> (r: Vec<Fetch>)
    ensures
        r@ == seq![Fetch::Orchestrator, Fetch::Plans],
{
    vec![Fetch::Orchestrator, Fetch::Plans]
}

/// What the view of an open session needs.
pub fn refresh_interaction() -> (r: Vec<Fetch>)
    ensures
        r@ == seq![
            Fetch::Machines,
            Fetch::Orchestrator,
            Fetch::QuickCommands,
            Fetch::SessionControls,
            Fetch::Terminals,
        ],
{
    vec![
        Fetch::Machines,
        Fetch::Orchestrator,
        Fetch::QuickCommands,
        Fetch::SessionControls,
        Fetch::Terminals,
    ]
}

/// What a part of the settings needs.
pub open spec fn settings_needs(tab: SettingsTab) -> Seq<Fetch> {
    match tab {
        SettingsTab::Connection => Seq::empty(),
        SettingsTab::Machines => seq![Fetch::Machines],
        SettingsTab::Orchestrator => seq![Fetch::Orchestrator],
        SettingsTab::QuickCommands => seq![Fetch::QuickCommands],
        SettingsTab::Skills => seq![Fetch::Skills],
        SettingsTab::WorkflowPlans => seq![Fetch::Plans],
        SettingsTab::Projects => seq![Fetch::Projects],
    }
}

/// What a part of the settings needs.
pub fn refresh_settings(tab: SettingsTab) -> (r: Vec<Fetch>)
    ensures
        r@ == settings_needs(tab),
{
    match tab {
        SettingsTab::Connection => Vec::new(),
        SettingsTab::Machines => vec![Fetch::Machines],
        SettingsTab::Orchestrator => vec![Fetch::Orchestrator],
        SettingsTab::QuickCommands => vec![Fetch::QuickCommands],
        SettingsTab::Skills => vec![Fetch::Skills],
        SettingsTab::WorkflowPlans => vec![Fetch::Plans],
        SettingsTab::Projects => vec![Fetch::Projects],
    }
}

/// The session whose options and slash commands are asked for.
pub fn controls_wanted(core: &Core) -> (r: Option<String>)
    ensures
        r == match core.open {
            Some(OpenTarget::Session(id)) => Some(id),
            _ => None,
        },
{
    match &core.open {
        Some(OpenTarget::Session(id)) => Some(id.clone()),
        _ => None,
    }
}

/// The session whose terminals are asked for: the open one, where the panel of terminals is open.
pub fn terminals_wanted(core: &Core) -> (r: Option<String>)
    ensures
        r == match core.open {
            Some(OpenTarget::Session(id)) => if core.side_panel == Some(SidePanel::Terminal) {
                Some(id)
            } else {
                None
            },
            _ => None,
        },
{
    match &core.open {
        Some(OpenTarget::Session(id)) => match core.side_panel {
            Some(SidePanel::Terminal) => Some(id.clone()),
            _ => None,
        },
        _ => None,
    }
}

/// What was fetched when a view opened.
#[derive(Debug, PartialEq)]
pub enum Fetched {
    RecentWorkspaces(Vec<RecentWorkspace>),
    Projects(Vec<Project>),
    Orchestrator(Option<OrchestratorConfig>),
    Plans(Vec<WorkflowPlanItem>),
    QuickCommands(Vec<QuickCommand>),
    Skills(Vec<Skill>),
}

/// Takes up what was fetched when a view opened.
pub fn fetched(core: &mut Core, what: Fetched)
    ensures
        *final(core) == match what {
            Fetched::RecentWorkspaces(recent_workspaces) => Core {
                recent_workspaces,
                ..*old(core)
            },
            Fetched::Projects(projects) => Core {
                settings: state::SettingsData { projects, ..old(core).settings },
                ..*old(core)
            },
            Fetched::Orchestrator(orchestrator) => Core {
                settings: state::SettingsData {
                    orchestrator,
                    orchestrator_loaded: true,
                    ..old(core).settings
                },
                ..*old(core)
            },
            Fetched::Plans(plans) => Core {
                settings: state::SettingsData { plans, ..old(core).settings },
                ..*old(core)
            },
            Fetched::QuickCommands(quick_commands) => Core {
                settings: state::SettingsData { quick_commands, ..old(core).settings },
                ..*old(core)
            },
            Fetched::Skills(skills) => Core {
                settings: state::SettingsData { skills, ..old(core).settings },
                ..*old(core)
            },
        },
{
    match what {
        Fetched::RecentWorkspaces(list) => core.recent_workspaces = list,
        Fetched::Projects(list) => core.settings.projects = list,
        Fetched::Orchestrator(config) => {
            core.settings.orchestrator = config;
            core.settings.orchestrator_loaded = true;
        },
        Fetched::Plans(list) => core.settings.plans = list,
        Fetched::QuickCommands(list) => core.settings.quick_commands = list,
        Fetched::Skills(list) => core.settings.skills = list,
    }
}

/// The agents of a machine; none where they cannot be had.
pub open spec fn agents_or_none(list: Result<Vec<Agent>, String>) -> Seq<Agent> {
    match list {
        Ok(agents) => agents@,
        Err(_) => Seq::empty(),
    }
}

/// Takes up the machines and their agents.
pub fn refresh_machines(
    core: &mut Core,
    machines: Vec<Machine>,
    lists: Vec<Result<Vec<Agent>, String>>,
)
    requires
        lists@.len() == machines@.len(),
    ensures
        *final(core) == (Core {
            settings: state::SettingsData {
                machines,
                agents: final(core).settings.agents,
                ..old(core).settings
            },
            ..*old(core)
        }),
        final(core).settings.agents@.len() == machines@.len(),
        forall|i: int|
            0 <= i < machines@.len() ==> (#[trigger] final(core).settings.agents@[i]).0@
                == machines@[i].name@ && final(core).settings.agents@[i].1@ == agents_or_none(
                lists@[i],
            ),
{
    let ghost given = lists@;
    let mut agents: Vec<(String, Vec<Agent>)> = Vec::new();
    for list in it: lists
        invariant
            it.seq() == given,
            given.len() == machines@.len(),
            agents@.len() == it.index(),
            forall|i: int|
                0 <= i < it.index() ==> (#[trigger] agents@[i]).0@ == machines@[i].name@
                    && agents@[i].1@ == agents_or_none(given[i]),
    {
        let i: usize = agents.len();
        let found: Vec<Agent> = match list {
            Ok(found) => found,
            Err(_) => Vec::new(),
        };
        agents.push((machines[i].name.clone(), found));
    }
    core.settings.machines = machines;
    core.settings.agents = agents;
}

/// The terminal is among the terminals.
pub open spec fn has_terminal(terminals: Seq<Terminal>, id: Seq<char>) -> bool {
    exists|i: int| 0 <= i < terminals.len() && (#[trigger] terminals[i]).id@ == id
}

/// The active terminal for a list of terminals stays, as long as it is among them; else it is the
/// first.
pub open spec fn active_of(active: Option<String>, terminals: Seq<Terminal>) -> Option<String> {
    if active is Some && has_terminal(terminals, active->0@) {
        active
    } else if terminals.len() > 0 {
        Some(terminals[0].id)
    } else {
        None
    }
}

fn finds_terminal(terminals: &Vec<Terminal>, id: &str) -> (r: bool)
    ensures
        r == has_terminal(terminals@, id@),
{
    let mut i: usize = 0;
    while i < terminals.len()
        invariant
            0 <= i <= terminals@.len(),
            forall|j: int| 0 <= j < i ==> (#[trigger] terminals@[j]).id@ != id@,
        decreases terminals.len() - i,
    {
        if same(terminals[i].id.as_str(), id) {
            return true;
        }
        i = i + 1;
    }
    false
}

/// Takes up the terminals of the open session. Where another becomes the active one, its output
/// begins anew.
pub fn set_terminals(core: &mut Core, terminals: Vec<Terminal>)
    ensures
        ({
            let before = old(core).view.detail;
            let after = final(core).view.detail;
            let kept = before.active_terminal is None && terminals@.len() == 0
                || before.active_terminal is Some && has_terminal(
                terminals@,
                before.active_terminal->0@,
            );
            &&& after.terminals == terminals
            &&& after.active_terminal == active_of(before.active_terminal, terminals@)
            &&& kept ==> *final(core) == with_detail(*old(core), SessionView { terminals, ..before })
            &&& !kept ==> {
                &&& after.terminal_output.output().len() == 0
                &&& after.terminal_output.version() == old(core).generations
                &&& *final(core) == (Core {
                    generations: state::after(old(core).generations),
                    ..with_detail(
                        *old(core),
                        SessionView {
                            terminals,
                            active_terminal: after.active_terminal,
                            terminal_output: after.terminal_output,
                            ..before
                        },
                    )
                })
            }
        }),
{
    let kept: bool = match &core.view.detail.active_terminal {
        Some(active) => finds_terminal(&terminals, active.as_str()),
        None => terminals.len() == 0,
    };
    if !kept {
        core.view.detail.active_terminal = if terminals.len() > 0 {
            Some(terminals[0].id.clone())
        } else {
            None
        };
        core.view.detail.terminal_output.reset(&mut core.generations);
    }
    core.view.detail.terminals = terminals;
}

/// Opens a session: nothing of it has been fetched, and everything is due.
pub fn open_session(core: &mut Core, id: &str)
    ensures
        final(core).open matches Some(OpenTarget::Session(open)) && open@ == id@,
        final(core).view.is_new(),
        final(core).view.detail.terminal_output.version() == old(core).generations,
        *final(core) == (Core {
            open: final(core).open,
            view: final(core).view,
            last: state::no_ticks(),
            generations: state::after(old(core).generations),
            ..*old(core)
        }),
{
    core.open = Some(OpenTarget::Session(id.to_owned()));
    core.view = OpenView::new(&mut core.generations);
    core.last = Ticks::default();
}

/// Opens a workflow: nothing of it has been fetched, and everything is due.
pub fn open_workflow(core: &mut Core, id: &str)
    ensures
        final(core).open matches Some(OpenTarget::Workflow(open)) && open@ == id@,
        final(core).view.is_new(),
        final(core).view.detail.terminal_output.version() == old(core).generations,
        *final(core) == (Core {
            open: final(core).open,
            view: final(core).view,
            last: state::no_ticks(),
            generations: state::after(old(core).generations),
            ..*old(core)
        }),
{
    core.open = Some(OpenTarget::Workflow(id.to_owned()));
    core.view = OpenView::new(&mut core.generations);
    core.last = Ticks::default();
}

/// The request that sends input to a session.
pub fn send_prompt(client: &Client, target: &OpenTarget, input: Vec<ContentBlock>) -> (r: Request)
    ensures
        r.verb is Post,
        r.body == (Body::Prompt(PromptRequest { input })),
        r.path@ == match target {
            OpenTarget::Session(id) => "/sessions/"@ + id@,
            OpenTarget::Workflow(id) => "/workflows/"@ + id@,
        },
{
    match target {
        OpenTarget::Session(id) => client.prompt(id.as_str(), input),
        OpenTarget::Workflow(id) => client.prompt_workflow(id.as_str(), input),
    }
}

/// The request cancels the work of a session. A workflow is asked to stop in so many words.
pub open spec fn cancels(request: Request, target: OpenTarget) -> bool {
    &&& request.verb is Post
    &&& match target {
        OpenTarget::Session(id) => request.path@ == "/sessions/"@ + id@ + "/cancel"@
            && request.body is Empty,
        OpenTarget::Workflow(id) => request.path@ == "/workflows/"@ + id@ && (
        request.body matches Body::Prompt(prompt) && prompt.input@.len() == 1 && (
        prompt.input@[0] matches ContentBlock::Text { text } && text@
            == "取消当前进行中的全部工作"@)),
    }
}

/// The request that cancels the work of a session.
pub fn cancel(client: &Client, target: &OpenTarget) -> (r: Request)
    ensures
        cancels(r, *target),
{
    match target {
        OpenTarget::Session(id) => client.cancel(id.as_str()),
        OpenTarget::Workflow(id) => {
            let stop: ContentBlock = ContentBlock::Text {
                text: "取消当前进行中的全部工作".to_owned(),
            };
            client.prompt_workflow(id.as_str(), vec![stop])
        },
    }
}

/// The request that deletes an entry. A workflow goes with its sessions.
pub fn delete(client: &Client, entry: &ListEntry) -> (r: Request)
    ensures
        r.verb is Delete,
        r.body is Nothing,
        r.path@ == match entry {
            ListEntry::Session(session) => "/sessions/"@ + session.id@,
            ListEntry::Workflow(workflow) => "/workflows/"@ + workflow.id@,
        },
{
    match entry {
        ListEntry::Session(session) => client.delete_session(session.id.as_str()),
        ListEntry::Workflow(workflow) => client.delete_workflow(workflow.id.as_str()),
    }
}

/// No two items have the same name.
pub open spec fn once_each<T>(items: Seq<T>, key: spec_fn(T) -> Seq<char>) -> bool {
    forall|i: int, j: int|
        0 <= i < j < items.len() ==> key(#[trigger] items[i]) != key(#[trigger] items[j])
}

proof fn lemma_off_page<T>(items: Seq<T>, page: Seq<T>, key: spec_fn(T) -> Seq<char>)
    ensures
        forall|i: int|
            0 <= i < off_page(items, page, key).len() ==> !on_page(
                page,
                key,
                key(#[trigger] off_page(items, page, key)[i]),
            ) && items.contains(off_page(items, page, key)[i]),
        once_each(items, key) ==> once_each(off_page(items, page, key), key),
    decreases items.len(),
{
    reveal(Seq::filter);
    let kept = off_page(items, page, key);
    if items.len() > 0 {
        let less = items.drop_last();
        let last = items.last();
        lemma_off_page(less, page, key);
        let before = off_page(less, page, key);
        assert forall|i: int| 0 <= i < kept.len() implies !on_page(
            page,
            key,
            key(#[trigger] kept[i]),
        ) && items.contains(kept[i]) by {
            if i < before.len() {
                assert(kept[i] == before[i]);
                let k = less.index_of(before[i]);
                assert(items[k] == kept[i]);
            } else {
                assert(items[items.len() - 1] == kept[i]);
            }
        }
        if once_each(items, key) {
            assert forall|i: int, j: int| 0 <= i < j < less.len() implies key(#[trigger] less[i])
                != key(#[trigger] less[j]) by {
                assert(less[i] == items[i] && less[j] == items[j]);
            }
            assert forall|i: int, j: int| 0 <= i < j < kept.len() implies key(#[trigger] kept[i])
                != key(#[trigger] kept[j]) by {
                assert(kept[i] == before[i]);
                if j < before.len() {
                    assert(kept[j] == before[j]);
                } else {
                    let k = less.index_of(before[i]);
                    assert(items[k] == kept[i]);
                    assert(items[items.len() - 1] == kept[j]);
                }
            }
        }
    }
}

/// Taking up the newest page leaves no item twice.
pub proof fn law_newest_page_leaves_items_once<T>(
    items: Seq<T>,
    page: Seq<T>,
    key: spec_fn(T) -> Seq<char>,
)
    requires
        once_each(items, key),
        once_each(page, key),
    ensures
        once_each(with_newest(items, page, key), key),
{
    lemma_off_page(items, page, key);
    let kept = off_page(items, page, key);
    let all = with_newest(items, page, key);
    assert forall|i: int, j: int| 0 <= i < j < all.len() implies key(#[trigger] all[i]) != key(
        #[trigger] all[j],
    ) by {
        if i < kept.len() && j >= kept.len() {
            assert(all[i] == kept[i]);
            let k = j - kept.len();
            assert(page.map_values(key)[k] == key(all[j]));
            assert(on_page(page, key, key(all[j])));
        } else if i >= kept.len() {
            assert(all[i] == page[i - kept.len()]);
            assert(all[j] == page[j - kept.len()]);
        }
    }
}

proof fn lemma_all_on_page<T>(items: Seq<T>, page: Seq<T>, key: spec_fn(T) -> Seq<char>)
    requires
        forall|i: int| 0 <= i < items.len() ==> on_page(page, key, key(#[trigger] items[i])),
    ensures
        off_page(items, page, key).len() == 0,
    decreases items.len(),
{
    reveal(Seq::filter);
    if items.len() > 0 {
        assert(on_page(page, key, key(items[items.len() - 1])));
        assert forall|i: int| 0 <= i < items.drop_last().len() implies on_page(
            page,
            key,
            key(#[trigger] items.drop_last()[i]),
        ) by {
            assert(items.drop_last()[i] == items[i]);
        }
        lemma_all_on_page(items.drop_last(), page, key);
    }
}

proof fn lemma_none_on_page<T>(items: Seq<T>, page: Seq<T>, key: spec_fn(T) -> Seq<char>)
    requires
        forall|i: int| 0 <= i < items.len() ==> !on_page(page, key, key(#[trigger] items[i])),
    ensures
        off_page(items, page, key) == items,
    decreases items.len(),
{
    reveal(Seq::filter);
    if items.len() > 0 {
        assert(!on_page(page, key, key(items[items.len() - 1])));
        assert forall|i: int| 0 <= i < items.drop_last().len() implies !on_page(
            page,
            key,
            key(#[trigger] items.drop_last()[i]),
        ) by {
            assert(items.drop_last()[i] == items[i]);
        }
        lemma_none_on_page(items.drop_last(), page, key);
        assert(items.drop_last().push(items.last()) =~= items);
    } else {
        assert(items =~= Seq::empty());
    }
}

proof fn lemma_off_page_adds<T>(a: Seq<T>, b: Seq<T>, page: Seq<T>, key: spec_fn(T) -> Seq<char>)
    ensures
        off_page(a + b, page, key) == off_page(a, page, key) + off_page(b, page, key),
    decreases b.len(),
{
    reveal(Seq::filter);
    if b.len() > 0 {
        lemma_off_page_adds(a, b.drop_last(), page, key);
        assert((a + b).drop_last() =~= a + b.drop_last());
        assert(off_page(a + b, page, key) =~= off_page(a, page, key) + off_page(b, page, key));
    } else {
        assert(a + b =~= a);
        assert(off_page(b, page, key) =~= Seq::empty());
        assert(off_page(a, page, key) + Seq::<T>::empty() =~= off_page(a, page, key));
    }
}

/// Taking up a page that was taken up already changes nothing.
pub proof fn law_same_page_changes_nothing<T>(
    items: Seq<T>,
    page: Seq<T>,
    key: spec_fn(T) -> Seq<char>,
)
    ensures
        with_newest(with_newest(items, page, key), page, key) == with_newest(items, page, key),
{
    let kept = off_page(items, page, key);
    lemma_off_page(items, page, key);
    lemma_off_page_adds(kept, page, page, key);
    lemma_none_on_page(kept, page, key);
    assert forall|i: int| 0 <= i < page.len() implies on_page(page, key, key(#[trigger] page[i])) by {
        assert(page.map_values(key)[i] == key(page[i]));
    }
    lemma_all_on_page(page, page, key);
    assert(off_page(page, page, key) =~= Seq::empty());
    assert(kept + Seq::<T>::empty() =~= kept);
}

proof fn lemma_put_once(entries: Seq<ListEntry>, entry: ListEntry)
    requires
        once_each(entries, |e: ListEntry| e.key()),
    ensures
        once_each(put(entries, entry), |e: ListEntry| e.key()),
        put(entries, entry).len() <= entries.len() + 1,
{
    let at = place_of(entries, entry.key()) as int;
    lemma_place(entries, entry.key());
    let after = put(entries, entry);
    assert forall|i: int, j: int| 0 <= i < j < after.len() implies (#[trigger] after[i]).key() != (
    #[trigger] after[j]).key() by {
        let key = |e: ListEntry| e.key();
        if at < entries.len() {
            assert(entries[at].key() == entry.key());
            assert(key(entries[i]) != key(entries[j]));
        } else if j < entries.len() {
            assert(key(entries[i]) != key(entries[j]));
        }
    }
}

proof fn lemma_place(entries: Seq<ListEntry>, id: Seq<char>)
    ensures
        place_of(entries, id) <= entries.len(),
        forall|i: int| 0 <= i < place_of(entries, id) ==> (#[trigger] entries[i]).key() != id,
        place_of(entries, id) < entries.len() ==> entries[place_of(entries, id) as int].key() == id,
    decreases entries.len(),
{
    if entries.len() > 0 && entries[0].key() != id {
        let rest = entries.skip(1);
        lemma_place(rest, id);
        assert forall|i: int| 0 <= i < place_of(entries, id) implies (#[trigger] entries[i]).key()
            != id by {
            if i > 0 {
                assert(rest[i - 1] == entries[i]);
            }
        }
    }
}

/// Taking up older sessions leaves no entry of the list twice.
pub proof fn law_older_entries_stand_once(entries: Seq<ListEntry>, page: Seq<ListEntry>)
    requires
        once_each(entries, |e: ListEntry| e.key()),
    ensures
        once_each(put_all(entries, page), |e: ListEntry| e.key()),
    decreases page.len(),
{
    if page.len() > 0 {
        law_older_entries_stand_once(entries, page.drop_last());
        lemma_put_once(put_all(entries, page.drop_last()), page.last());
    }
}

/// A view that was just refreshed is not due again before its interval is over.
pub proof fn law_refreshed_views_wait(at: u64, interval: u64, now: u64)
    requires
        at <= now,
    ensures
        state::due_at(Some(at), interval, now) <==> now >= at + interval,
{
}

} // verus!
