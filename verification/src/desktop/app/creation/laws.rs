//! What holds of making sessions as a whole.
use crate::common::api::{CreateSessionRequest, Project, RecentWorkspace, WorkflowPlanItem};
use crate::common::domain::FsEntry;
use crate::desktop::app::creation;
use crate::desktop::app::forms;
use crate::desktop::app::forms::Named;
use crate::desktop::state;
use crate::desktop::state::{Core, NewSessionForm};
use crate::desktop::ui;
use crate::strings;
use vstd::prelude::*;

verus! {

/// A session is asked for as the form says: on its machine, with its agent, in the directory that
/// was entered, in a worktree if and only if that was ticked, and for its project.
pub proof fn law_a_session_is_asked_for_as_the_form_says(
    body: CreateSessionRequest,
    form: NewSessionForm,
    workspace: Seq<char>,
)
    requires
        creation::asks_for(body, form, workspace),
    ensures
        form.machine matches Some(machine) && body.machine@ == machine@,
        form.agent matches Some(agent) && body.agent@ == agent@,
        body.workspace@ == strings::trim_of(workspace),
        body.use_worktree <==> form.use_worktree,
        body.project == form.project,
{
}

/// Forms that differ in the worktree alone ask for sessions that differ in the worktree alone.
pub proof fn law_the_worktree_is_the_users_choice(
    with: CreateSessionRequest,
    without: CreateSessionRequest,
    form: NewSessionForm,
    workspace: Seq<char>,
)
    requires
        creation::asks_for(with, NewSessionForm { use_worktree: true, ..form }, workspace),
        creation::asks_for(without, NewSessionForm { use_worktree: false, ..form }, workspace),
    ensures
        with.use_worktree && !without.use_worktree,
        with.machine@ == without.machine@,
        with.agent@ == without.agent@,
        with.workspace@ == without.workspace@,
        with.project == without.project,
{
}

/// The first of a name is found where there is one, and nothing is found where there is none.
pub proof fn law_the_first_of_a_name_is_found<T: Named>(list: Seq<T>, name: Seq<char>)
    ensures
        forms::place_of(list, name) <= list.len(),
        forms::place_of(list, name) < list.len() ==> list[forms::place_of(
            list,
            name,
        ) as int].key() == name,
        forall|i: int|
            0 <= i < forms::place_of(list, name) ==> (#[trigger] list[i]).key() != name,
    decreases list.len(),
{
    if list.len() > 0 && list[0].key() != name {
        let rest = list.skip(1);
        law_the_first_of_a_name_is_found(rest, name);
        assert forall|i: int| 0 <= i < forms::place_of(list, name) implies (
        #[trigger] list[i]).key() != name by {
            if i > 0 {
                assert(rest[i - 1] == list[i]);
            }
        }
    }
}

/// A project that was used last is taken up if and only if there still is one of its name.
pub proof fn law_only_known_projects_are_taken_up(projects: Seq<Project>, name: Option<String>)
    ensures
        creation::known_project(projects, name) is Some <==> (name is Some && exists|k: int|
            0 <= k < projects.len() && (#[trigger] projects[k]).name@ == name->0@),
        creation::known_project(projects, name) is Some ==> creation::known_project(projects, name)
            == name,
{
    if name is Some {
        law_the_first_of_a_name_is_found(projects, name->0@);
        let at = forms::place_of(projects, name->0@) as int;
        assert forall|k: int| 0 <= k < projects.len() implies (#[trigger] projects[k]).name@
            == projects[k].key() by {}
        if at < projects.len() {
            assert(projects[at].name@ == name->0@);
        }
    }
}

/// A plan is known by its text: the name is that of the first plan with the text, and there is none
/// where no plan has it.
pub proof fn law_a_plan_is_known_by_its_text(plans: Seq<WorkflowPlanItem>, plan: Seq<char>)
    ensures
        creation::plan_name(plans, plan) is None <==> forall|k: int|
            0 <= k < plans.len() ==> (#[trigger] plans[k]).plan@ != plan,
        creation::plan_name(plans, plan) matches Some(name) ==> exists|k: int|
            0 <= k < plans.len() && (#[trigger] plans[k]).plan@ == plan && plans[k].name@ == name
                && forall|j: int| 0 <= j < k ==> (#[trigger] plans[j]).plan@ != plan,
    decreases plans.len(),
{
    if plans.len() > 0 {
        let rest = plans.skip(1);
        law_a_plan_is_known_by_its_text(rest, plan);
        if plans[0].plan@ != plan {
            match creation::plan_name(rest, plan) {
                Some(name) => {
                    let k = choose|k: int|
                        0 <= k < rest.len() && (#[trigger] rest[k]).plan@ == plan && rest[k].name@
                            == name && forall|j: int|
                            0 <= j < k ==> (#[trigger] rest[j]).plan@ != plan;
                    assert(plans[k + 1] == rest[k]);
                    assert forall|j: int| 0 <= j < k + 1 implies (#[trigger] plans[j]).plan@
                        != plan by {
                        if j > 0 {
                            assert(rest[j - 1] == plans[j]);
                        }
                    }
                },
                None => {
                    assert forall|k: int| 0 <= k < plans.len() implies (#[trigger] plans[k]).plan@
                        != plan by {
                        if k > 0 {
                            assert(rest[k - 1] == plans[k]);
                        }
                    }
                },
            }
        } else {
            assert(plans[0].plan@ == plan);
        }
    }
}

/// A plan that was used remembers for which project; nothing else of the plans changes.
pub proof fn law_a_used_plan_remembers_its_project(
    plans: Seq<WorkflowPlanItem>,
    name: Seq<char>,
    project: Option<String>,
    k: int,
)
    requires
        0 <= k < plans.len(),
    ensures
        ({
            let after = creation::plans_used(plans, name, project);
            &&& after.len() == plans.len()
            &&& after[k].name == plans[k].name
            &&& after[k].plan == plans[k].plan
            &&& plans[k].name@ != name ==> after[k] == plans[k]
            &&& plans[k].name@ == name && (forall|j: int|
                0 <= j < k ==> (#[trigger] plans[j]).name@ != name) ==> after[k].last_used_project
                == project
        }),
{
    law_the_first_of_a_name_is_found(plans, name);
    let at = forms::place_of(plans, name) as int;
    if plans[k].name@ == name {
        assert(plans[k].key() == name);
        if at < k {
            assert(plans[at].key() == plans[at].name@);
        }
    }
    if at < plans.len() {
        assert(plans[at].key() == plans[at].name@);
    }
}

/// Of the directories that were used lately those go that are the one on its machine, and the others
/// stay in their order.
pub proof fn law_one_recent_directory_goes(
    list: Seq<RecentWorkspace>,
    item: RecentWorkspace,
    target: RecentWorkspace,
)
    ensures
        creation::recent_without(Seq::empty(), target) == Seq::<RecentWorkspace>::empty(),
        creation::recent_without(list.push(item), target) == if item.machine@ == target.machine@
            && item.workspace@ == target.workspace@ {
            creation::recent_without(list, target)
        } else {
            creation::recent_without(list, target).push(item)
        },
{
    reveal(Seq::filter);
    assert(list.push(item).drop_last() =~= list);
    assert(creation::recent_without(Seq::empty(), target) =~= Seq::empty());
}

/// Those entries are suggested whose names begin with what was typed, in their order.
pub proof fn law_suggestions_begin_with_what_was_typed(
    entries: Seq<FsEntry>,
    entry: FsEntry,
    typed: Seq<char>,
)
    ensures
        state::beginning_with(Seq::empty(), typed) == Seq::<FsEntry>::empty(),
        state::beginning_with(entries.push(entry), typed) == if typed.len() <= entry.name@.len()
            && entry.name@.take(typed.len() as int) == typed {
            state::beginning_with(entries, typed).push(entry)
        } else {
            state::beginning_with(entries, typed)
        },
{
    reveal(Seq::filter);
    assert(entries.push(entry).drop_last() =~= entries);
    assert(state::beginning_with(Seq::empty(), typed) =~= Seq::empty());
    if typed.is_prefix_of(entry.name@) {
        assert(entry.name@.take(typed.len() as int) =~= typed);
    } else if typed.len() <= entry.name@.len() && entry.name@.take(typed.len() as int) == typed {
        assert(typed =~= entry.name@.subrange(0, typed.len() as int));
    }
}

/// What was typed is parted behind its last slash: into a directory that is listed and the beginning
/// of a name in it. What has no slash is not parted.
pub proof fn law_a_path_is_parted_at_its_last_slash(text: Seq<char>)
    ensures
        ui::typed_dir(text) is None <==> !text.contains('/'),
        ui::typed_dir(text) matches Some((dir, prefix)) ==> dir + prefix == text && dir.len() > 0
            && dir.last() == '/' && !prefix.contains('/'),
    decreases text.len(),
{
    if text.len() > 0 {
        let less = text.drop_last();
        law_a_path_is_parted_at_its_last_slash(less);
        assert(text[text.len() - 1] == text.last());
        if text.last() == '/' {
            assert(text + Seq::<char>::empty() =~= text);
        } else {
            if less.contains('/') {
                let k = less.index_of('/');
                assert(text[k] == '/');
                let (dir, prefix) = ui::typed_dir(less)->0;
                assert(dir + prefix == less);
                assert((dir + prefix).push(text.last()) =~= dir + prefix.push(text.last()));
                assert(less.push(text.last()) =~= text);
                if prefix.push(text.last()).contains('/') {
                    let j = prefix.push(text.last()).index_of('/');
                    assert(prefix[j] == '/');
                }
            } else if text.contains('/') {
                let k = text.index_of('/');
                assert(less[k] == '/');
            }
        }
    }
}

/// What is suggested goes where it is put away, and the rest of the form stays.
pub proof fn law_suggestions_are_put_away(before: Core, after: Core)
    requires
        creation::without_suggestions(before, after),
    ensures
        after.new_session.suggestions@.len() == 0 && after.new_session.suggestion is None,
        after.new_session.machine == before.new_session.machine && after.new_session.agent
            == before.new_session.agent && after.new_session.use_worktree
            == before.new_session.use_worktree && after.new_session.project
            == before.new_session.project && after.new_session.workflow_mode
            == before.new_session.workflow_mode,
        after.open == before.open && after.entries == before.entries && after.settings
            == before.settings,
{
}

/// What is typed on narrows down what is suggested of the directory that was listed.
pub proof fn law_typing_on_narrows_what_is_suggested(before: Core, after: Core, prefix: Seq<char>)
    requires
        creation::narrowed(before, after, prefix),
    ensures
        before.new_session.suggestion matches Some(listing) && after.new_session.suggestions@
            == state::beginning_with(listing.entries@, prefix),
        after.new_session.suggestion_prefix@ == prefix,
        after.new_session.machine == before.new_session.machine && after.new_session.use_worktree
            == before.new_session.use_worktree,
{
}

/// While a directory is listed nothing of it is suggested, and it is known which one is awaited.
pub proof fn law_directories_are_awaited(
    before: Core,
    after: Core,
    machine: Seq<char>,
    dir: Seq<char>,
    prefix: Seq<char>,
)
    requires
        creation::awaits(before, after, machine, dir, prefix),
    ensures
        after.new_session.suggestion matches Some(listing) && listing.machine@ == machine
            && listing.dir@ == dir && listing.entries@.len() == 0,
        creation::lists(after, machine, dir),
        forall|other: Seq<char>| other != dir ==> !#[trigger] creation::lists(after, machine, other),
        after.new_session.suggestions@.len() == 0 && after.new_session.suggestion_prefix@ == prefix,
        after.new_session.machine == before.new_session.machine && after.new_session.use_worktree
            == before.new_session.use_worktree,
{
}

} // verus!
