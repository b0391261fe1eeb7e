//! What holds of the collection whatever the commands are given.

use vstd::prelude::*;

use crate::clock::Timestamp;
use crate::command::Commands;
use crate::dispatch::RequestView;
use crate::error::CliError;
use crate::id::{lemma_text_reads_back, TaskId};
use crate::list::{
    described, has_id, ids_distinct, in_status, is_first_with_id, marked, not_carrying,
    with_status, without_id,
};
use crate::status::{lemma_keyword_round_trip, Status};
use crate::task::TaskView;

verus! {

/// The identifiers of the tasks, in the collection's order.
pub open spec fn ids(s: Seq<TaskView>) -> Seq<TaskId> {
    s.map_values(|t: TaskView| t.id)
}

proof fn lemma_filter_keeps_all(s: Seq<TaskView>, pred: spec_fn(TaskView) -> bool)
    requires
        forall|i: int| 0 <= i < s.len() ==> pred(#[trigger] s[i]),
    ensures
        s.filter(pred) == s,
    decreases s.len(),
{
    reveal(Seq::filter);
    if s.len() > 0 {
        assert forall|i: int| 0 <= i < s.drop_last().len() implies
            pred(#[trigger] s.drop_last()[i]) by {
            assert(s.drop_last()[i] == s[i]);
        }
        lemma_filter_keeps_all(s.drop_last(), pred);
        assert(s.drop_last().push(s.last()) =~= s);
    }
}

proof fn lemma_filter_keeps_none(s: Seq<TaskView>, pred: spec_fn(TaskView) -> bool)
    requires
        forall|i: int| 0 <= i < s.len() ==> !pred(#[trigger] s[i]),
    ensures
        s.filter(pred) == Seq::<TaskView>::empty(),
    decreases s.len(),
{
    reveal(Seq::filter);
    if s.len() > 0 {
        assert forall|i: int| 0 <= i < s.drop_last().len() implies
            !pred(#[trigger] s.drop_last()[i]) by {
            assert(s.drop_last()[i] == s[i]);
        }
        lemma_filter_keeps_none(s.drop_last(), pred);
    } else {
        assert(s =~= Seq::<TaskView>::empty());
    }
}

/// No identifier occurs twice among the tasks exactly when the sequence of
/// their identifiers is free of duplicates, and then there are as many
/// identifiers as tasks.
pub proof fn lemma_distinct_ids_are_counted(s: Seq<TaskView>)
    ensures
        ids_distinct(s) <==> ids(s).no_duplicates(),
        ids_distinct(s) ==> ids(s).to_set().len() == s.len(),
{
    if ids_distinct(s) {
        assert forall|i: int, j: int|
            0 <= i < ids(s).len() && 0 <= j < ids(s).len() && i != j implies
            ids(s)[i] != ids(s)[j] by {
            if i < j {
                assert(s[i].id != s[j].id);
            } else {
                assert(s[j].id != s[i].id);
            }
        }
        ids(s).unique_seq_to_set();
    }
    if ids(s).no_duplicates() {
        assert forall|i: int, j: int| 0 <= i < j < s.len() implies
            (#[trigger] s[i]).id != (#[trigger] s[j]).id by {
            assert(ids(s)[i] != ids(s)[j]);
        }
    }
}

/// Adding a task under an identifier that no task carries yet keeps the
/// identifiers distinct.
pub proof fn lemma_add_keeps_ids_distinct(s: Seq<TaskView>, task: TaskView)
    requires
        ids_distinct(s),
        !has_id(s, task.id),
    ensures
        ids_distinct(s.push(task)),
{
    let after = s.push(task);
    assert forall|i: int, j: int| 0 <= i < j < after.len() implies
        (#[trigger] after[i]).id != (#[trigger] after[j]).id by {
        if j < s.len() {
            assert(s[i].id != s[j].id);
        } else {
            assert(s[i].id != task.id);
        }
    }
}

/// Adding any number of tasks gives as many distinct identifiers as tasks
/// were added, as long as no identifier is drawn twice: the tasks at the
/// end of the collection then carry pairwise different identifiers.
pub proof fn lemma_adds_give_distinct_ids(s: Seq<TaskView>, added: Seq<TaskView>)
    requires
        forall|k: int| 0 <= k < added.len() ==> !has_id(added.take(k), (#[trigger] added[k]).id),
    ensures
        (s + added).skip(s.len() as int) == added,
        ids_distinct(added),
        ids(added).to_set().len() == added.len(),
{
    assert((s + added).skip(s.len() as int) =~= added);
    assert forall|i: int, j: int| 0 <= i < j < added.len() implies
        (#[trigger] added[i]).id != (#[trigger] added[j]).id by {
        assert(!has_id(added.take(j), added[j].id));
        assert(added.take(j)[i] == added[i]);
    }
    lemma_distinct_ids_are_counted(added);
}

/// Adding any number of tasks, each under an identifier that no task
/// carries at that moment, keeps all identifiers of the collection
/// distinct.
pub proof fn lemma_adds_keep_ids_distinct(s: Seq<TaskView>, added: Seq<TaskView>)
    requires
        ids_distinct(s),
        forall|k: int|
            0 <= k < added.len() ==> !has_id(s + added.take(k), (#[trigger] added[k]).id),
    ensures
        ids_distinct(s + added),
        ids(s + added).to_set().len() == s.len() + added.len(),
    decreases added.len(),
{
    if added.len() == 0 {
        assert(s + added =~= s);
    } else {
        let front = added.drop_last();
        assert forall|k: int| 0 <= k < front.len() implies
            !has_id(s + front.take(k), (#[trigger] front[k]).id) by {
            assert(front.take(k) =~= added.take(k));
            assert(front[k] == added[k]);
        }
        lemma_adds_keep_ids_distinct(s, front);
        assert(added.take(added.len() - 1) =~= front);
        assert(!has_id(s + front, added[added.len() - 1].id));
        lemma_add_keeps_ids_distinct(s + front, added.last());
        assert((s + front).push(added.last()) =~= s + added);
    }
    lemma_distinct_ids_are_counted(s + added);
}

/// `mark`, `update` and `delete` on an identifier that no task carries
/// leave the collection as it was, and the collection is written back all
/// the same.
pub proof fn lemma_unknown_id_changes_nothing(
    s: Seq<TaskView>,
    id: TaskId,
    status: Status,
    description: Seq<char>,
)
    requires
        !has_id(s, id),
    ensures
        marked(s, id, status) == s,
        described(s, id, description) == s,
        without_id(s, id) == s,
        forall|after: Seq<TaskView>|
            #[trigger] (RequestView::Mark { id, status }).leads(s, after) ==> after == s,
        forall|after: Seq<TaskView>|
            #[trigger] (RequestView::Update { id, description }).leads(s, after) ==> after == s,
        forall|after: Seq<TaskView>|
            #[trigger] (RequestView::Delete { id }).leads(s, after) ==> after == s,
        (RequestView::Mark { id, status }).saves(),
        (RequestView::Update { id, description }).saves(),
        (RequestView::Delete { id }).saves(),
{
    assert(marked(s, id, status) =~= s);
    assert(described(s, id, description) =~= s);
    lemma_filter_keeps_all(s, not_carrying(id));
}

/// Where several tasks carry the identifier, `mark` changes the first of
/// them only, and of that one nothing but the status.
pub proof fn lemma_mark_changes_first_match_only(
    s: Seq<TaskView>,
    id: TaskId,
    status: Status,
    first: int,
)
    requires
        is_first_with_id(s, id, first),
    ensures
        marked(s, id, status) == s.update(first, s[first].with_status(status)),
        forall|i: int| 0 <= i < s.len() && i != first ==> marked(s, id, status)[i] == s[i],
{
    assert(marked(s, id, status) =~= s.update(first, s[first].with_status(status)));
}

/// Where several tasks carry the identifier, `update` changes the first of
/// them only, and of that one nothing but the description.
pub proof fn lemma_update_changes_first_match_only(
    s: Seq<TaskView>,
    id: TaskId,
    description: Seq<char>,
    first: int,
)
    requires
        is_first_with_id(s, id, first),
    ensures
        described(s, id, description) == s.update(first, s[first].with_description(description)),
        forall|i: int|
            0 <= i < s.len() && i != first ==> described(s, id, description)[i] == s[i],
{
    assert(described(s, id, description)
        =~= s.update(first, s[first].with_description(description)));
}

/// `delete` removes every task that carries the identifier, however many
/// there are, and keeps every other task.
pub proof fn lemma_delete_removes_every_match(s: Seq<TaskView>, id: TaskId)
    ensures
        !has_id(without_id(s, id), id),
        forall|i: int|
            0 <= i < s.len() && s[i].id != id ==> without_id(s, id).contains(#[trigger] s[i]),
        forall|t: TaskView| without_id(s, id).contains(t) ==> s.contains(t),
        without_id(s, id).len() <= s.len(),
{
    let pred = not_carrying(id);
    let kept = without_id(s, id);
    assert forall|i: int| 0 <= i < kept.len() implies (#[trigger] kept[i]).id != id by {
        s.lemma_filter_pred(pred, i);
    }
    assert forall|i: int| 0 <= i < s.len() && s[i].id != id implies
        kept.contains(#[trigger] s[i]) by {
        s.lemma_filter_contains(pred, i);
    }
    assert forall|t: TaskView| kept.contains(t) implies s.contains(t) by {
        s.lemma_filter_contains_rev(pred, t);
    }
    s.lemma_filter_len(pred);
}

/// `mark` keeps the number of tasks, their order, and of every task the
/// identifier, the description and both timestamps.
pub proof fn lemma_mark_keeps_all_but_status(s: Seq<TaskView>, id: TaskId, status: Status)
    ensures
        marked(s, id, status).len() == s.len(),
        forall|i: int|
            0 <= i < s.len() ==>
                (#[trigger] marked(s, id, status)[i]).with_status(s[i].status) == s[i],
{
}

/// `update` keeps the number of tasks, their order, and of every task the
/// identifier, the status and both timestamps.
pub proof fn lemma_update_keeps_all_but_description(
    s: Seq<TaskView>,
    id: TaskId,
    description: Seq<char>,
)
    ensures
        described(s, id, description).len() == s.len(),
        forall|i: int|
            0 <= i < s.len() ==>
                (#[trigger] described(s, id, description)[i]).with_description(s[i].description)
                    == s[i],
{
}

/// A listing by status shows tasks of that status only, and every task of
/// that status.
pub proof fn lemma_listing_shows_the_status(s: Seq<TaskView>, status: Status)
    ensures
        forall|i: int|
            0 <= i < with_status(s, status).len() ==>
                (#[trigger] with_status(s, status)[i]).status == status,
        forall|i: int|
            0 <= i < s.len() && s[i].status == status ==>
                with_status(s, status).contains(#[trigger] s[i]),
        forall|t: TaskView| with_status(s, status).contains(t) ==> s.contains(t),
{
    let pred = in_status(status);
    let shown = with_status(s, status);
    assert forall|i: int| 0 <= i < shown.len() implies (#[trigger] shown[i]).status == status by {
        s.lemma_filter_pred(pred, i);
    }
    assert forall|i: int| 0 <= i < s.len() && s[i].status == status implies
        shown.contains(#[trigger] s[i]) by {
        s.lemma_filter_contains(pred, i);
    }
    assert forall|t: TaskView| shown.contains(t) implies s.contains(t) by {
        s.lemma_filter_contains_rev(pred, t);
    }
}

/// Where exactly one task has the status, a listing by that status shows
/// that task and nothing else.
pub proof fn lemma_single_match_is_listed_alone(s: Seq<TaskView>, status: Status, only: int)
    requires
        0 <= only < s.len(),
        s[only].status == status,
        forall|i: int| 0 <= i < s.len() && i != only ==> (#[trigger] s[i]).status != status,
    ensures
        with_status(s, status) == seq![s[only]],
{
    let pred = in_status(status);
    let front = s.take(only);
    let one = seq![s[only]];
    let back = s.skip(only + 1);
    assert(s =~= front + one + back);
    Seq::filter_distributes_over_add(front + one, back, pred);
    Seq::filter_distributes_over_add(front, one, pred);
    lemma_filter_keeps_none(front, pred);
    lemma_filter_keeps_none(back, pred);
    lemma_filter_keeps_all(one, pred);
    assert(Seq::<TaskView>::empty() + one + Seq::<TaskView>::empty() =~= one);
}

/// While the identifiers are distinct, a task's own identifier marks that
/// task: `mark` changes it and no other.
pub proof fn lemma_mark_reaches_the_task(s: Seq<TaskView>, at: int, status: Status)
    requires
        ids_distinct(s),
        0 <= at < s.len(),
    ensures
        marked(s, s[at].id, status) == s.update(at, s[at].with_status(status)),
{
    assert(is_first_with_id(s, s[at].id, at)) by {
        assert forall|j: int| 0 <= j < at implies (#[trigger] s[j]).id != s[at].id by {
            assert(s[j].id != s[at].id);
        }
    }
    lemma_mark_changes_first_match_only(s, s[at].id, status, at);
}

/// While the identifiers are distinct, a task's own identifier names that
/// task: `update` changes it and no other.
pub proof fn lemma_update_reaches_the_task(s: Seq<TaskView>, at: int, description: Seq<char>)
    requires
        ids_distinct(s),
        0 <= at < s.len(),
    ensures
        described(s, s[at].id, description)
            == s.update(at, s[at].with_description(description)),
{
    assert(is_first_with_id(s, s[at].id, at)) by {
        assert forall|j: int| 0 <= j < at implies (#[trigger] s[j]).id != s[at].id by {
            assert(s[j].id != s[at].id);
        }
    }
    lemma_update_changes_first_match_only(s, s[at].id, description, at);
}

/// While the identifiers are distinct, `delete` with a task's own
/// identifier removes that task and no other.
pub proof fn lemma_delete_removes_the_task(s: Seq<TaskView>, at: int)
    requires
        ids_distinct(s),
        0 <= at < s.len(),
    ensures
        without_id(s, s[at].id) == s.remove(at),
{
    let pred = not_carrying(s[at].id);
    let front = s.take(at);
    let one = seq![s[at]];
    let back = s.skip(at + 1);
    assert(s =~= front + one + back);
    Seq::filter_distributes_over_add(front + one, back, pred);
    Seq::filter_distributes_over_add(front, one, pred);
    assert forall|j: int| 0 <= j < front.len() implies pred(#[trigger] front[j]) by {
        assert(s[j].id != s[at].id);
    }
    assert forall|j: int| 0 <= j < back.len() implies pred(#[trigger] back[j]) by {
        assert(s[at].id != s[at + 1 + j].id);
    }
    lemma_filter_keeps_all(front, pred);
    lemma_filter_keeps_all(back, pred);
    lemma_filter_keeps_none(one, pred);
    assert(front + Seq::<TaskView>::empty() + back =~= s.remove(at));
}

/// A command that names a task by the canonical text of its identifier is
/// read as a request on that identifier, so what a listing prints in front
/// of a task can be handed to `update`, `delete` and `mark`.
pub proof fn lemma_canonical_text_names_the_task(
    id: TaskId,
    description: Seq<char>,
    status: Status,
)
    ensures
        RequestView::of_command(Commands::Update, seq![id.text(), description])
            == Ok::<RequestView, CliError>(RequestView::Update { id, description }),
        RequestView::of_command(Commands::Delete, seq![id.text()])
            == Ok::<RequestView, CliError>(RequestView::Delete { id }),
        RequestView::of_command(Commands::Mark, seq![id.text(), status.keyword()])
            == Ok::<RequestView, CliError>(RequestView::Mark { id, status }),
{
    lemma_text_reads_back(id);
    lemma_keyword_round_trip(status);
}

/// The identifiers stay distinct under every command, as long as `add`
/// draws an identifier that no task carries.
pub proof fn lemma_commands_keep_ids_distinct(
    request: RequestView,
    before: Seq<TaskView>,
    after: Seq<TaskView>,
)
    requires
        ids_distinct(before),
        request.leads(before, after),
        request is Add ==> !has_id(before, after.last().id),
    ensures
        ids_distinct(after),
{
    match request {
        RequestView::Help => {},
        RequestView::List { .. } => {},
        RequestView::Add { description } => {
            let (id, now) = choose|id: TaskId, now: Timestamp|
                after == before.push(#[trigger] TaskView::created(id, description, now));
            assert(after.last() == TaskView::created(id, description, now));
            lemma_add_keeps_ids_distinct(before, after.last());
        },
        RequestView::Update { id, description } => {
            assert forall|i: int, j: int| 0 <= i < j < after.len() implies
                (#[trigger] after[i]).id != (#[trigger] after[j]).id by {
                assert(before[i].id != before[j].id);
            }
        },
        RequestView::Mark { id, status } => {
            assert forall|i: int, j: int| 0 <= i < j < after.len() implies
                (#[trigger] after[i]).id != (#[trigger] after[j]).id by {
                assert(before[i].id != before[j].id);
            }
        },
        RequestView::Delete { id } => {
            lemma_filter_keeps_distinct(before, not_carrying(id));
        },
    }
}

proof fn lemma_filter_keeps_distinct(s: Seq<TaskView>, pred: spec_fn(TaskView) -> bool)
    requires
        ids_distinct(s),
    ensures
        ids_distinct(s.filter(pred)),
    decreases s.len(),
{
    reveal(Seq::filter);
    let kept = s.filter(pred);
    if s.len() > 0 {
        let front = s.drop_last();
        assert forall|i: int, j: int| 0 <= i < j < front.len() implies
            (#[trigger] front[i]).id != (#[trigger] front[j]).id by {
            assert(s[i].id != s[j].id);
        }
        lemma_filter_keeps_distinct(front, pred);
        let sub = front.filter(pred);
        assert forall|i: int, j: int| 0 <= i < j < kept.len() implies
            (#[trigger] kept[i]).id != (#[trigger] kept[j]).id by {
            if j < sub.len() {
                assert(sub[i].id != sub[j].id);
            } else {
                assert(sub.contains(sub[i]));
                front.lemma_filter_contains_rev(pred, sub[i]);
                let k = choose|k: int| 0 <= k < front.len() && front[k] == sub[i];
                assert(s[k].id != s[s.len() - 1].id);
            }
        }
    }
}

} // verus!
