use crate::store::{owned_by, TasksModel};
use crate::task::TaskModel;
use vstd::prelude::*;

verus! {

/// An owner who has created no task has an empty list of tasks, and so a
/// count of zero.
pub proof fn lemma_unknown_owner_has_no_tasks(m: TasksModel, owner: Seq<char>)
    requires
        forall|i: int| 0 <= i < m.records.len() ==> (#[trigger] m.records[i]).0 != owner,
    ensures
        m.tasks_of(owner) == Seq::<TaskModel>::empty(),
        m.tasks_of(owner).len() == 0,
    decreases m.records.len(),
{
    if m.records.len() > 0 {
        let prev = TasksModel { next_id: m.next_id, records: m.records.drop_last() };
        assert forall|i: int| 0 <= i < prev.records.len() implies (#[trigger] prev.records[i]).0
            != owner by {
            assert(prev.records[i] == m.records[i]);
        }
        lemma_unknown_owner_has_no_tasks(prev, owner);
        assert(m.records.last() == m.records[m.records.len() - 1]);
    }
}

/// Creating a task appends it, with the counter's value as its identifier, to
/// its owner's list, and leaves every other owner's list as it was.
pub proof fn lemma_create_appends_to_owner(
    m: TasksModel,
    owner: Seq<char>,
    text: Seq<char>,
    day: Seq<char>,
    reminder: bool,
    other: Seq<char>,
)
    requires
        other != owner,
    ensures
        m.after_create(owner, text, day, reminder).tasks_of(owner) == m.tasks_of(owner).push(
            TaskModel { id: m.next_id, text: text, day: day, reminder: reminder },
        ),
        m.after_create(owner, text, day, reminder).tasks_of(other) == m.tasks_of(other),
{
    let r = m.after_create(owner, text, day, reminder).records;
    assert(r.drop_last() =~= m.records);
    assert(owned_by(r, owner) == owned_by(r.drop_last(), owner).push(r.last().1));
    assert(owned_by(r, other) == owned_by(r.drop_last(), other));
}

/// Creating a task and then deleting it by the identifier it received gives
/// back the store's tasks as they were: each owner's list and count, and the
/// total.
pub proof fn lemma_create_then_delete_restores(
    m: TasksModel,
    owner: Seq<char>,
    text: Seq<char>,
    day: Seq<char>,
    reminder: bool,
    anyone: Seq<char>,
)
    requires
        m.wf(),
    ensures
        m.after_create(owner, text, day, reminder).has_id(m.next_id),
        m.after_create(owner, text, day, reminder).after_delete(m.next_id).records == m.records,
        m.after_create(owner, text, day, reminder).after_delete(m.next_id).tasks_of(anyone)
            == m.tasks_of(anyone),
        m.after_create(owner, text, day, reminder).after_delete(m.next_id).records.len()
            == m.records.len(),
{
    let c = m.after_create(owner, text, day, reminder);
    let k = m.records.len() as int;
    assert(c.records[k].1.id == m.next_id);
    assert(c.has_id(m.next_id));
    let p = c.position_of(m.next_id);
    if p < k {
        assert(c.records[p] == m.records[p]);
    }
    assert(p == k);
    assert(c.records.remove(k) =~= m.records);
}

/// Identifiers come from one counter shared by all owners: two tasks created
/// one after the other, by the same owner or by two, receive the counter's
/// value and that value plus one.
pub proof fn lemma_counter_is_shared(
    m: TasksModel,
    owner1: Seq<char>,
    text1: Seq<char>,
    day1: Seq<char>,
    reminder1: bool,
    owner2: Seq<char>,
    text2: Seq<char>,
    day2: Seq<char>,
    reminder2: bool,
)
    requires
        m.next_id + 1 < usize::MAX,
    ensures
        ({
            let m1 = m.after_create(owner1, text1, day1, reminder1);
            let m2 = m1.after_create(owner2, text2, day2, reminder2);
            &&& m2.records[m.records.len() as int].1.id == m.next_id
            &&& m2.records[m.records.len() + 1int].1.id == m.next_id + 1
            &&& m2.next_id == m.next_id + 2
        }),
{
}

} // verus!
