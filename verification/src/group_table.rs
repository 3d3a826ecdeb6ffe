//! The directory of groups by name: at most one group for each name.

use crate::group::{Group, GroupView, GROUP_CAPACITY};
use std::sync::Arc;
use vstd::prelude::*;

verus! {

/// Whether no two groups of `table` have the same name.
pub open spec fn names_distinct(table: Seq<GroupView>) -> bool {
    forall|i: int, j: int|
        0 <= i < j < table.len() ==> (#[trigger] table[i]).name != (#[trigger] table[j]).name
}

/// Whether `table` has a group named `name`.
pub open spec fn has_group(table: Seq<GroupView>, name: Seq<char>) -> bool {
    exists|i: int| 0 <= i < table.len() && (#[trigger] table[i]).name == name
}

/// The place in `table` of the group named `name`, where there is one.
pub open spec fn place_of(table: Seq<GroupView>, name: Seq<char>) -> int {
    choose|i: int| 0 <= i < table.len() && (#[trigger] table[i]).name == name
}

/// The table once a group named `name` has been asked for: as it was if it
/// had one, and with a fresh group added at the end if it had none.
pub open spec fn with_group(table: Seq<GroupView>, name: Seq<char>) -> Seq<GroupView> {
    if has_group(table, name) {
        table
    } else {
        table.push(GroupView::fresh(name, GROUP_CAPACITY as nat))
    }
}

/// Where names are distinct, a group's place is told by its name.
pub proof fn lemma_place_of(table: Seq<GroupView>, name: Seq<char>, i: int)
    requires
        names_distinct(table),
        0 <= i < table.len(),
        table[i].name == name,
    ensures
        has_group(table, name),
        place_of(table, name) == i,
{
    let p = place_of(table, name);
    assert(0 <= p < table.len() && table[p].name == name);
    if p < i {
        assert(table[p].name != table[i].name);
    } else if i < p {
        assert(table[i].name != table[p].name);
    }
}

/// The groups that exist, in the order of their creation.
pub struct GroupTable {
    groups: Vec<Group>,
}

impl View for GroupTable {
    type V = Seq<GroupView>;

    closed spec fn view(&self) -> Seq<GroupView> {
        views(self.groups@)
    }
}

spec fn views(groups: Seq<Group>) -> Seq<GroupView> {
    Seq::new(groups.len(), |i: int| groups[i]@)
}

spec fn all_wf(groups: Seq<Group>) -> bool {
    forall|i: int| 0 <= i < groups.len() ==> (#[trigger] groups[i]).wf()
}

/// Putting a group in the place of one with the same name keeps the table in
/// order, and changes its view in that place only.
proof fn lemma_replace(groups: Seq<Group>, i: int, group: Group)
    requires
        all_wf(groups),
        names_distinct(views(groups)),
        0 <= i < groups.len(),
    ensures
        views(groups.update(i, group)) == views(groups).update(i, group@),
        group.wf() && group@.name == groups[i]@.name ==> all_wf(groups.update(i, group))
            && names_distinct(views(groups.update(i, group))),
{
    let after = groups.update(i, group);
    assert(views(after) =~= views(groups).update(i, group@));
    if group.wf() && group@.name == groups[i]@.name {
        assert forall|a: int, b: int| 0 <= a < b < after.len() implies (#[trigger] views(
            after,
        )[a]).name != (#[trigger] views(after)[b]).name by {
            assert(views(groups)[a].name != views(groups)[b].name);
        }
    }
}

impl GroupTable {
    /// The table is in order: no name occurs twice, and every group is in
    /// order.
    pub open spec fn wf(&self) -> bool {
        &&& names_distinct(self@)
        &&& self.groups_wf()
    }

    /// Every group of the table is in order.
    pub closed spec fn groups_wf(&self) -> bool {
        all_wf(self.groups@)
    }

    /// Creates an empty table.
    pub fn new() -> (table: GroupTable)
        ensures
            table.wf(),
            table@ == Seq::<GroupView>::empty(),
    {
        GroupTable { groups: Vec::new() }
    }

    /// How many groups there are.
    pub fn len(&self) -> (n: usize)
        ensures
            n == self@.len(),
    {
        self.groups.len()
    }

    fn find(&self, name: &String) -> (found: Option<usize>)
        requires
            self.wf(),
        ensures
            match found {
                Some(i) => i < self@.len() && self@[i as int].name == name@ && place_of(
                    self@,
                    name@,
                ) == i,
                None => !has_group(self@, name@),
            },
    {
        let mut i: usize = 0;
        while i < self.groups.len()
            invariant
                self.wf(),
                i <= self.groups@.len(),
                self@.len() == self.groups@.len(),
                forall|k: int| 0 <= k < i ==> (#[trigger] self@[k]).name != name@,
            decreases self.groups@.len() - i,
        {
            if self.groups[i].is_named(name) {
                proof {
                    lemma_place_of(self@, name@, i as int);
                }
                return Some(i);
            }
            i = i + 1;
        }
        None
    }

    /// Looks up the group named `name`. The table stays as it is.
    pub fn get(&self, name: &String) -> (found: Option<&Group>)
        requires
            self.wf(),
        ensures
            found is Some <==> has_group(self@, name@),
            found matches Some(group) ==> group.wf() && group@ == self@[place_of(self@, name@)]
                && group@.name == name@,
    {
        match self.find(name) {
            Some(i) => Some(&self.groups[i]),
            None => None,
        }
    }

    /// Looks up the group named `name` for posting or joining. Nothing but
    /// that group can change through the reference.
    pub fn get_mut(&mut self, name: &String) -> (found: Option<&mut Group>)
        requires
            old(self).wf(),
        ensures
            found is Some <==> has_group(old(self)@, name@),
            match found {
                Some(group) => {
                    let place = place_of(old(self)@, name@);
                    &&& group.wf()
                    &&& group@ == old(self)@[place]
                    &&& group@.name == name@
                    &&& final(self)@ == old(self)@.update(place, final(group)@)
                    &&& final(group).wf() && final(group)@.name == name@ ==> final(self).wf()
                },
                None => final(self).wf() && final(self)@ == old(self)@,
            },
    {
        match self.find(name) {
            Some(i) => {
                let ghost before = self.groups@;
                proof {
                    assert forall|g: Group|
                        views(#[trigger] before.update(i as int, g)) == views(before).update(
                            i as int,
                            g@,
                        ) && (g.wf() && g@.name == name@ ==> all_wf(before.update(i as int, g))
                            && names_distinct(views(before.update(i as int, g)))) by {
                        lemma_replace(before, i as int, g);
                    }
                }
                Some(&mut self.groups[i])
            },
            None => None,
        }
    }

    /// Returns the group named `name`, creating it first if there is none.
    /// Asking again for the same name gives the same group.
    pub fn get_or_create(&mut self, name: Arc<String>) -> (group: &mut Group)
        requires
            old(self).wf(),
        ensures
            ({
                let table = with_group(old(self)@, name@);
                let place = place_of(table, name@);
                &&& has_group(table, name@)
                &&& group.wf()
                &&& group@ == table[place]
                &&& group@.name == name@
                &&& final(self)@ == table.update(place, final(group)@)
                &&& final(group).wf() && final(group)@.name == name@ ==> final(self).wf()
            }),
    {
        let i = match self.find(&name) {
            Some(i) => i,
            None => {
                let i = self.groups.len();
                self.groups.push(Group::new(name));
                proof {
                    assert(self@ =~= old(self)@.push(GroupView::fresh(name@, GROUP_CAPACITY as nat)));
                    assert(names_distinct(self@));
                    lemma_place_of(self@, name@, i as int);
                }
                i
            },
        };
        let ghost before = self.groups@;
        proof {
            assert forall|g: Group|
                views(#[trigger] before.update(i as int, g)) == views(before).update(i as int, g@)
                    && (g.wf() && g@.name == name@ ==> all_wf(before.update(i as int, g))
                    && names_distinct(views(before.update(i as int, g)))) by {
                lemma_replace(before, i as int, g);
            }
        }
        &mut self.groups[i]
    }
}

/// Whether two tables have the same names in the same places.
pub open spec fn same_names(a: Seq<GroupView>, b: Seq<GroupView>) -> bool {
    &&& a.len() == b.len()
    &&& forall|i: int| 0 <= i < a.len() ==> (#[trigger] a[i]).name == (#[trigger] b[i]).name
}

/// The table after a group named `name` has been asked for `times` times.
pub open spec fn asked(table: Seq<GroupView>, name: Seq<char>, times: nat) -> Seq<GroupView>
    decreases times,
{
    if times == 0 {
        table
    } else {
        with_group(asked(table, name, (times - 1) as nat), name)
    }
}

/// Asking for a name creates a group only if there is none of that name, and
/// then exactly one: however often the name is asked for, the table holds one
/// group of that name, in the place where the first request found or put it.
pub proof fn law_one_group_per_name(table: Seq<GroupView>, name: Seq<char>, times: nat)
    requires
        names_distinct(table),
        times >= 1,
    ensures
        ({
            let once = with_group(table, name);
            &&& names_distinct(once)
            &&& has_group(once, name)
            &&& once.len() == table.len() + if has_group(table, name) {
                0int
            } else {
                1int
            }
            &&& asked(table, name, times) == once
        }),
    decreases times,
{
    let once = with_group(table, name);
    if has_group(table, name) {
    } else {
        assert forall|i: int, j: int| 0 <= i < j < once.len() implies (#[trigger] once[i]).name != (
        #[trigger] once[j]).name by {
            if j == table.len() {
                assert(table[i].name != name);
            } else {
                assert(table[i].name != table[j].name);
            }
        }
        assert(once[table.len() as int].name == name);
    }
    assert(has_group(once, name));
    if times > 1 {
        law_one_group_per_name(table, name, (times - 1) as nat);
        assert(asked(table, name, times) == with_group(once, name));
    } else {
        assert(asked(table, name, 0) == table);
    }
}

/// What callers do to the groups between two requests does not matter: as
/// long as the names stay, a name leads to the same place.
pub proof fn law_same_place_for_same_name(
    earlier: Seq<GroupView>,
    later: Seq<GroupView>,
    name: Seq<char>,
)
    requires
        names_distinct(earlier),
        same_names(earlier, later),
        has_group(earlier, name),
    ensures
        names_distinct(later),
        has_group(later, name),
        with_group(later, name) == later,
        place_of(later, name) == place_of(earlier, name),
{
    let place = place_of(earlier, name);
    assert(later[place].name == earlier[place].name);
    assert forall|i: int, j: int| 0 <= i < j < later.len() implies (#[trigger] later[i]).name != (
    #[trigger] later[j]).name by {
        assert(earlier[i].name != earlier[j].name);
    }
    lemma_place_of(later, name, place);
}

} // verus!
