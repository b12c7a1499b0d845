//! Value types for schedule snapshots.
//!
//! A [`Snapshot`] is one dated, immutable schedule document; each of its
//! [`Group`]s names a sub-entry and carries the content identifier assigned
//! to that group. A [`Fetch`] selects which calendar relation a lookup or a
//! refresh targets: the snapshot for the current day, or one for a later day.

use vstd::prelude::*;

verus! {

/// Calendar-relative selector for cache lookups and refreshes.
#[derive(Clone, Copy, Debug, PartialEq, Eq, Structural)]
pub enum Fetch {
    /// The snapshot whose date is the current day.
    Today,
    /// A snapshot whose date lies after the current day.
    Next,
}

impl Fetch {
    /// Parse the selector of a client request: `today` targets the current
    /// day, `tomorrow` or `next` a later one, anything else is rejected.
    pub fn from_param(param: &str) -> (r: Option<Fetch>)
        ensures
            match r {
                Some(Fetch::Today) => param@ == "today"@,
                Some(Fetch::Next) => param@ == "tomorrow"@ || param@ == "next"@,
                None => param@ != "today"@ && param@ != "tomorrow"@ && param@ != "next"@,
            },
    {
        if crate::strutil::str_eq(param, "today") {
            Some(Fetch::Today)
        } else if crate::strutil::str_eq(param, "tomorrow") || crate::strutil::str_eq(
            param,
            "next",
        ) {
            Some(Fetch::Next)
        } else {
            None
        }
    }
}

/// One named sub-entry of a snapshot with its content identifier.
#[derive(Debug)]
pub struct Group {
    /// Name of the group, a member of the configured group universe.
    pub name: String,
    /// Identifier of the content assigned to this group.
    pub uid: String,
}

/// Mathematical value of a [`Group`].
#[verifier::ext_equal]
pub struct GroupView {
    pub name: Seq<char>,
    pub uid: Seq<char>,
}

impl View for Group {
    type V = GroupView;

    open spec fn view(&self) -> GroupView {
        GroupView { name: self.name@, uid: self.uid@ }
    }
}

impl Clone for Group {
    fn clone(&self) -> (r: Group)
        ensures
            r == *self,
    {
        Group { name: self.name.clone(), uid: self.uid.clone() }
    }
}

/// One dated, immutable schedule document.
#[derive(Debug)]
pub struct Snapshot {
    /// Identity of the document.
    pub uid: String,
    /// Day number (days since the Unix epoch, in the schedule's time zone)
    /// the schedule applies to.
    pub date: u64,
    /// Unix timestamp in seconds at which the producer generated it.
    pub parsed_at: u64,
    /// Sub-entries, one per scheduled group.
    pub groups: Vec<Group>,
}

/// Mathematical value of a [`Snapshot`].
#[verifier::ext_equal]
pub struct SnapshotView {
    pub uid: Seq<char>,
    pub date: int,
    pub parsed_at: int,
    pub groups: Seq<GroupView>,
}

impl View for Snapshot {
    type V = SnapshotView;

    open spec fn view(&self) -> SnapshotView {
        SnapshotView {
            uid: self.uid@,
            date: self.date as int,
            parsed_at: self.parsed_at as int,
            groups: Seq::new(self.groups@.len(), |i: int| self.groups@[i]@),
        }
    }
}

impl Clone for Snapshot {
    fn clone(&self) -> (r: Snapshot)
        ensures
            r@ == self@,
    {
        let mut groups: Vec<Group> = Vec::new();
        let mut i: usize = 0;
        while i < self.groups.len()
            invariant
                i <= self.groups@.len(),
                groups@ =~= self.groups@.take(i as int),
            decreases self.groups@.len() - i,
        {
            groups.push(self.groups[i].clone());
            i += 1;
        }
        proof {
            assert(groups@ =~= self.groups@);
        }
        let r = Snapshot {
            uid: self.uid.clone(),
            date: self.date,
            parsed_at: self.parsed_at,
            groups,
        };
        proof {
            assert(r@ =~= self@);
        }
        r
    }
}

/// The identifier a snapshot assigns to the group of the given name:
/// the uid of the first group entry carrying that name, if any.
pub open spec fn group_uid_in(groups: Seq<GroupView>, name: Seq<char>) -> Option<Seq<char>>
    decreases groups.len(),
{
    if groups.len() == 0 {
        None
    } else if groups[0].name == name {
        Some(groups[0].uid)
    } else {
        group_uid_in(groups.drop_first(), name)
    }
}

impl SnapshotView {
    /// Whether this snapshot's date satisfies the given selector relative to
    /// the given current day.
    pub open spec fn date_matches_spec(self, mode: Fetch, today: int) -> bool {
        match mode {
            Fetch::Today => self.date == today,
            Fetch::Next => self.date > today,
        }
    }
}

impl Snapshot {
    /// Identifier assigned to the named group, if the group is scheduled.
    pub fn uid_for(&self, name: &str) -> (r: Option<String>)
        ensures
            match r {
                Some(u) => group_uid_in(self@.groups, name@) == Some(u@),
                None => group_uid_in(self@.groups, name@) is None,
            },
    {
        proof {
            assert(self@.groups.skip(0) =~= self@.groups);
        }
        let mut i: usize = 0;
        while i < self.groups.len()
            invariant
                i <= self.groups@.len(),
                group_uid_in(self@.groups, name@) == group_uid_in(
                    self@.groups.skip(i as int),
                    name@,
                ),
            decreases self.groups@.len() - i,
        {
            proof {
                assert(self@.groups.skip(i as int).drop_first() =~= self@.groups.skip(
                    i as int + 1,
                ));
            }
            if crate::strutil::str_eq(self.groups[i].name.as_str(), name) {
                return Some(self.groups[i].uid.clone());
            }
            i += 1;
        }
        None
    }

    /// Whether this snapshot's date satisfies the selector for the given day.
    pub fn date_matches(&self, mode: Fetch, today: u64) -> (r: bool)
        ensures
            r == self@.date_matches_spec(mode, today as int),
    {
        match mode {
            Fetch::Today => self.date == today,
            Fetch::Next => self.date > today,
        }
    }
}

} // verus!
