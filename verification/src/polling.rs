//! Per-group change classification between refreshes.
//!
//! A [`SnapshotChanges`] records, for every group name in a configured
//! universe, how that group's content identifier evolved between the
//! previous observation and the newest one. [`SnapshotChanges::distinct`]
//! is the classifier: a pure function of the previous changes, the newly
//! observed snapshot (or its absence) and the group universe. [`Poll`]
//! aggregates the classification of both calendar categories together with
//! the time of the next scheduled refresh.

use vstd::prelude::*;

use crate::model::{group_uid_in, Fetch, Snapshot, SnapshotView};
use crate::strutil::str_eq;

verus! {

/// How one group's content identifier evolved between two observations.
///
/// `Unobserved` is the only state that never saw an identifier at all;
/// every other variant implies at least one prior or current identifier.
#[derive(Debug)]
pub enum Change {
    /// The identifier changed, or (`Update(None)`) a previously recorded
    /// identifier disappeared.
    Update(Option<String>),
    /// An identifier appeared where none was recorded before.
    New(String),
    /// Nothing changed: the recorded identifier was observed again, or
    /// (`Same(None)`) the group remains unscheduled.
    Same(Option<String>),
    /// The group was never observed.
    Unobserved,
}

/// Mathematical value of a [`Change`].
pub enum ChangeView {
    Update(Option<Seq<char>>),
    New(Seq<char>),
    Same(Option<Seq<char>>),
    Unobserved,
}

/// Mathematical value of an optional string.
pub open spec fn opt_str_view(o: Option<String>) -> Option<Seq<char>> {
    match o {
        Some(s) => Some(s@),
        None => None,
    }
}

impl View for Change {
    type V = ChangeView;

    open spec fn view(&self) -> ChangeView {
        match self {
            Change::Update(u) => ChangeView::Update(opt_str_view(*u)),
            Change::New(u) => ChangeView::New(u@),
            Change::Same(u) => ChangeView::Same(opt_str_view(*u)),
            Change::Unobserved => ChangeView::Unobserved,
        }
    }
}

/// The content identifier a change records, if it records one.
pub open spec fn recorded_uid(c: ChangeView) -> Option<Seq<char>> {
    match c {
        ChangeView::Update(u) => u,
        ChangeView::New(u) => Some(u),
        ChangeView::Same(u) => u,
        ChangeView::Unobserved => None,
    }
}

impl Clone for Change {
    fn clone(&self) -> (r: Change)
        ensures
            r == *self,
    {
        match self {
            Change::Update(u) => Change::Update(u.clone()),
            Change::New(u) => Change::New(u.clone()),
            Change::Same(u) => Change::Same(u.clone()),
            Change::Unobserved => Change::Unobserved,
        }
    }
}

impl PartialEq for Change {
    fn eq(&self, other: &Change) -> (r: bool) {
        match (self, other) {
            (Change::Update(a), Change::Update(b)) => opt_string_eq(a, b),
            (Change::New(a), Change::New(b)) => str_eq(a.as_str(), b.as_str()),
            (Change::Same(a), Change::Same(b)) => opt_string_eq(a, b),
            (Change::Unobserved, Change::Unobserved) => true,
            _ => false,
        }
    }
}

impl vstd::std_specs::cmp::PartialEqSpecImpl for Change {
    open spec fn obeys_eq_spec() -> bool {
        true
    }

    open spec fn eq_spec(&self, other: &Change) -> bool {
        self@ == other@
    }
}

/// Whether two optional strings hold the same characters.
fn opt_string_eq(a: &Option<String>, b: &Option<String>) -> (r: bool)
    ensures
        r == (opt_str_view(*a) == opt_str_view(*b)),
{
    match (a, b) {
        (Some(x), Some(y)) => str_eq(x.as_str(), y.as_str()),
        (None, None) => true,
        _ => false,
    }
}

impl Change {
    /// The recorded content identifier, if this change records one.
    pub fn uid(&self) -> (r: Option<&str>)
        ensures
            match r {
                Some(u) => recorded_uid(self@) == Some(u@),
                None => recorded_uid(self@) is None,
            },
    {
        match self {
            Change::New(x) => Some(x.as_str()),
            Change::Update(Some(x)) => Some(x.as_str()),
            Change::Same(Some(x)) => Some(x.as_str()),
            Change::Update(None) => None,
            Change::Same(None) => None,
            Change::Unobserved => None,
        }
    }

    /// Whether this change reports no news for its group.
    pub fn is_same(&self) -> (r: bool)
        ensures
            r == (self@ matches ChangeView::Same(_)),
    {
        match self {
            Change::Same(_) => true,
            _ => false,
        }
    }

    /// Whether the recorded identifier is exactly `other`.
    pub fn is_same_with(&self, other: &str) -> (r: bool)
        ensures
            r == (recorded_uid(self@) == Some(other@)),
    {
        match self.uid() {
            Some(x) => str_eq(x, other),
            _ => false,
        }
    }

    /// Whether an identifier is recorded and differs from `other`.
    pub fn is_not_same_with(&self, other: &str) -> (r: bool)
        ensures
            r == (recorded_uid(self@) is Some && recorded_uid(self@) != Some(other@)),
    {
        match self.uid() {
            Some(x) => !str_eq(x, other),
            _ => false,
        }
    }

    /// Whether an identifier is recorded and differs from `other`.
    pub fn is_not_same(&self, other: &str) -> (r: bool)
        ensures
            r == (recorded_uid(self@) is Some && recorded_uid(self@) != Some(other@)),
    {
        self.is_not_same_with(other)
    }
}

/// Full per-group change map for one calendar category, plus the uid of the
/// snapshot it reflects.
#[derive(Debug)]
pub struct SnapshotChanges {
    /// Identity of the last observed snapshot, absent before the first
    /// observation.
    pub uid: Option<String>,
    /// One change per configured group name, in universe order.
    pub groups: Vec<(String, Change)>,
}

/// Mathematical value of a [`SnapshotChanges`].
#[verifier::ext_equal]
pub struct SnapshotChangesView {
    pub uid: Option<Seq<char>>,
    pub groups: Seq<(Seq<char>, ChangeView)>,
}

impl View for SnapshotChanges {
    type V = SnapshotChangesView;

    open spec fn view(&self) -> SnapshotChangesView {
        SnapshotChangesView {
            uid: opt_str_view(self.uid),
            groups: Seq::new(
                self.groups@.len(),
                |i: int| (self.groups@[i].0@, self.groups@[i].1@),
            ),
        }
    }
}

/// The change recorded for a group name: the first entry carrying that name,
/// or `Unobserved` where the name was never entered.
pub open spec fn lookup_change(groups: Seq<(Seq<char>, ChangeView)>, name: Seq<char>) -> ChangeView
    decreases groups.len(),
{
    if groups.len() == 0 {
        ChangeView::Unobserved
    } else if groups[0].0 == name {
        groups[0].1
    } else {
        lookup_change(groups.drop_first(), name)
    }
}

/// The identifier an observation assigns to a group name; absent when the
/// snapshot itself is absent or does not schedule the group.
pub open spec fn observed_uid(obs: Option<SnapshotView>, name: Seq<char>) -> Option<Seq<char>> {
    match obs {
        Some(s) => group_uid_in(s.groups, name),
        None => None,
    }
}

/// Resolution of one group: how the previously recorded state and the newly
/// observed identifier combine.
///
/// An observed identifier equal to the recorded one collapses to `Same`;
/// a differing one is an `Update` where something was recorded before and
/// `New` where nothing was; a vanished identifier is itself reported as
/// `Update(None)`, and a group that stays unscheduled stays `Same(None)`.
pub open spec fn step_change(prev: ChangeView, observed: Option<Seq<char>>) -> ChangeView {
    match observed {
        Some(u) => match recorded_uid(prev) {
            Some(p) => if p == u {
                ChangeView::Same(Some(u))
            } else {
                ChangeView::Update(Some(u))
            },
            None => ChangeView::New(u),
        },
        None => match recorded_uid(prev) {
            Some(_) => ChangeView::Update(None),
            None => ChangeView::Same(None),
        },
    }
}

/// The views of the configured group names, in order.
pub open spec fn names_of(universe: Seq<String>) -> Seq<Seq<char>> {
    universe.map_values(|s: String| s@)
}

/// The change map the classifier produces: one entry per universe name, each
/// resolved by [`step_change`].
pub open spec fn classified_groups(
    prev: SnapshotChangesView,
    obs: Option<SnapshotView>,
    names: Seq<Seq<char>>,
) -> Seq<(Seq<char>, ChangeView)> {
    Seq::new(
        names.len(),
        |i: int| (
            names[i],
            step_change(lookup_change(prev.groups, names[i]), observed_uid(obs, names[i])),
        ),
    )
}

/// The full classification: the change map over the universe, and the uid of
/// the observed snapshot where one was observed, else the previous uid.
pub open spec fn classify_spec(
    prev: SnapshotChangesView,
    obs: Option<SnapshotView>,
    names: Seq<Seq<char>>,
) -> SnapshotChangesView {
    SnapshotChangesView {
        uid: match obs {
            Some(s) => Some(s.uid),
            None => prev.uid,
        },
        groups: classified_groups(prev, obs, names),
    }
}

/// The change map that records nothing: every universe name mapped to
/// `Unobserved`, no snapshot uid.
pub open spec fn initial_changes_spec(names: Seq<Seq<char>>) -> SnapshotChangesView {
    SnapshotChangesView {
        uid: None,
        groups: Seq::new(names.len(), |i: int| (names[i], ChangeView::Unobserved)),
    }
}

/// Mathematical value of an optionally observed snapshot.
pub open spec fn opt_snap_view(s: Option<&Snapshot>) -> Option<SnapshotView> {
    match s {
        Some(x) => Some(x@),
        None => None,
    }
}

impl SnapshotChanges {
    /// The change map for a universe none of whose groups was ever observed.
    pub fn initial(universe: &Vec<String>) -> (r: SnapshotChanges)
        ensures
            r@ == initial_changes_spec(names_of(universe@)),
    {
        let mut groups: Vec<(String, Change)> = Vec::new();
        let mut i: usize = 0;
        while i < universe.len()
            invariant
                i <= universe@.len(),
                groups@.len() == i,
                forall|j: int| 0 <= j < i ==> #[trigger] groups@[j] == (universe@[j], Change::Unobserved),
            decreases universe@.len() - i,
        {
            groups.push((universe[i].clone(), Change::Unobserved));
            i += 1;
        }
        let r = SnapshotChanges { uid: None, groups };
        proof {
            assert(r@.groups =~= initial_changes_spec(names_of(universe@)).groups);
            assert(r@ =~= initial_changes_spec(names_of(universe@)));
        }
        r
    }

    /// The change recorded for the named group; `Change::Unobserved` where the
    /// name was never entered.
    pub fn change_for(&self, name: &str) -> (r: Change)
        ensures
            r@ == lookup_change(self@.groups, name@),
    {
        proof {
            assert(self@.groups.skip(0) =~= self@.groups);
        }
        let mut i: usize = 0;
        while i < self.groups.len()
            invariant
                i <= self.groups@.len(),
                lookup_change(self@.groups, name@) == lookup_change(
                    self@.groups.skip(i as int),
                    name@,
                ),
            decreases self.groups@.len() - i,
        {
            proof {
                assert(self@.groups.skip(i as int).drop_first() =~= self@.groups.skip(
                    i as int + 1,
                ));
            }
            if str_eq(self.groups[i].0.as_str(), name) {
                return self.groups[i].1.clone();
            }
            i += 1;
        }
        Change::Unobserved
    }

    /// Classify what changed: for every universe name, resolve the
    /// previously recorded change against the newly observed snapshot.
    ///
    /// A pure function of its three arguments; the result's uid is the
    /// observed snapshot's where one was observed, else the previous uid.
    pub fn distinct(&self, universe: &Vec<String>, snapshot: Option<&Snapshot>) -> (r:
        SnapshotChanges)
        ensures
            r@ == classify_spec(self@, opt_snap_view(snapshot), names_of(universe@)),
    {
        let ghost obs = opt_snap_view(snapshot);
        let ghost names = names_of(universe@);
        let mut groups: Vec<(String, Change)> = Vec::new();
        let mut i: usize = 0;
        while i < universe.len()
            invariant
                i <= universe@.len(),
                groups@.len() == i,
                obs == opt_snap_view(snapshot),
                names == names_of(universe@),
                forall|j: int| 0 <= j < i ==> (#[trigger] groups@[j].0@, groups@[j].1@)
                    == classified_groups(self@, obs, names)[j],
            decreases universe@.len() - i,
        {
            let name = &universe[i];
            let prev = self.change_for(name.as_str());
            let observed: Option<String> = match snapshot {
                Some(s) => s.uid_for(name.as_str()),
                None => None,
            };
            let next = step(&prev, observed.as_ref());
            groups.push((name.clone(), next));
            i += 1;
        }
        let uid: Option<String> = match snapshot {
            Some(s) => Some(s.uid.clone()),
            None => match &self.uid {
                Some(u) => Some(u.clone()),
                None => None,
            },
        };
        let r = SnapshotChanges { uid, groups };
        proof {
            assert(r@.groups =~= classified_groups(self@, obs, names));
            assert(r@ =~= classify_spec(self@, obs, names));
        }
        r
    }
}

impl Clone for SnapshotChanges {
    fn clone(&self) -> (r: SnapshotChanges)
        ensures
            r@ == self@,
    {
        let uid: Option<String> = match &self.uid {
            Some(u) => Some(u.clone()),
            None => None,
        };
        let mut groups: Vec<(String, Change)> = Vec::new();
        let mut i: usize = 0;
        while i < self.groups.len()
            invariant
                i <= self.groups@.len(),
                groups@ =~= self.groups@.take(i as int),
            decreases self.groups@.len() - i,
        {
            groups.push((self.groups[i].0.clone(), self.groups[i].1.clone()));
            i += 1;
        }
        proof {
            assert(groups@ =~= self.groups@);
        }
        let r = SnapshotChanges { uid, groups };
        proof {
            assert(r@ =~= self@);
        }
        r
    }
}

/// Resolve one group, executably: the verified counterpart of
/// [`step_change`].
fn step(prev: &Change, observed: Option<&String>) -> (r: Change)
    ensures
        r@ == step_change(
            prev@,
            match observed {
                Some(u) => Some(u@),
                None => None,
            },
        ),
{
    match observed {
        Some(u) => match prev.uid() {
            Some(p) => if str_eq(p, u.as_str()) {
                Change::Same(Some(u.clone()))
            } else {
                Change::Update(Some(u.clone()))
            },
            None => Change::New(u.clone()),
        },
        None => match prev.uid() {
            Some(_) => Change::Update(None),
            None => Change::Same(None),
        },
    }
}

/// Client-facing aggregate: the change classification of both calendar
/// categories, plus the time of the next scheduled refresh.
#[derive(Debug)]
pub struct Poll {
    /// Changes of the current day's snapshot.
    pub today: SnapshotChanges,
    /// Changes of the next day's snapshot.
    pub next: SnapshotChanges,
    /// Unix timestamp in seconds of the next scheduled refresh.
    pub next_update: u64,
}

/// Mathematical value of a [`Poll`].
#[verifier::ext_equal]
pub struct PollView {
    pub today: SnapshotChangesView,
    pub next: SnapshotChangesView,
    pub next_update: int,
}

impl View for Poll {
    type V = PollView;

    open spec fn view(&self) -> PollView {
        PollView { today: self.today@, next: self.next@, next_update: self.next_update as int }
    }
}

/// The poll state holding no observations: both categories initial, no
/// refresh scheduled.
pub open spec fn poll_initial_spec(names: Seq<Seq<char>>) -> PollView {
    PollView {
        today: initial_changes_spec(names),
        next: initial_changes_spec(names),
        next_update: 0,
    }
}

/// One category refresh applied to a poll state: the selected category is
/// reclassified against the observation, the other kept, and the next
/// refresh time recorded.
pub open spec fn poll_update_spec(
    prev: PollView,
    obs: Option<SnapshotView>,
    fetch: Fetch,
    names: Seq<Seq<char>>,
    next_update: int,
) -> PollView {
    match fetch {
        Fetch::Today => PollView {
            today: classify_spec(prev.today, obs, names),
            next: prev.next,
            next_update,
        },
        Fetch::Next => PollView {
            today: prev.today,
            next: classify_spec(prev.next, obs, names),
            next_update,
        },
    }
}

impl Poll {
    /// The poll state before any observation.
    pub fn initial(universe: &Vec<String>) -> (r: Poll)
        ensures
            r@ == poll_initial_spec(names_of(universe@)),
    {
        let r = Poll {
            today: SnapshotChanges::initial(universe),
            next: SnapshotChanges::initial(universe),
            next_update: 0,
        };
        proof {
            assert(r@ =~= poll_initial_spec(names_of(universe@)));
        }
        r
    }

    /// Fold one observation for one category into the poll state and record
    /// the next refresh time.
    pub fn update(
        &mut self,
        universe: &Vec<String>,
        snapshot: Option<&Snapshot>,
        fetch: Fetch,
        next_update: u64,
    )
        ensures
            final(self)@ == poll_update_spec(
                old(self)@,
                opt_snap_view(snapshot),
                fetch,
                names_of(universe@),
                next_update as int,
            ),
    {
        self.next_update = next_update;
        match fetch {
            Fetch::Today => {
                let changed = self.today.distinct(universe, snapshot);
                self.today = changed;
            },
            Fetch::Next => {
                let changed = self.next.distinct(universe, snapshot);
                self.next = changed;
            },
        }
        proof {
            assert(self@ =~= poll_update_spec(
                old(self)@,
                opt_snap_view(snapshot),
                fetch,
                names_of(universe@),
                next_update as int,
            ));
        }
    }

    /// Drop every recorded observation: both categories return to the
    /// initial change map, as at a day boundary.
    pub fn reset(&mut self, universe: &Vec<String>)
        ensures
            final(self)@ == poll_initial_spec(names_of(universe@)),
    {
        self.today = SnapshotChanges::initial(universe);
        self.next = SnapshotChanges::initial(universe);
        self.next_update = 0;
        proof {
            assert(self@ =~= poll_initial_spec(names_of(universe@)));
        }
    }
}

/// Looking a universe name up in a freshly classified change map yields
/// exactly the resolution of that name against the previous state and the
/// observation.
pub proof fn lemma_lookup_classified(
    prev: SnapshotChangesView,
    obs: Option<SnapshotView>,
    names: Seq<Seq<char>>,
    name: Seq<char>,
)
    requires
        names.contains(name),
    ensures
        lookup_change(classified_groups(prev, obs, names), name) == step_change(
            lookup_change(prev.groups, name),
            observed_uid(obs, name),
        ),
    decreases names.len(),
{
    let cg = classified_groups(prev, obs, names);
    if names[0] == name {
        assert(cg[0].0 == name);
    } else {
        let rest = names.drop_first();
        assert(cg.drop_first() =~= classified_groups(prev, obs, rest));
        let j = choose|j: int| 0 <= j < names.len() && names[j] == name;
        assert(rest[j - 1] == name);
        assert(rest.contains(name));
        lemma_lookup_classified(prev, obs, rest, name);
    }
}

/// After a reset, every configured group name is mapped to `Unobserved`:
/// the initial change map records nothing for any name of the universe.
pub proof fn lemma_initial_all_unobserved(names: Seq<Seq<char>>, name: Seq<char>)
    requires
        names.contains(name),
    ensures
        lookup_change(initial_changes_spec(names).groups, name) == ChangeView::Unobserved,
    decreases names.len(),
{
    let g = initial_changes_spec(names).groups;
    if names[0] == name {
        assert(g[0].0 == name);
    } else {
        let rest = names.drop_first();
        assert(g.drop_first() =~= initial_changes_spec(rest).groups);
        let j = choose|j: int| 0 <= j < names.len() && names[j] == name;
        assert(rest[j - 1] == name);
        assert(rest.contains(name));
        lemma_initial_all_unobserved(rest, name);
    }
}

/// The classifier is deterministic: for a fixed previous state, a fixed
/// observation and a fixed universe, it yields one answer; nothing besides
/// its three inputs enters the classification.
pub proof fn lemma_classify_deterministic(
    prev1: SnapshotChangesView,
    prev2: SnapshotChangesView,
    obs1: Option<SnapshotView>,
    obs2: Option<SnapshotView>,
    names1: Seq<Seq<char>>,
    names2: Seq<Seq<char>>,
)
    requires
        prev1 == prev2,
        obs1 == obs2,
        names1 == names2,
    ensures
        classify_spec(prev1, obs1, names1) == classify_spec(prev2, obs2, names2),
{
}

/// Re-observing the recorded identifier collapses to `Same(uid)` — and the
/// result again records that identifier, so however many further cycles
/// repeat it, each keeps reporting `Same(uid)`.
pub proof fn lemma_same_collapse(
    prev: SnapshotChangesView,
    obs: Option<SnapshotView>,
    names: Seq<Seq<char>>,
    name: Seq<char>,
    u: Seq<char>,
)
    requires
        names.contains(name),
        recorded_uid(lookup_change(prev.groups, name)) == Some(u),
        observed_uid(obs, name) == Some(u),
    ensures
        lookup_change(classify_spec(prev, obs, names).groups, name) == ChangeView::Same(Some(u)),
        recorded_uid(lookup_change(classify_spec(prev, obs, names).groups, name)) == Some(u),
{
    lemma_lookup_classified(prev, obs, names, name);
}

/// Loss detection: where the previous state records an identifier and the
/// observation lacks the group, the result is `Update(None)` — the loss of
/// a prior schedule is itself a reportable change.
pub proof fn lemma_loss_detection(
    prev: SnapshotChangesView,
    obs: Option<SnapshotView>,
    names: Seq<Seq<char>>,
    name: Seq<char>,
)
    requires
        names.contains(name),
        recorded_uid(lookup_change(prev.groups, name)) is Some,
        observed_uid(obs, name) is None,
    ensures
        lookup_change(classify_spec(prev, obs, names).groups, name) == ChangeView::Update(None),
{
    lemma_lookup_classified(prev, obs, names, name);
}

/// New before update: a group's first observed identifier classifies as
/// `New`; a later, different identifier classifies as `Update`, never as
/// `New` again.
pub proof fn lemma_new_before_update(
    prev: SnapshotChangesView,
    obs1: Option<SnapshotView>,
    obs2: Option<SnapshotView>,
    names: Seq<Seq<char>>,
    name: Seq<char>,
    x: Seq<char>,
    y: Seq<char>,
)
    requires
        names.contains(name),
        lookup_change(prev.groups, name) == ChangeView::Unobserved,
        observed_uid(obs1, name) == Some(x),
        observed_uid(obs2, name) == Some(y),
        x != y,
    ensures
        lookup_change(classify_spec(prev, obs1, names).groups, name) == ChangeView::New(x),
        lookup_change(
            classify_spec(classify_spec(prev, obs1, names), obs2, names).groups,
            name,
        ) == ChangeView::Update(Some(y)),
{
    lemma_lookup_classified(prev, obs1, names, name);
    lemma_lookup_classified(classify_spec(prev, obs1, names), obs2, names, name);
}

impl Clone for Poll {
    fn clone(&self) -> (r: Poll)
        ensures
            r@ == self@,
    {
        let r = Poll {
            today: self.today.clone(),
            next: self.next.clone(),
            next_update: self.next_update,
        };
        proof {
            assert(r@ =~= self@);
        }
        r
    }
}

} // verus!
