use vstd::prelude::*;

use crate::strutil::str_eq;

verus! {

/// Which transport connects to targets.
pub enum Transport {
    Ssh,
}

/// The transport an inventory falls back to when its source names none.
pub fn default_transport() -> (r: Transport)
    ensures
        r is Ssh,
{
    Transport::Ssh
}

/// Per-target SSH settings: the user to authenticate as, with a
/// password or a private-key path as the credential.
pub struct SshConfig {
    pub user: String,
    pub password: Option<String>,
    pub privatekey_path: Option<String>,
}

/// Connection settings, at the inventory level or overridden per target.
pub struct Config {
    pub transport: Transport,
    pub ssh: Option<SshConfig>,
}

/// One addressable remote host.
pub struct Target {
    pub name: String,
    pub uri: String,
    pub config: Option<Config>,
}

/// A named, ordered collection of target names (references, not
/// ownership; resolution happens at run time).
pub struct Group {
    pub name: String,
    pub targets: Vec<String>,
}

/// The resolved inventory a run consumes, read-only.
pub struct Inventory {
    pub groups: Vec<Group>,
    pub targets: Vec<Target>,
    pub config: Config,
}

// ---------------------------------------------------------------------
// Name resolution.
// ---------------------------------------------------------------------

/// The first group index at or after `i` whose name matches.
pub open spec fn spec_find_group(groups: Seq<Group>, name: Seq<char>, i: int) -> Option<int>
    decreases groups.len() - i,
{
    if 0 <= i < groups.len() {
        if groups[i].name@ == name {
            Some(i)
        } else {
            spec_find_group(groups, name, i + 1)
        }
    } else {
        None
    }
}

/// The first target index at or after `i` whose name matches.
pub open spec fn spec_find_target(targets: Seq<Target>, name: Seq<char>, i: int) -> Option<int>
    decreases targets.len() - i,
{
    if 0 <= i < targets.len() {
        if targets[i].name@ == name {
            Some(i)
        } else {
            spec_find_target(targets, name, i + 1)
        }
    } else {
        None
    }
}

/// Where a target-or-group name dispatches.
pub enum RunSelection {
    SelectedGroup(usize),
    SelectedTarget(usize),
    NoMatch,
}

impl Inventory {
    /// Look a name up: groups first, then targets (the order matters
    /// when a group and a target share a name); no match at all is an
    /// operator error that the caller reports with status -1.
    pub fn select_runner(&self, name: &str) -> (r: RunSelection)
        ensures
            match r {
                RunSelection::SelectedGroup(g) => spec_find_group(self.groups@, name@, 0) == Some(
                    g as int,
                ) && g < self.groups@.len(),
                RunSelection::SelectedTarget(t) => spec_find_group(self.groups@, name@, 0) is None
                    && spec_find_target(self.targets@, name@, 0) == Some(t as int) && t
                    < self.targets@.len(),
                RunSelection::NoMatch => spec_find_group(self.groups@, name@, 0) is None
                    && spec_find_target(self.targets@, name@, 0) is None,
            },
    {
        let ng = self.groups.len();
        let mut i: usize = 0;
        while i < ng
            invariant
                ng == self.groups@.len(),
                i <= ng,
                spec_find_group(self.groups@, name@, 0) == spec_find_group(
                    self.groups@,
                    name@,
                    i as int,
                ),
            decreases ng - i,
        {
            if str_eq(self.groups[i].name.as_str(), name) {
                return RunSelection::SelectedGroup(i);
            }
            i = i + 1;
        }
        let nt = self.targets.len();
        let mut j: usize = 0;
        while j < nt
            invariant
                nt == self.targets@.len(),
                j <= nt,
                spec_find_group(self.groups@, name@, 0) is None,
                spec_find_target(self.targets@, name@, 0) == spec_find_target(
                    self.targets@,
                    name@,
                    j as int,
                ),
            decreases nt - j,
        {
            if str_eq(self.targets[j].name.as_str(), name) {
                return RunSelection::SelectedTarget(j);
            }
            j = j + 1;
        }
        RunSelection::NoMatch
    }
}

// ---------------------------------------------------------------------
// Group fan-out.
// ---------------------------------------------------------------------

/// The target indices at or after `i` whose name matches, in inventory
/// order.
pub open spec fn spec_matches_from(targets: Seq<Target>, name: Seq<char>, i: int) -> Seq<int>
    decreases targets.len() - i,
{
    if 0 <= i < targets.len() {
        let rest = spec_matches_from(targets, name, i + 1);
        if targets[i].name@ == name {
            seq![i] + rest
        } else {
            rest
        }
    } else {
        Seq::empty()
    }
}

/// The target indices a member list resolves to: for each name in
/// order, every matching target in inventory order.  A name that
/// matches nothing contributes nothing — it is skipped, not an error.
pub open spec fn spec_resolve_names(targets: Seq<Target>, names: Seq<String>) -> Seq<int>
    decreases names.len(),
{
    if names.len() == 0 {
        Seq::empty()
    } else {
        spec_resolve_names(targets, names.drop_last()) + spec_matches_from(
            targets,
            names.last()@,
            0,
        )
    }
}

impl Inventory {
    /// The targets a group fans out to, as indices into `targets`, in
    /// the order they will run.
    pub fn resolve_group(&self, group: &Group) -> (r: Vec<usize>)
        ensures
            r@.map_values(|u: usize| u as int) == spec_resolve_names(
                self.targets@,
                group.targets@,
            ),
            forall|k: int| 0 <= k < r@.len() ==> (#[trigger] r@[k]) < self.targets@.len(),
    {
        let nn = group.targets.len();
        let nt = self.targets.len();
        let mut out: Vec<usize> = Vec::new();
        let mut i: usize = 0;
        while i < nn
            invariant
                nn == group.targets@.len(),
                nt == self.targets@.len(),
                i <= nn,
                out@.map_values(|u: usize| u as int) =~= spec_resolve_names(
                    self.targets@,
                    group.targets@.subrange(0, i as int),
                ),
                forall|k: int| 0 <= k < out@.len() ==> (#[trigger] out@[k]) < nt,
            decreases nn - i,
        {
            let name = &group.targets[i];
            let mut j: usize = 0;
            while j < nt
                invariant
                    nn == group.targets@.len(),
                    nt == self.targets@.len(),
                    i < nn,
                    j <= nt,
                    name == group.targets@[i as int],
                    out@.map_values(|u: usize| u as int) + spec_matches_from(
                        self.targets@,
                        name@,
                        j as int,
                    ) =~= spec_resolve_names(self.targets@, group.targets@.subrange(0, i as int))
                        + spec_matches_from(self.targets@, name@, 0),
                    forall|k: int| 0 <= k < out@.len() ==> (#[trigger] out@[k]) < nt,
                decreases nt - j,
            {
                if str_eq(self.targets[j].name.as_str(), name.as_str()) {
                    let ghost before = out@;
                    out.push(j);
                    proof {
                        assert(out@.map_values(|u: usize| u as int) =~= before.map_values(
                            |u: usize| u as int,
                        ).push(j as int));
                        assert(seq![j as int] + spec_matches_from(self.targets@, name@, j + 1)
                            =~= spec_matches_from(self.targets@, name@, j as int));
                        assert(before.map_values(|u: usize| u as int).push(j as int)
                            + spec_matches_from(self.targets@, name@, j + 1)
                            =~= before.map_values(|u: usize| u as int) + spec_matches_from(
                            self.targets@,
                            name@,
                            j as int,
                        ));
                    }
                }
                j = j + 1;
            }
            proof {
                assert(spec_matches_from(self.targets@, name@, nt as int) =~= Seq::<int>::empty());
                assert(group.targets@.subrange(0, i as int + 1).drop_last() =~= group.targets@
                    .subrange(0, i as int));
                assert(group.targets@.subrange(0, i as int + 1).last() == group.targets@[
                    i as int]);
                assert(out@.map_values(|u: usize| u as int) =~= spec_resolve_names(
                    self.targets@,
                    group.targets@.subrange(0, i as int + 1),
                ));
            }
            i = i + 1;
        }
        proof {
            assert(group.targets@.subrange(0, nn as int) =~= group.targets@);
        }
        out
    }
}

/// A member name that resolves to no target leaves the fan-out exactly
/// as if the name were not listed at all.
pub proof fn lemma_group_skips_unresolvable(targets: Seq<Target>, names: Seq<String>, i: int)
    requires
        0 <= i < names.len(),
        forall|j: int| 0 <= j < targets.len() ==> targets[j].name@ != names[i]@,
    ensures
        spec_resolve_names(targets, names) =~= spec_resolve_names(targets, names.remove(i)),
    decreases names.len(),
{
    lemma_no_match_empty(targets, names[i]@, 0);
    if i == names.len() - 1 {
        assert(names.remove(i) =~= names.drop_last());
    } else {
        lemma_group_skips_unresolvable(targets, names.drop_last(), i);
        assert(names.remove(i).drop_last() =~= names.drop_last().remove(i));
        assert(names.remove(i).last() == names.last());
    }
}

proof fn lemma_no_match_empty(targets: Seq<Target>, name: Seq<char>, i: int)
    requires
        forall|j: int| 0 <= j < targets.len() ==> targets[j].name@ != name,
    ensures
        spec_matches_from(targets, name, i) =~= Seq::<int>::empty(),
    decreases targets.len() - i,
{
    if 0 <= i < targets.len() {
        lemma_no_match_empty(targets, name, i + 1);
    }
}

/// The status a group run reports: that of the last target processed,
/// or 1 when none ran at all ("last status wins", preserved as the
/// documented policy).
pub fn group_status(statuses: &Vec<i32>) -> (r: i32)
    ensures
        statuses@.len() == 0 ==> r == 1,
        statuses@.len() > 0 ==> r == statuses@.last(),
{
    if statuses.len() == 0 {
        1
    } else {
        statuses[statuses.len() - 1]
    }
}

} // verus!
