//! Mount/rider links: a bipartite relation between an NPC acting as mount
//! and its riders, one of whom may steer. Links are kept in a stable-id
//! store with two secondary indexes (mount to riders, rider to link), and
//! every mutation goes through one validated, all-or-nothing entry point.
//!
//! Invariants: a rider has at most one active link; a mount has at most one
//! steerer; an actor cannot mount itself; a mount that is itself riding
//! cannot be mounted (no chains).

use vstd::prelude::*;

use crate::npc::Actor;

verus! {

/// The stable id of one mount link.
#[derive(Clone, Copy, Debug, PartialEq, Eq, Structural, Hash)]
pub struct MountId(pub u64);

/// One link record: who rides which mount, and whether they steer.
#[derive(Clone, Copy, Debug, PartialEq, Eq, Structural)]
pub struct NpcLink {
    pub mount: u64,
    pub rider: Actor,
    pub is_steering: bool,
}

/// The riders of one mount: at most one steerer, any number of passengers.
#[derive(Debug, PartialEq)]
pub struct Riders {
    pub steerer: Option<u64>,
    pub riders: Vec<u64>,
}

/// The closed set of reasons a mount attempt is rejected.
#[derive(Clone, Copy, Debug, PartialEq, Eq, Structural)]
pub enum MountingError {
    MountDead,
    RiderDead,
    HasSteerer,
    AlreadyRiding,
    MountIsRiding,
    RiderIsMounted,
    MountSelf,
}

pub open spec fn link_lookup(s: Seq<(u64, NpcLink)>, id: u64) -> Option<NpcLink>
    decreases s.len(),
{
    if s.len() == 0 {
        None
    } else if s[0].0 == id {
        Some(s[0].1)
    } else {
        link_lookup(s.skip(1), id)
    }
}

pub open spec fn rider_lookup(s: Seq<(Actor, u64)>, a: Actor) -> Option<u64>
    decreases s.len(),
{
    if s.len() == 0 {
        None
    } else if s[0].0 == a {
        Some(s[0].1)
    } else {
        rider_lookup(s.skip(1), a)
    }
}

/// Whether a mount has an entry, and what its steerer is.
pub open spec fn mount_has_entry(s: Seq<(u64, Riders)>, m: u64) -> bool
    decreases s.len(),
{
    if s.len() == 0 {
        false
    } else if s[0].0 == m {
        true
    } else {
        mount_has_entry(s.skip(1), m)
    }
}

pub open spec fn steerer_lookup(s: Seq<(u64, Riders)>, m: u64) -> Option<u64>
    decreases s.len(),
{
    if s.len() == 0 {
        None
    } else if s[0].0 == m {
        s[0].1.steerer
    } else {
        steerer_lookup(s.skip(1), m)
    }
}

/// The validated mount/rider link store.
#[derive(Debug)]
pub struct NpcLinks {
    pub next_id: u64,
    pub links: Vec<(u64, NpcLink)>,
    pub mount_map: Vec<(u64, Riders)>,
    pub rider_map: Vec<(Actor, u64)>,
}

impl NpcLinks {
    /// The representation invariant: keys are unique in all three structures;
    /// every rider-index entry names a stored link that carries that rider (so
    /// a rider has at most one link); every steerer named by the mount index
    /// is a stored steering link of that mount (so a mount has at most one
    /// steerer); and no mounted NPC is itself riding (no chains).
    pub open spec fn wf(&self) -> bool {
        (forall|i: int, j: int|
            0 <= i < j < self.links@.len() ==> (#[trigger] self.links@[i]).0 != (
            #[trigger] self.links@[j]).0) && (forall|i: int|
            0 <= i < self.links@.len() ==> (#[trigger] self.links@[i]).0 < self.next_id) && (
        forall|i: int, j: int|
            0 <= i < j < self.mount_map@.len() ==> (#[trigger] self.mount_map@[i]).0 != (
            #[trigger] self.mount_map@[j]).0) && (forall|i: int, j: int|
            0 <= i < j < self.rider_map@.len() ==> (#[trigger] self.rider_map@[i]).0 != (
            #[trigger] self.rider_map@[j]).0) && (forall|i: int|
            0 <= i < self.rider_map@.len() ==> (match link_lookup(
                self.links@,
                (#[trigger] self.rider_map@[i]).1,
            ) {
                Some(l) => l.rider == self.rider_map@[i].0,
                None => false,
            })) && (forall|i: int|
            0 <= i < self.mount_map@.len() ==> (match (#[trigger] self.mount_map@[i]).1.steerer {
                Some(sid) => (match link_lookup(self.links@, sid) {
                    Some(l) => l.mount == self.mount_map@[i].0 && l.is_steering,
                    None => false,
                }),
                None => true,
            })) && (forall|i: int, j: int|
            0 <= i < self.mount_map@.len() && 0 <= j < (
            #[trigger] self.mount_map@[i]).1.riders@.len() ==> (match link_lookup(
                self.links@,
                #[trigger] self.mount_map@[i].1.riders@[j],
            ) {
                Some(l) => l.mount == self.mount_map@[i].0 && !l.is_steering,
                None => false,
            })) && (forall|i: int|
            0 <= i < self.mount_map@.len() ==> rider_lookup(
                self.rider_map@,
                Actor::Npc((#[trigger] self.mount_map@[i]).0),
            ) is None)
    }

    pub open spec fn link_of(&self, id: u64) -> Option<NpcLink> {
        link_lookup(self.links@, id)
    }

    pub open spec fn rider_link_of(&self, rider: Actor) -> Option<u64> {
        rider_lookup(self.rider_map@, rider)
    }

    pub open spec fn steerer_of(&self, mount: u64) -> Option<u64> {
        steerer_lookup(self.mount_map@, mount)
    }

    pub open spec fn has_mount_entry(&self, mount: u64) -> bool {
        mount_has_entry(self.mount_map@, mount)
    }

    pub fn new() -> (r: NpcLinks)
        ensures
            r.wf(),
            r.links@.len() == 0,
            r.mount_map@.len() == 0,
            r.rider_map@.len() == 0,
    {
        NpcLinks { next_id: 0, links: Vec::new(), mount_map: Vec::new(), rider_map: Vec::new() }
    }

    fn link_index(&self, id: u64) -> (r: Option<usize>)
        ensures
            match r {
                Some(i) => i < self.links@.len() && self.links@[i as int].0 == id,
                None => forall|j: int|
                    0 <= j < self.links@.len() ==> (#[trigger] self.links@[j]).0 != id,
            },
    {
        let mut i: usize = 0;
        while i < self.links.len()
            invariant
                i <= self.links@.len(),
                forall|j: int| 0 <= j < i ==> (#[trigger] self.links@[j]).0 != id,
            decreases self.links@.len() - i,
        {
            if self.links[i].0 == id {
                return Some(i);
            }
            i += 1;
        }
        None
    }

    fn rider_index(&self, a: Actor) -> (r: Option<usize>)
        ensures
            match r {
                Some(i) => i < self.rider_map@.len() && self.rider_map@[i as int].0 == a,
                None => forall|j: int|
                    0 <= j < self.rider_map@.len() ==> (#[trigger] self.rider_map@[j]).0 != a,
            },
    {
        let mut i: usize = 0;
        while i < self.rider_map.len()
            invariant
                i <= self.rider_map@.len(),
                forall|j: int| 0 <= j < i ==> (#[trigger] self.rider_map@[j]).0 != a,
            decreases self.rider_map@.len() - i,
        {
            if self.rider_map[i].0 == a {
                return Some(i);
            }
            i += 1;
        }
        None
    }

    fn mount_index(&self, m: u64) -> (r: Option<usize>)
        ensures
            match r {
                Some(i) => i < self.mount_map@.len() && self.mount_map@[i as int].0 == m,
                None => forall|j: int|
                    0 <= j < self.mount_map@.len() ==> (#[trigger] self.mount_map@[j]).0 != m,
            },
    {
        let mut i: usize = 0;
        while i < self.mount_map.len()
            invariant
                i <= self.mount_map@.len(),
                forall|j: int| 0 <= j < i ==> (#[trigger] self.mount_map@[j]).0 != m,
            decreases self.mount_map@.len() - i,
        {
            if self.mount_map[i].0 == m {
                return Some(i);
            }
            i += 1;
        }
        None
    }

    /// The link a rider currently holds, if any; a found link names exactly
    /// that rider.
    pub fn get_mount_link(&self, rider: Actor) -> (r: Option<NpcLink>)
        requires
            self.wf(),
        ensures
            r == (match self.rider_link_of(rider) {
                Some(id) => self.link_of(id),
                None => None::<NpcLink>,
            }),
            (r matches Some(l) ==> l.rider == rider),
            (r is None <==> self.rider_link_of(rider) is None),
    {
        match self.rider_index(rider) {
            Some(i) => {
                proof {
                    lemma_rider_lookup_at(self.rider_map@, rider, i as int);
                }
                let id: u64 = self.rider_map[i].1;
                match self.link_index(id) {
                    Some(j) => {
                        proof {
                            lemma_link_lookup_at(self.links@, id, j as int);
                        }
                        Some(self.links[j].1)
                    },
                    None => {
                        proof {
                            lemma_link_lookup_none(self.links@, id);
                        }
                        None
                    },
                }
            },
            None => {
                proof {
                    lemma_rider_lookup_none(self.rider_map@, rider);
                }
                None
            },
        }
    }

    /// The steering link of a mount, if it has one; a found link is a
    /// steering link of exactly that mount.
    pub fn get_steerer_link(&self, mount: u64) -> (r: Option<NpcLink>)
        requires
            self.wf(),
        ensures
            r == (match self.steerer_of(mount) {
                Some(id) => self.link_of(id),
                None => None::<NpcLink>,
            }),
            (r matches Some(l) ==> l.mount == mount && l.is_steering),
            (r is None <==> self.steerer_of(mount) is None),
    {
        match self.mount_index(mount) {
            Some(i) => {
                proof {
                    lemma_steerer_lookup_at(self.mount_map@, mount, i as int);
                }
                match self.mount_map[i].1.steerer {
                    Some(id) => {
                        match self.link_index(id) {
                            Some(j) => {
                                proof {
                                    lemma_link_lookup_at(self.links@, id, j as int);
                                }
                                Some(self.links[j].1)
                            },
                            None => {
                                proof {
                                    lemma_link_lookup_none(self.links@, id);
                                }
                                None
                            },
                        }
                    },
                    None => None,
                }
            },
            None => {
                proof {
                    lemma_steerer_lookup_none(self.mount_map@, mount);
                }
                None
            },
        }
    }

    /// A link by id.
    pub fn get(&self, id: MountId) -> (r: Option<NpcLink>)
        requires
            self.wf(),
        ensures
            r == self.link_of(id.0),
    {
        match self.link_index(id.0) {
            Some(j) => {
                proof {
                    lemma_link_lookup_at(self.links@, id.0, j as int);
                }
                Some(self.links[j].1)
            },
            None => {
                proof {
                    lemma_link_lookup_none(self.links@, id.0);
                }
                None
            },
        }
    }
}

/// After an accepted mount: the mount index's steerer entries still name
/// stored steering links, and no indexed mount is itself riding.
proof fn lemma_add_mount_entries_sound(
    mm_pre: Seq<(u64, Riders)>,
    mm_post: Seq<(u64, Riders)>,
    links_pre: Seq<(u64, NpcLink)>,
    links_post: Seq<(u64, NpcLink)>,
    rm_pre: Seq<(Actor, u64)>,
    rm_post: Seq<(Actor, u64)>,
    mount: u64,
    rider: Actor,
    id: u64,
    new_link: NpcLink,
)
    requires
        // the old indexes were sound
        forall|i: int|
            0 <= i < mm_pre.len() ==> (match (#[trigger] mm_pre[i]).1.steerer {
                Some(sid) => (match link_lookup(links_pre, sid) {
                    Some(l) => l.mount == mm_pre[i].0 && l.is_steering,
                    None => false,
                }),
                None => true,
            }),
        forall|i: int|
            0 <= i < mm_pre.len() ==> rider_lookup(rm_pre, Actor::Npc((#[trigger] mm_pre[i]).0))
                is None,
        forall|i: int| 0 <= i < links_pre.len() ==> (#[trigger] links_pre[i]).0 < id,
        // the accepted mutation
        link_lookup(links_post, id) == Some(new_link),
        forall|x: u64| x != id ==> link_lookup(links_post, x) == link_lookup(links_pre, x),
        forall|x: Actor| x != rider ==> rider_lookup(rm_post, x) == rider_lookup(rm_pre, x),
        new_link.mount == mount,
        // the validated rejections that were not taken
        rider != Actor::Npc(mount),
        rider_lookup(rm_pre, Actor::Npc(mount)) is None,
        (match rider {
            Actor::Npc(rn) => !mount_has_entry(mm_pre, rn),
            Actor::Character(_) => true,
        }),
        // the post mount index: every entry is an old entry, or the entry for
        // `mount` — steererless, freshly steered, or keeping an old steerer
        forall|i: int|
            0 <= i < mm_post.len() ==> ((exists|j: int|
                0 <= j < mm_pre.len() && (#[trigger] mm_pre[j]) == mm_post[i]) || ((
            #[trigger] mm_post[i]).0 == mount && (mm_post[i].1.steerer is None || (mm_post[
            i].1.steerer == Some(id) && new_link.is_steering) || (exists|j: int|
                0 <= j < mm_pre.len() && (#[trigger] mm_pre[j]).0 == mount && mm_post[i].1.steerer
                    == mm_pre[j].1.steerer)))),
    ensures
        forall|i: int|
            0 <= i < mm_post.len() ==> (match (#[trigger] mm_post[i]).1.steerer {
                Some(sid) => (match link_lookup(links_post, sid) {
                    Some(l) => l.mount == mm_post[i].0 && l.is_steering,
                    None => false,
                }),
                None => true,
            }),
        forall|i: int|
            0 <= i < mm_post.len() ==> rider_lookup(rm_post, Actor::Npc((#[trigger] mm_post[i]).0))
                is None,
{
    // No old entry names the fresh id: old steerers point into the old store,
    // whose keys all lie below the fresh id.
    assert forall|j: int|
        0 <= j < mm_pre.len() implies (#[trigger] mm_pre[j]).1.steerer != Some(id) by {
        if mm_pre[j].1.steerer == Some(id) {
            assert(link_lookup(links_pre, id) is Some);
            lemma_link_lookup_some_key(links_pre, id);
            let k = choose|k: int| 0 <= k < links_pre.len() && (#[trigger] links_pre[k]).0 == id;
        }
    }
    assert forall|i: int|
        0 <= i < mm_post.len() implies (match (#[trigger] mm_post[i]).1.steerer {
        Some(sid) => (match link_lookup(links_post, sid) {
            Some(l) => l.mount == mm_post[i].0 && l.is_steering,
            None => false,
        }),
        None => true,
    }) by {
        match mm_post[i].1.steerer {
            Some(sid) => {
                if sid == id {
                    // only the fresh steering link carries the fresh id
                    assert(mm_post[i].0 == mount && new_link.is_steering);
                } else {
                    // an old steerer of an old or updated entry
                    if exists|j: int| 0 <= j < mm_pre.len() && (#[trigger] mm_pre[j]) == mm_post[i] {
                        let j = choose|j: int|
                            0 <= j < mm_pre.len() && (#[trigger] mm_pre[j]) == mm_post[i];
                        assert(match link_lookup(links_pre, sid) {
                            Some(l) => l.mount == mm_pre[j].0 && l.is_steering,
                            None => false,
                        });
                    } else {
                        let j = choose|j: int|
                            0 <= j < mm_pre.len() && (#[trigger] mm_pre[j]).0 == mount && mm_post[
                            i].1.steerer == mm_pre[j].1.steerer;
                        assert(match link_lookup(links_pre, sid) {
                            Some(l) => l.mount == mm_pre[j].0 && l.is_steering,
                            None => false,
                        });
                    }
                }
            },
            None => {},
        }
    }
    assert forall|i: int|
        0 <= i < mm_post.len() implies rider_lookup(
        rm_post,
        Actor::Npc((#[trigger] mm_post[i]).0),
    ) is None by {
        let m2 = mm_post[i].0;
        if m2 == mount {
            assert(rider_lookup(rm_pre, Actor::Npc(mount)) is None);
            assert(Actor::Npc(mount) != rider);
        } else {
            let j = choose|j: int| 0 <= j < mm_pre.len() && (#[trigger] mm_pre[j]) == mm_post[i];
            assert(rider_lookup(rm_pre, Actor::Npc(m2)) is None);
            assert(Actor::Npc(m2) != rider) by {
                match rider {
                    Actor::Npc(rn) => {
                        if m2 == rn {
                            lemma_mount_has_entry_at(mm_pre, j);
                        }
                    },
                    Actor::Character(_) => {},
                }
            }
        }
    }
}

proof fn lemma_mount_has_entry_at(s: Seq<(u64, Riders)>, j: int)
    requires
        0 <= j < s.len(),
    ensures
        mount_has_entry(s, s[j].0),
    decreases s.len(),
{
    if j > 0 {
        if s[0].0 == s[j].0 {
        } else {
            assert(s.skip(1)[j - 1] == s[j]);
            lemma_mount_has_entry_at(s.skip(1), j - 1);
        }
    }
}

proof fn lemma_link_lookup_some_key(s: Seq<(u64, NpcLink)>, id: u64)
    requires
        link_lookup(s, id) is Some,
    ensures
        exists|j: int| 0 <= j < s.len() && (#[trigger] s[j]).0 == id,
    decreases s.len(),
{
    if s.len() > 0 {
        if s[0].0 == id {
        } else {
            lemma_link_lookup_some_key(s.skip(1), id);
            let j = choose|j: int| 0 <= j < s.skip(1).len() && (#[trigger] s.skip(1)[j]).0 == id;
            assert(s[j + 1] == s.skip(1)[j]);
        }
    }
}

proof fn lemma_rider_lookup_some_key(s: Seq<(Actor, u64)>, a: Actor)
    requires
        rider_lookup(s, a) is Some,
    ensures
        exists|j: int| 0 <= j < s.len() && (#[trigger] s[j]).0 == a,
    decreases s.len(),
{
    if s.len() > 0 {
        if s[0].0 == a {
        } else {
            lemma_rider_lookup_some_key(s.skip(1), a);
            let j = choose|j: int| 0 <= j < s.skip(1).len() && (#[trigger] s.skip(1)[j]).0 == a;
            assert(s[j + 1] == s.skip(1)[j]);
        }
    }
}

proof fn lemma_link_lookup_at(s: Seq<(u64, NpcLink)>, id: u64, i: int)
    requires
        0 <= i < s.len(),
        s[i].0 == id,
        forall|a: int, b: int|
            0 <= a < b < s.len() ==> (#[trigger] s[a]).0 != (#[trigger] s[b]).0,
    ensures
        link_lookup(s, id) == Some(s[i].1),
    decreases s.len(),
{
    if i > 0 {
        let t = s.skip(1);
        assert(t[i - 1] == s[i]);
        assert forall|a: int, b: int|
            0 <= a < b < t.len() implies (#[trigger] t[a]).0 != (#[trigger] t[b]).0 by {
            assert(t[a] == s[a + 1]);
            assert(t[b] == s[b + 1]);
        }
        lemma_link_lookup_at(t, id, i - 1);
    }
}

proof fn lemma_link_lookup_none(s: Seq<(u64, NpcLink)>, id: u64)
    requires
        forall|j: int| 0 <= j < s.len() ==> (#[trigger] s[j]).0 != id,
    ensures
        link_lookup(s, id) is None,
    decreases s.len(),
{
    if s.len() > 0 {
        let t = s.skip(1);
        assert forall|j: int| 0 <= j < t.len() implies (#[trigger] t[j]).0 != id by {
            assert(t[j] == s[j + 1]);
        }
        lemma_link_lookup_none(t, id);
    }
}

proof fn lemma_rider_lookup_at(s: Seq<(Actor, u64)>, a: Actor, i: int)
    requires
        0 <= i < s.len(),
        s[i].0 == a,
        forall|x: int, y: int|
            0 <= x < y < s.len() ==> (#[trigger] s[x]).0 != (#[trigger] s[y]).0,
    ensures
        rider_lookup(s, a) == Some(s[i].1),
    decreases s.len(),
{
    if i > 0 {
        let t = s.skip(1);
        assert(t[i - 1] == s[i]);
        assert forall|x: int, y: int|
            0 <= x < y < t.len() implies (#[trigger] t[x]).0 != (#[trigger] t[y]).0 by {
            assert(t[x] == s[x + 1]);
            assert(t[y] == s[y + 1]);
        }
        lemma_rider_lookup_at(t, a, i - 1);
    }
}

proof fn lemma_rider_lookup_none(s: Seq<(Actor, u64)>, a: Actor)
    requires
        forall|j: int| 0 <= j < s.len() ==> (#[trigger] s[j]).0 != a,
    ensures
        rider_lookup(s, a) is None,
    decreases s.len(),
{
    if s.len() > 0 {
        let t = s.skip(1);
        assert forall|j: int| 0 <= j < t.len() implies (#[trigger] t[j]).0 != a by {
            assert(t[j] == s[j + 1]);
        }
        lemma_rider_lookup_none(t, a);
    }
}

proof fn lemma_steerer_lookup_at(s: Seq<(u64, Riders)>, m: u64, i: int)
    requires
        0 <= i < s.len(),
        s[i].0 == m,
        forall|x: int, y: int|
            0 <= x < y < s.len() ==> (#[trigger] s[x]).0 != (#[trigger] s[y]).0,
    ensures
        steerer_lookup(s, m) == s[i].1.steerer,
        mount_has_entry(s, m),
    decreases s.len(),
{
    if i > 0 {
        let t = s.skip(1);
        assert(t[i - 1] == s[i]);
        assert forall|x: int, y: int|
            0 <= x < y < t.len() implies (#[trigger] t[x]).0 != (#[trigger] t[y]).0 by {
            assert(t[x] == s[x + 1]);
            assert(t[y] == s[y + 1]);
        }
        lemma_steerer_lookup_at(t, m, i - 1);
    }
}

proof fn lemma_steerer_lookup_none(s: Seq<(u64, Riders)>, m: u64)
    requires
        forall|j: int| 0 <= j < s.len() ==> (#[trigger] s[j]).0 != m,
    ensures
        steerer_lookup(s, m) is None,
        !mount_has_entry(s, m),
    decreases s.len(),
{
    if s.len() > 0 {
        let t = s.skip(1);
        assert forall|j: int| 0 <= j < t.len() implies (#[trigger] t[j]).0 != m by {
            assert(t[j] == s[j + 1]);
        }
        lemma_steerer_lookup_none(t, m);
    }
}


/// The riders-index clause of `wf`, for reuse in preservation proofs.
pub open spec fn riders_clause(mm: Seq<(u64, Riders)>, links: Seq<(u64, NpcLink)>) -> bool {
    forall|i: int, j: int|
        0 <= i < mm.len() && 0 <= j < (#[trigger] mm[i]).1.riders@.len() ==> (match link_lookup(
            links,
            #[trigger] mm[i].1.riders@[j],
        ) {
            Some(l) => l.mount == mm[i].0 && !l.is_steering,
            None => false,
        })
}



/// A rider list with every occurrence of one id removed.
pub open spec fn without_id(s: Seq<u64>, id: u64) -> Seq<u64>
    decreases s.len(),
{
    if s.len() == 0 {
        Seq::empty()
    } else {
        let rest = without_id(s.drop_last(), id);
        if s.last() == id {
            rest
        } else {
            rest.push(s.last())
        }
    }
}

proof fn lemma_without_id_push(s: Seq<u64>, x: u64, id: u64)
    ensures
        without_id(s.push(x), id) == (if x == id {
            without_id(s, id)
        } else {
            without_id(s, id).push(x)
        }),
{
    let q = s.push(x);
    assert(q.last() == x);
    assert(q.drop_last() =~= s);
}

proof fn lemma_without_id_elems(s: Seq<u64>, id: u64)
    ensures
        forall|k: int|
            0 <= k < without_id(s, id).len() ==> #[trigger] without_id(s, id)[k] != id && (exists|
            j: int|
                0 <= j < s.len() && s[j] == without_id(s, id)[k]),
    decreases s.len(),
{
    if s.len() > 0 {
        lemma_without_id_elems(s.drop_last(), id);
        let rest = without_id(s.drop_last(), id);
        assert forall|k: int|
            0 <= k < without_id(s, id).len() implies #[trigger] without_id(s, id)[k] != id && (
        exists|j: int| 0 <= j < s.len() && s[j] == without_id(s, id)[k]) by {
            if s.last() == id || k < rest.len() {
                assert(without_id(s, id)[k] == rest[k]);
                let j = choose|j: int|
                    0 <= j < s.drop_last().len() && s.drop_last()[j] == rest[k];
                assert(s[j] == rest[k]);
            } else {
                assert(without_id(s, id)[k] == s.last());
                assert(s[s.len() - 1] == s.last());
            }
        }
    }
}

/// Whether a rider id is listed under a key in a mount index.
pub open spec fn rider_listed(mm: Seq<(u64, Riders)>, key: u64, rid: u64) -> bool {
    exists|i0: int, j0: int|
        0 <= i0 < mm.len() && 0 <= j0 < mm[i0].1.riders@.len() && mm[i0].0 == key && #[trigger] mm[
        i0].1.riders@[j0] == rid
}

/// The riders clause survives a link removal, given that every surviving
/// rider id of the dissolved link's mount differs from the removed id and
/// every post entry's rider list comes from the pre state.
proof fn lemma_riders_clause_after_removal(
    mm_pre: Seq<(u64, Riders)>,
    mm_post: Seq<(u64, Riders)>,
    links_pre: Seq<(u64, NpcLink)>,
    links_post: Seq<(u64, NpcLink)>,
    id: u64,
    l: NpcLink,
)
    requires
        riders_clause(mm_pre, links_pre),
        link_lookup(links_pre, id) == Some(l),
        forall|x: u64| x != id ==> link_lookup(links_post, x) == link_lookup(links_pre, x),
        forall|i: int, j: int|
            0 <= i < mm_post.len() && 0 <= j < mm_post[i].1.riders@.len() ==> rider_listed(
                mm_pre,
                mm_post[i].0,
                #[trigger] mm_post[i].1.riders@[j],
            ),
        forall|i: int, j: int|
            0 <= i < mm_post.len() && mm_post[i].0 == l.mount && 0 <= j < mm_post[
            i].1.riders@.len() ==> #[trigger] mm_post[i].1.riders@[j] != id,
    ensures
        riders_clause(mm_post, links_post),
{
    assert forall|i: int, j: int|
        0 <= i < mm_post.len() && 0 <= j < (#[trigger] mm_post[i]).1.riders@.len() implies (
    match link_lookup(links_post, #[trigger] mm_post[i].1.riders@[j]) {
        Some(l2) => l2.mount == mm_post[i].0 && !l2.is_steering,
        None => false,
    }) by {
        let rid = mm_post[i].1.riders@[j];
        assert(rider_listed(mm_pre, mm_post[i].0, rid));
        let (i0, j0) = choose|i0: int, j0: int|
            0 <= i0 < mm_pre.len() && 0 <= j0 < mm_pre[i0].1.riders@.len() && mm_pre[i0].0
                == mm_post[i].0 && #[trigger] mm_pre[i0].1.riders@[j0] == rid;
        assert(match link_lookup(links_pre, rid) {
            Some(l2) => l2.mount == mm_pre[i0].0 && !l2.is_steering,
            None => false,
        });
        if rid == id {
            // then the pre clause names the dissolved link, so its mount is
            // this entry's key, where ids were checked to differ
            assert(l.mount == mm_post[i].0);
        }
    }
}

/// The riders clause survives an accepted mount, where the only new rider id
/// is the fresh passenger link of the mounted NPC.
proof fn lemma_riders_clause_after_add(
    mm_pre: Seq<(u64, Riders)>,
    mm_post: Seq<(u64, Riders)>,
    links_pre: Seq<(u64, NpcLink)>,
    links_post: Seq<(u64, NpcLink)>,
    id: u64,
    new_link: NpcLink,
    mount: u64,
)
    requires
        riders_clause(mm_pre, links_pre),
        forall|i: int| 0 <= i < links_pre.len() ==> (#[trigger] links_pre[i]).0 < id,
        link_lookup(links_post, id) == Some(new_link),
        forall|x: u64| x != id ==> link_lookup(links_post, x) == link_lookup(links_pre, x),
        new_link.mount == mount,
        forall|i: int, j: int|
            0 <= i < mm_post.len() && 0 <= j < mm_post[i].1.riders@.len() ==> (rider_listed(
                mm_pre,
                mm_post[i].0,
                #[trigger] mm_post[i].1.riders@[j],
            ) || (mm_post[i].0 == mount && mm_post[i].1.riders@[j] == id
                && !new_link.is_steering)),
    ensures
        riders_clause(mm_post, links_post),
{
    assert forall|i: int, j: int|
        0 <= i < mm_post.len() && 0 <= j < (#[trigger] mm_post[i]).1.riders@.len() implies (
    match link_lookup(links_post, #[trigger] mm_post[i].1.riders@[j]) {
        Some(l2) => l2.mount == mm_post[i].0 && !l2.is_steering,
        None => false,
    }) by {
        let rid = mm_post[i].1.riders@[j];
        if rider_listed(mm_pre, mm_post[i].0, rid) {
            let (i0, j0) = choose|i0: int, j0: int|
                0 <= i0 < mm_pre.len() && 0 <= j0 < mm_pre[i0].1.riders@.len() && mm_pre[i0].0
                    == mm_post[i].0 && #[trigger] mm_pre[i0].1.riders@[j0] == rid;
            assert(match link_lookup(links_pre, rid) {
                Some(l2) => l2.mount == mm_pre[i0].0 && !l2.is_steering,
                None => false,
            });
            lemma_link_lookup_some_key(links_pre, rid);
            let k = choose|k: int| 0 <= k < links_pre.len() && (#[trigger] links_pre[k]).0 == rid;
            assert(rid != id);
        } else {
            assert(mm_post[i].0 == mount && rid == id && !new_link.is_steering);
        }
    }
}

/// The first-match entry of a mount in the secondary index.
pub open spec fn mount_entry_lookup(s: Seq<(u64, Riders)>, m: u64) -> Option<(Option<u64>, Seq<u64>)>
    decreases s.len(),
{
    if s.len() == 0 {
        None
    } else if s[0].0 == m {
        Some((s[0].1.steerer, s[0].1.riders@))
    } else {
        mount_entry_lookup(s.skip(1), m)
    }
}

/// What one mount's rider set looks like after a link is dismounted: a
/// dissolved steerer is cleared; a dissolved passenger's id leaves the list.
pub open spec fn entry_after_dismount(
    entry: (Option<u64>, Seq<u64>),
    id: u64,
    is_steering: bool,
) -> (Option<u64>, Seq<u64>) {
    if is_steering && entry.0 == Some(id) {
        (None, entry.1)
    } else {
        (entry.0, without_id(entry.1, id))
    }
}

/// Why a mount attempt is rejected, checked in a fixed order; `None` means
/// the attempt is accepted.
pub open spec fn mount_rejection(
    s: NpcLinks,
    mount: u64,
    rider: Actor,
    steering: bool,
    mount_alive: bool,
) -> Option<MountingError> {
    if rider == Actor::Npc(mount) {
        Some(MountingError::MountSelf)
    } else if (match rider {
        Actor::Npc(rn) => mount_has_entry(s.mount_map@, rn),
        Actor::Character(_) => false,
    }) {
        Some(MountingError::RiderIsMounted)
    } else if rider_lookup(s.rider_map@, Actor::Npc(mount)) is Some {
        Some(MountingError::MountIsRiding)
    } else if !mount_alive {
        Some(MountingError::MountDead)
    } else if rider_lookup(s.rider_map@, rider) is Some {
        Some(MountingError::AlreadyRiding)
    } else if steering && steerer_lookup(s.mount_map@, mount) is Some {
        Some(MountingError::HasSteerer)
    } else {
        None
    }
}

impl NpcLinks {
    /// The only entry point that creates a mount link. Validates every
    /// invariant first and mutates nothing on rejection: self-mounting,
    /// chained mounts (a mounted rider or a riding mount), a dead mount, a
    /// rider that already rides, and a second steerer are all rejected.
    #[verifier::rlimit(100)]
    #[verifier::spinoff_prover]
    pub fn add_mounting(&mut self, mount: u64, rider: Actor, steering: bool, mount_alive: bool) -> (r:
        Result<MountId, MountingError>)
        requires
            old(self).wf(),
            old(self).next_id < u64::MAX,
        ensures
            final(self).wf(),
            ({
                match mount_rejection(*old(self), mount, rider, steering, mount_alive) {
                    Some(e) => r == Err::<MountId, MountingError>(e) && *final(self) == *old(self),
                    None => (r matches Ok(id) && {
                        &&& id.0 == old(self).next_id
                        &&& final(self).link_of(id.0) == Some(
                            NpcLink { mount, rider, is_steering: steering },
                        )
                        &&& (forall|x: u64|
                            x != id.0 ==> final(self).link_of(x) == old(self).link_of(x))
                        &&& final(self).rider_link_of(rider) == Some(id.0)
                        &&& (forall|a: Actor|
                            a != rider ==> final(self).rider_link_of(a) == old(
                                self,
                            ).rider_link_of(a))
                        &&& (steering ==> final(self).steerer_of(mount) == Some(id.0))
                        &&& (!steering ==> final(self).steerer_of(mount) == old(
                            self,
                        ).steerer_of(mount))
                        &&& (forall|m: u64|
                            m != mount ==> final(self).steerer_of(m) == old(self).steerer_of(m)
                                && final(self).has_mount_entry(m) == old(self).has_mount_entry(m))
                        &&& final(self).has_mount_entry(mount)
                    }),
                }
            }),
    {
        if rider == Actor::Npc(mount) {
            return Err(MountingError::MountSelf);
        }
        let rider_is_mounted: bool = match rider {
            Actor::Npc(rn) => {
                match self.mount_index(rn) {
                    Some(i) => {
                        proof {
                            lemma_steerer_lookup_at(self.mount_map@, rn, i as int);
                        }
                        true
                    },
                    None => {
                        proof {
                            lemma_steerer_lookup_none(self.mount_map@, rn);
                        }
                        false
                    },
                }
            },
            Actor::Character(_) => false,
        };
        if rider_is_mounted {
            return Err(MountingError::RiderIsMounted);
        }
        match self.rider_index(Actor::Npc(mount)) {
            Some(i) => {
                proof {
                    lemma_rider_lookup_at(self.rider_map@, Actor::Npc(mount), i as int);
                }
                return Err(MountingError::MountIsRiding);
            },
            None => {
                proof {
                    lemma_rider_lookup_none(self.rider_map@, Actor::Npc(mount));
                }
            },
        }
        if !mount_alive {
            return Err(MountingError::MountDead);
        }
        match self.rider_index(rider) {
            Some(i) => {
                proof {
                    lemma_rider_lookup_at(self.rider_map@, rider, i as int);
                }
                return Err(MountingError::AlreadyRiding);
            },
            None => {
                proof {
                    lemma_rider_lookup_none(self.rider_map@, rider);
                }
            },
        }
        let mount_idx = self.mount_index(mount);
        if steering {
            match mount_idx {
                Some(i) => {
                    proof {
                        lemma_steerer_lookup_at(self.mount_map@, mount, i as int);
                    }
                    if self.mount_map[i].1.steerer.is_some() {
                        return Err(MountingError::HasSteerer);
                    }
                },
                None => {
                    proof {
                        lemma_steerer_lookup_none(self.mount_map@, mount);
                    }
                },
            }
        }
        // All checks passed: mutate the three structures together.
        let id: u64 = self.next_id;
        self.next_id = self.next_id + 1;
        let ghost links_pre = self.links@;
        let ghost rmap_pre = self.rider_map@;
        let ghost mmap_pre = self.mount_map@;
        self.links.push((id, NpcLink { mount, rider, is_steering: steering }));
        proof {
            lemma_link_push_lookup(links_pre, id, NpcLink { mount, rider, is_steering: steering });
            assert forall|a: int, b: int|
                0 <= a < b < self.links@.len() implies (#[trigger] self.links@[a]).0 != (
            #[trigger] self.links@[b]).0 by {
                if b < links_pre.len() {
                    assert(self.links@[a] == links_pre[a]);
                    assert(self.links@[b] == links_pre[b]);
                } else {
                    assert(self.links@[a] == links_pre[a]);
                    assert(self.links@[b] == (id, NpcLink { mount, rider, is_steering: steering }));
                }
            }
        }
        self.rider_map.push((rider, id));
        proof {
            lemma_rider_push_lookup(rmap_pre, rider, id);
            assert forall|a: int, b: int|
                0 <= a < b < self.rider_map@.len() implies (#[trigger] self.rider_map@[a]).0 != (
            #[trigger] self.rider_map@[b]).0 by {
                if b < rmap_pre.len() {
                    assert(self.rider_map@[a] == rmap_pre[a]);
                    assert(self.rider_map@[b] == rmap_pre[b]);
                } else {
                    assert(self.rider_map@[a] == rmap_pre[a]);
                    assert(self.rider_map@[b] == (rider, id));
                    assert(rmap_pre[a].0 != rider) by {
                        lemma_rider_absent(rmap_pre, rider, a);
                    }
                }
            }
            // Every rider-index entry still names a stored link carrying that
            // rider: old entries reference old link ids, which are below the
            // fresh id and therefore untouched by the push.
            assert forall|i2: int|
                0 <= i2 < self.rider_map@.len() implies (match link_lookup(
                self.links@,
                (#[trigger] self.rider_map@[i2]).1,
            ) {
                Some(l) => l.rider == self.rider_map@[i2].0,
                None => false,
            }) by {
                if i2 < rmap_pre.len() {
                    assert(self.rider_map@[i2] == rmap_pre[i2]);
                    assert(match link_lookup(links_pre, rmap_pre[i2].1) {
                        Some(l) => l.rider == rmap_pre[i2].0,
                        None => false,
                    });
                    lemma_link_lookup_some_key(links_pre, rmap_pre[i2].1);
                    let j = choose|j: int|
                        0 <= j < links_pre.len() && (#[trigger] links_pre[j]).0 == rmap_pre[
                        i2].1;
                    assert(links_pre[j].0 < id);
                } else {
                    assert(self.rider_map@[i2] == (rider, id));
                }
            }
        }
        match mount_idx {
            Some(i) => {
                let (m, mut entry): (u64, Riders) = self.mount_map.remove(i);
                let ghost old_riders_add = entry.riders@;
                if steering {
                    entry.steerer = Some(id);
                } else {
                    entry.riders.push(id);
                }
                let new_steerer: Option<u64> = entry.steerer;
                let ghost new_entry_add = entry;
                self.mount_map.insert(i, (m, entry));
                proof {
                    assert(self.mount_map@ =~= mmap_pre.update(
                        i as int,
                        self.mount_map@[i as int],
                    ));
                    assert(self.mount_map@[i as int].0 == mount);
                    assert(self.mount_map@[i as int].1.steerer == new_steerer);
                    lemma_mount_update_lookup(mmap_pre, self.mount_map@, i as int, mount);
                    if steering {
                        lemma_steerer_lookup_at(self.mount_map@, mount, i as int);
                    } else {
                        lemma_steerer_lookup_at(self.mount_map@, mount, i as int);
                        lemma_steerer_lookup_at(mmap_pre, mount, i as int);
                    }
                    assert forall|i2: int|
                        0 <= i2 < self.mount_map@.len() implies ((exists|j: int|
                        0 <= j < mmap_pre.len() && (#[trigger] mmap_pre[j]) == self.mount_map@[
                        i2]) || ((#[trigger] self.mount_map@[i2]).0 == mount && (self.mount_map@[
                        i2].1.steerer is None || (self.mount_map@[i2].1.steerer == Some(id)
                            && steering) || (exists|j: int|
                            0 <= j < mmap_pre.len() && (#[trigger] mmap_pre[j]).0 == mount
                                && self.mount_map@[i2].1.steerer == mmap_pre[j].1.steerer)))) by {
                        if i2 != i as int {
                            assert(self.mount_map@[i2] == mmap_pre[i2]);
                        } else {
                            if !steering {
                                assert((#[trigger] mmap_pre[i as int]).0 == mount
                                    && self.mount_map@[i2].1.steerer == mmap_pre[
                                i as int].1.steerer);
                            }
                        }
                    }
                    lemma_add_mount_entries_sound(
                        mmap_pre,
                        self.mount_map@,
                        links_pre,
                        self.links@,
                        rmap_pre,
                        self.rider_map@,
                        mount,
                        rider,
                        id,
                        NpcLink { mount, rider, is_steering: steering },
                    );
                    assert(riders_clause(mmap_pre, links_pre));
                    assert(mmap_pre[i as int].1.riders@ == old_riders_add);
                    assert forall|i2: int, j2: int|
                        0 <= i2 < self.mount_map@.len() && 0 <= j2 < (
                    #[trigger] self.mount_map@[i2]).1.riders@.len() implies (rider_listed(
                        mmap_pre,
                        self.mount_map@[i2].0,
                        #[trigger] self.mount_map@[i2].1.riders@[j2],
                    ) || (self.mount_map@[i2].0 == mount
                        && self.mount_map@[i2].1.riders@[j2] == id && !steering)) by {
                        if i2 == i as int {
                            assert(self.mount_map@[i2] == (m, new_entry_add));
                            if steering {
                                assert(new_entry_add.riders@ == old_riders_add);
                                assert(mmap_pre[i as int].1.riders@[j2] == self.mount_map@[
                                i2].1.riders@[j2]);
                            } else {
                                assert(new_entry_add.riders@ == old_riders_add.push(id));
                                if j2 < old_riders_add.len() {
                                    assert(mmap_pre[i as int].1.riders@[j2] == self.mount_map@[
                                    i2].1.riders@[j2]);
                                } else {
                                    assert(self.mount_map@[i2].1.riders@[j2] == id);
                                }
                            }
                        } else {
                            assert(self.mount_map@[i2] == mmap_pre[i2]);
                            assert(mmap_pre[i2].1.riders@[j2] == self.mount_map@[i2].1.riders@[j2]);
                        }
                    }
                    lemma_riders_clause_after_add(
                        mmap_pre,
                        self.mount_map@,
                        links_pre,
                        self.links@,
                        id,
                        NpcLink { mount, rider, is_steering: steering },
                        mount,
                    );
                }
            },
            None => {
                proof {
                    lemma_steerer_lookup_none(mmap_pre, mount);
                }
                let entry = Riders {
                    steerer: if steering {
                        Some(id)
                    } else {
                        None
                    },
                    riders: if steering {
                        Vec::new()
                    } else {
                        let mut v: Vec<u64> = Vec::new();
                        v.push(id);
                        v
                    },
                };
                self.mount_map.push((mount, entry));
                proof {
                    lemma_mount_push_lookup(mmap_pre, mount, self.mount_map@[mmap_pre.len() as int].1);
                    assert forall|a: int, b: int|
                        0 <= a < b < self.mount_map@.len() implies (
                    #[trigger] self.mount_map@[a]).0 != (#[trigger] self.mount_map@[b]).0 by {
                        if b < mmap_pre.len() {
                            assert(self.mount_map@[a] == mmap_pre[a]);
                            assert(self.mount_map@[b] == mmap_pre[b]);
                        } else {
                            assert(self.mount_map@[a] == mmap_pre[a]);
                            assert(self.mount_map@[b].0 == mount);
                            assert(mmap_pre[a].0 != mount);
                        }
                    }
                    assert forall|i2: int|
                        0 <= i2 < self.mount_map@.len() implies ((exists|j: int|
                        0 <= j < mmap_pre.len() && (#[trigger] mmap_pre[j]) == self.mount_map@[
                        i2]) || ((#[trigger] self.mount_map@[i2]).0 == mount && (self.mount_map@[
                        i2].1.steerer is None || (self.mount_map@[i2].1.steerer == Some(id)
                            && steering) || (exists|j: int|
                            0 <= j < mmap_pre.len() && (#[trigger] mmap_pre[j]).0 == mount
                                && self.mount_map@[i2].1.steerer == mmap_pre[j].1.steerer)))) by {
                        if i2 < mmap_pre.len() {
                            assert((#[trigger] mmap_pre[i2]) == self.mount_map@[i2]);
                        } else {
                            assert(self.mount_map@[i2].0 == mount);
                        }
                    }
                    lemma_add_mount_entries_sound(
                        mmap_pre,
                        self.mount_map@,
                        links_pre,
                        self.links@,
                        rmap_pre,
                        self.rider_map@,
                        mount,
                        rider,
                        id,
                        NpcLink { mount, rider, is_steering: steering },
                    );
                    assert(riders_clause(mmap_pre, links_pre));
                    assert forall|i2: int, j2: int|
                        0 <= i2 < self.mount_map@.len() && 0 <= j2 < (
                    #[trigger] self.mount_map@[i2]).1.riders@.len() implies (rider_listed(
                        mmap_pre,
                        self.mount_map@[i2].0,
                        #[trigger] self.mount_map@[i2].1.riders@[j2],
                    ) || (self.mount_map@[i2].0 == mount
                        && self.mount_map@[i2].1.riders@[j2] == id && !steering)) by {
                        if i2 < mmap_pre.len() {
                            assert(self.mount_map@[i2] == mmap_pre[i2]);
                            assert(mmap_pre[i2].1.riders@[j2] == self.mount_map@[i2].1.riders@[j2]);
                        } else {
                            assert(self.mount_map@[i2].0 == mount);
                            if !steering {
                                assert(self.mount_map@[i2].1.riders@[j2] == id);
                            }
                        }
                    }
                    lemma_riders_clause_after_add(
                        mmap_pre,
                        self.mount_map@,
                        links_pre,
                        self.links@,
                        id,
                        NpcLink { mount, rider, is_steering: steering },
                        mount,
                    );
                }
            },
        }
        Ok(MountId(id))
    }

    /// Create a steering link.
    pub fn steer(&mut self, mount: u64, rider: Actor, mount_alive: bool) -> (r: Result<
        MountId,
        MountingError,
    >)
        requires
            old(self).wf(),
            old(self).next_id < u64::MAX,
        ensures
            final(self).wf(),
            (mount_rejection(*old(self), mount, rider, true, mount_alive) matches Some(e) ==> r
                == Err::<MountId, MountingError>(e) && *final(self) == *old(self)),
            (mount_rejection(*old(self), mount, rider, true, mount_alive) is None ==> (r
                matches Ok(id) && final(self).rider_link_of(rider) == Some(id.0)
                && final(self).steerer_of(mount) == Some(id.0))),
    {
        self.add_mounting(mount, rider, true, mount_alive)
    }

    /// Create a passenger link.
    pub fn ride(&mut self, mount: u64, rider: Actor, mount_alive: bool) -> (r: Result<
        MountId,
        MountingError,
    >)
        requires
            old(self).wf(),
            old(self).next_id < u64::MAX,
        ensures
            final(self).wf(),
            (mount_rejection(*old(self), mount, rider, false, mount_alive) matches Some(e) ==> r
                == Err::<MountId, MountingError>(e) && *final(self) == *old(self)),
            (mount_rejection(*old(self), mount, rider, false, mount_alive) is None ==> (r
                matches Ok(id) && final(self).rider_link_of(rider) == Some(id.0))),
    {
        self.add_mounting(mount, rider, false, mount_alive)
    }
}

proof fn lemma_link_push_lookup(s: Seq<(u64, NpcLink)>, id: u64, l: NpcLink)
    requires
        forall|j: int| 0 <= j < s.len() ==> (#[trigger] s[j]).0 != id,
    ensures
        link_lookup(s.push((id, l)), id) == Some(l),
        forall|x: u64| x != id ==> link_lookup(s.push((id, l)), x) == link_lookup(s, x),
    decreases s.len(),
{
    let p = s.push((id, l));
    if s.len() == 0 {
        assert(p[0] == (id, l));
        assert forall|x: u64| x != id implies link_lookup(p, x) == link_lookup(s, x) by {
            assert(p.skip(1) =~= Seq::<(u64, NpcLink)>::empty());
            assert(link_lookup(Seq::<(u64, NpcLink)>::empty(), x) is None);
        }
    } else {
        assert(p[0] == s[0]);
        let t = s.skip(1);
        assert(p.skip(1) =~= t.push((id, l)));
        assert forall|j: int| 0 <= j < t.len() implies (#[trigger] t[j]).0 != id by {
            assert(t[j] == s[j + 1]);
        }
        lemma_link_push_lookup(t, id, l);
        assert forall|x: u64| x != id implies link_lookup(p, x) == link_lookup(s, x) by {
            if s[0].0 != x {
                assert(link_lookup(p.skip(1), x) == link_lookup(t.push((id, l)), x));
                assert(link_lookup(t.push((id, l)), x) == link_lookup(t, x));
            }
        }
    }
}

proof fn lemma_rider_push_lookup(s: Seq<(Actor, u64)>, a: Actor, id: u64)
    requires
        forall|j: int| 0 <= j < s.len() ==> (#[trigger] s[j]).0 != a,
    ensures
        rider_lookup(s.push((a, id)), a) == Some(id),
        forall|x: Actor| x != a ==> rider_lookup(s.push((a, id)), x) == rider_lookup(s, x),
    decreases s.len(),
{
    let p = s.push((a, id));
    if s.len() == 0 {
        assert(p[0] == (a, id));
        assert forall|x: Actor| x != a implies rider_lookup(p, x) == rider_lookup(s, x) by {
            assert(p.skip(1) =~= Seq::<(Actor, u64)>::empty());
            assert(rider_lookup(Seq::<(Actor, u64)>::empty(), x) is None);
        }
    } else {
        assert(p[0] == s[0]);
        let t = s.skip(1);
        assert(p.skip(1) =~= t.push((a, id)));
        assert forall|j: int| 0 <= j < t.len() implies (#[trigger] t[j]).0 != a by {
            assert(t[j] == s[j + 1]);
        }
        lemma_rider_push_lookup(t, a, id);
        assert forall|x: Actor| x != a implies rider_lookup(p, x) == rider_lookup(s, x) by {
            if s[0].0 != x {
                assert(rider_lookup(p.skip(1), x) == rider_lookup(t.push((a, id)), x));
                assert(rider_lookup(t.push((a, id)), x) == rider_lookup(t, x));
            }
        }
    }
}

proof fn lemma_rider_absent(s: Seq<(Actor, u64)>, a: Actor, j: int)
    requires
        rider_lookup(s, a) is None,
        0 <= j < s.len(),
    ensures
        s[j].0 != a,
    decreases s.len(),
{
    if s.len() > 0 {
        if j > 0 {
            assert(s.skip(1)[j - 1] == s[j]);
            lemma_rider_absent(s.skip(1), a, j - 1);
        }
    }
}

proof fn lemma_mount_push_lookup(s: Seq<(u64, Riders)>, m: u64, entry: Riders)
    requires
        forall|j: int| 0 <= j < s.len() ==> (#[trigger] s[j]).0 != m,
    ensures
        steerer_lookup(s.push((m, entry)), m) == entry.steerer,
        mount_has_entry(s.push((m, entry)), m),
        forall|x: u64|
            x != m ==> steerer_lookup(s.push((m, entry)), x) == steerer_lookup(s, x)
                && mount_has_entry(s.push((m, entry)), x) == mount_has_entry(s, x),
    decreases s.len(),
{
    let p = s.push((m, entry));
    if s.len() == 0 {
        assert(p[0] == (m, entry));
        assert forall|x: u64|
            x != m implies steerer_lookup(p, x) == steerer_lookup(s, x) && mount_has_entry(p, x)
            == mount_has_entry(s, x) by {
            assert(p.skip(1) =~= Seq::<(u64, Riders)>::empty());
            assert(steerer_lookup(Seq::<(u64, Riders)>::empty(), x) is None);
            assert(!mount_has_entry(Seq::<(u64, Riders)>::empty(), x));
        }
    } else {
        assert(p[0] == s[0]);
        let t = s.skip(1);
        assert(p.skip(1) =~= t.push((m, entry)));
        assert forall|j: int| 0 <= j < t.len() implies (#[trigger] t[j]).0 != m by {
            assert(t[j] == s[j + 1]);
        }
        lemma_mount_push_lookup(t, m, entry);
        assert forall|x: u64|
            x != m implies steerer_lookup(p, x) == steerer_lookup(s, x) && mount_has_entry(p, x)
            == mount_has_entry(s, x) by {
            if s[0].0 != x {
                assert(steerer_lookup(p.skip(1), x) == steerer_lookup(t.push((m, entry)), x));
                assert(steerer_lookup(t.push((m, entry)), x) == steerer_lookup(t, x));
                assert(mount_has_entry(p.skip(1), x) == mount_has_entry(t.push((m, entry)), x));
                assert(mount_has_entry(t.push((m, entry)), x) == mount_has_entry(t, x));
            }
        }
    }
}

proof fn lemma_mount_update_lookup(pre: Seq<(u64, Riders)>, post: Seq<(u64, Riders)>, i: int, m: u64)
    requires
        0 <= i < pre.len(),
        post.len() == pre.len(),
        pre[i].0 == m,
        post[i].0 == m,
        forall|j: int| 0 <= j < pre.len() && j != i ==> post[j] == pre[j],
        forall|a: int, b: int|
            0 <= a < b < pre.len() ==> (#[trigger] pre[a]).0 != (#[trigger] pre[b]).0,
    ensures
        steerer_lookup(post, m) == post[i].1.steerer,
        mount_has_entry(post, m),
        forall|x: u64|
            x != m ==> steerer_lookup(post, x) == steerer_lookup(pre, x) && mount_has_entry(
                post,
                x,
            ) == mount_has_entry(pre, x) && mount_entry_lookup(post, x) == mount_entry_lookup(
                pre,
                x,
            ),
        forall|a: int, b: int|
            0 <= a < b < post.len() ==> (#[trigger] post[a]).0 != (#[trigger] post[b]).0,
    decreases pre.len(),
{
    assert forall|a: int, b: int|
        0 <= a < b < post.len() implies (#[trigger] post[a]).0 != (#[trigger] post[b]).0 by {
        assert(post[a].0 == pre[a].0);
        assert(post[b].0 == pre[b].0);
    }
    lemma_steerer_lookup_at(post, m, i);
    assert forall|x: u64|
        x != m implies steerer_lookup(post, x) == steerer_lookup(pre, x) && mount_has_entry(
        post,
        x,
    ) == mount_has_entry(pre, x) && mount_entry_lookup(post, x) == mount_entry_lookup(
        pre,
        x,
    ) by {
        lemma_mount_lookup_frame(pre, post, i, x);
    }
}

proof fn lemma_mount_lookup_frame(pre: Seq<(u64, Riders)>, post: Seq<(u64, Riders)>, i: int, x: u64)
    requires
        0 <= i < pre.len(),
        post.len() == pre.len(),
        pre[i].0 != x,
        post[i].0 == pre[i].0,
        forall|j: int| 0 <= j < pre.len() && j != i ==> post[j] == pre[j],
    ensures
        steerer_lookup(post, x) == steerer_lookup(pre, x),
        mount_has_entry(post, x) == mount_has_entry(pre, x),
        mount_entry_lookup(post, x) == mount_entry_lookup(pre, x),
    decreases pre.len(),
{
    if pre.len() > 0 {
        if i == 0 {
            assert(post.skip(1) =~= pre.skip(1));
        } else {
            assert(post[0] == pre[0]);
            if pre[0].0 == x {
            } else {
                assert(post.skip(1)[i - 1].0 == pre.skip(1)[i - 1].0);
                assert forall|j: int|
                    0 <= j < pre.skip(1).len() && j != i - 1 implies post.skip(1)[j] == pre.skip(
                    1,
                )[j] by {
                    assert(post.skip(1)[j] == post[j + 1]);
                    assert(pre.skip(1)[j] == pre[j + 1]);
                }
                assert(pre.skip(1)[i - 1] == pre[i]);
                lemma_mount_lookup_frame(pre.skip(1), post.skip(1), i - 1, x);
            }
        }
    }
}

impl NpcLinks {
    /// Dismount an actor: its link dissolves, it no longer appears as a
    /// rider, and its mount's rider entry is removed entirely once empty.
    #[verifier::rlimit(100)]
    #[verifier::spinoff_prover]
    pub fn dismount(&mut self, rider: Actor)
        requires
            old(self).wf(),
        ensures
            final(self).wf(),
            final(self).rider_link_of(rider) is None,
            forall|a: Actor|
                a != rider ==> final(self).rider_link_of(a) == old(self).rider_link_of(a),
            ({
                match old(self).rider_link_of(rider) {
                    Some(id) => {
                        &&& final(self).link_of(id) is None
                        &&& (forall|x: u64|
                            x != id ==> final(self).link_of(x) == old(self).link_of(x))
                        &&& (match old(self).link_of(id) {
                            Some(l) => (match mount_entry_lookup(old(self).mount_map@, l.mount) {
                                Some(entry) => {
                                    let after = entry_after_dismount(entry, id, l.is_steering);
                                    &&& ((after.0 is None && after.1.len() == 0)
                                        ==> !final(self).has_mount_entry(l.mount))
                                    &&& (!(after.0 is None && after.1.len() == 0)
                                        ==> (final(self).has_mount_entry(l.mount)
                                        && final(self).steerer_of(l.mount) == after.0))
                                    &&& (forall|m: u64|
                                        m != l.mount
                                            ==> final(self).steerer_of(m)
                                            == old(self).steerer_of(m)
                                            && final(self).has_mount_entry(m)
                                            == old(self).has_mount_entry(m))
                                },
                                None => final(self).mount_map@ == old(self).mount_map@,
                            }),
                            None => final(self).mount_map@ == old(self).mount_map@,
                        })
                    },
                    None => *final(self) == *old(self),
                }
            }),
    {
        let ridx = match self.rider_index(rider) {
            Some(i) => i,
            None => {
                proof {
                    lemma_rider_lookup_none(self.rider_map@, rider);
                }
                return ;
            },
        };
        proof {
            lemma_rider_lookup_at(self.rider_map@, rider, ridx as int);
        }
        let id: u64 = self.rider_map[ridx].1;
        let ghost rmap_pre = self.rider_map@;
        let _removed_rider = self.rider_map.remove(ridx);
        proof {
            lemma_rider_remove_lookup(rmap_pre, ridx as int, rider);
        }
        let lidx = match self.link_index(id) {
            Some(j) => j,
            None => {
                proof {
                    lemma_link_lookup_none(self.links@, id);
                }
                return ;
            },
        };
        proof {
            lemma_link_lookup_at(self.links@, id, lidx as int);
        }
        let ghost links_pre = self.links@;
        let (_, l): (u64, NpcLink) = self.links.remove(lidx);
        proof {
            lemma_link_remove_lookup(links_pre, lidx as int, id);
        }
        let midx = match self.mount_index(l.mount) {
            Some(k) => k,
            None => {
                proof {
                    lemma_mount_entry_lookup_none(self.mount_map@, l.mount);
                    assert(riders_clause(old(self).mount_map@, links_pre));
                    assert forall|i2: int, j2: int|
                        0 <= i2 < self.mount_map@.len() && 0 <= j2 < (
                    #[trigger] self.mount_map@[i2]).1.riders@.len() implies rider_listed(
                        old(self).mount_map@,
                        self.mount_map@[i2].0,
                        #[trigger] self.mount_map@[i2].1.riders@[j2],
                    ) by {
                        assert(self.mount_map@[i2] == old(self).mount_map@[i2]);
                        assert(old(self).mount_map@[i2].1.riders@[j2] == self.mount_map@[
                        i2].1.riders@[j2]);
                    }
                    lemma_riders_clause_after_removal(
                        old(self).mount_map@,
                        self.mount_map@,
                        links_pre,
                        self.links@,
                        id,
                        l,
                    );
                }
                return ;
            },
        };
        proof {
            lemma_mount_entry_lookup_at(self.mount_map@, l.mount, midx as int);
        }
        let ghost mmap_pre = self.mount_map@;
        let (m, mut entry): (u64, Riders) = self.mount_map.remove(midx);
        let ghost old_riders = entry.riders@;
        let was_steering: bool = match entry.steerer {
            Some(s) => l.is_steering && s == id,
            None => false,
        };
        if was_steering {
            entry.steerer = None;
        } else {
            let ghost riders_pre = entry.riders@;
            let mut kept_ids: Vec<u64> = Vec::new();
            let mut w: usize = 0;
            proof {
                assert(riders_pre.subrange(0, 0) =~= Seq::<u64>::empty());
                assert(without_id(riders_pre.subrange(0, 0), id) =~= Seq::<
                    u64,
                >::empty());
            }
            while w < entry.riders.len()
                invariant
                    entry.riders@ == riders_pre,
                    w <= riders_pre.len(),
                    kept_ids@ == without_id(riders_pre.subrange(0, w as int), id),
                decreases riders_pre.len() - w,
            {
                proof {
                    lemma_without_id_push(
                        riders_pre.subrange(0, w as int),
                        riders_pre[w as int],
                        id,
                    );
                    assert(riders_pre.subrange(0, w as int).push(riders_pre[w as int])
                        =~= riders_pre.subrange(0, w + 1));
                }
                if entry.riders[w] != id {
                    kept_ids.push(entry.riders[w]);
                }
                w += 1;
            }
            proof {
                assert(riders_pre.subrange(0, riders_pre.len() as int) =~= riders_pre);
            }
            entry.riders = kept_ids;
        }
        let empty_now: bool = entry.steerer.is_none() && entry.riders.len() == 0;
        if empty_now {
            proof {
                lemma_mount_remove_lookup(mmap_pre, midx as int, l.mount);
                assert(riders_clause(mmap_pre, links_pre));
                assert forall|i2: int, j2: int|
                        0 <= i2 < self.mount_map@.len() && 0 <= j2 < (
                    #[trigger] self.mount_map@[i2]).1.riders@.len() implies rider_listed(
                        mmap_pre,
                        self.mount_map@[i2].0,
                        #[trigger] self.mount_map@[i2].1.riders@[j2],
                    ) by {
                        assert(self.mount_map@[i2] == (if i2 < midx as int {
                            mmap_pre[i2]
                        } else {
                            mmap_pre[i2 + 1]
                        }));
                        if i2 < midx as int {
                            assert(mmap_pre[i2].1.riders@[j2] == self.mount_map@[i2].1.riders@[j2]);
                        } else {
                            assert(mmap_pre[i2 + 1].1.riders@[j2] == self.mount_map@[i2].1.riders@[j2]);
                        }
                    }
                assert forall|i2: int, j2: int|
                    0 <= i2 < self.mount_map@.len() && (#[trigger] self.mount_map@[i2]).0
                        == l.mount && 0 <= j2 < self.mount_map@[i2].1.riders@.len() implies
                    #[trigger] self.mount_map@[i2].1.riders@[j2] != id by {
                    assert(self.mount_map@[i2] == (if i2 < midx as int {
                        mmap_pre[i2]
                    } else {
                        mmap_pre[i2 + 1]
                    }));
                    assert(mmap_pre[midx as int].0 == l.mount);
                }
                lemma_riders_clause_after_removal(
                    mmap_pre,
                    self.mount_map@,
                    links_pre,
                    self.links@,
                    id,
                    l,
                );
            }
        } else {
            let ghost new_entry = entry;
            self.mount_map.insert(midx, (m, entry));
            proof {
                assert(self.mount_map@ =~= mmap_pre.update(midx as int, (m, new_entry)));
                lemma_mount_update_lookup(mmap_pre, self.mount_map@, midx as int, l.mount);
                assert(riders_clause(mmap_pre, links_pre));
                lemma_without_id_elems(old_riders, id);
                assert(mmap_pre[midx as int].1.riders@ == old_riders);
                assert(mmap_pre[midx as int].0 == l.mount);
                assert forall|i2: int, j2: int|
                        0 <= i2 < self.mount_map@.len() && 0 <= j2 < (
                    #[trigger] self.mount_map@[i2]).1.riders@.len() implies rider_listed(
                        mmap_pre,
                        self.mount_map@[i2].0,
                        #[trigger] self.mount_map@[i2].1.riders@[j2],
                    ) by {
                        if i2 == midx as int {
                            let rid = self.mount_map@[i2].1.riders@[j2];
                            if new_entry.riders@ == old_riders {
                                assert(mmap_pre[midx as int].1.riders@[j2] == rid);
                            } else {
                                assert(new_entry.riders@ == without_id(old_riders, id));
                                let j0 = choose|j0: int|
                                    0 <= j0 < old_riders.len() && old_riders[j0] == rid;
                                assert(mmap_pre[midx as int].1.riders@[j0] == rid);
                            }
                        } else {
                            assert(self.mount_map@[i2] == mmap_pre[i2]);
                            assert(mmap_pre[i2].1.riders@[j2] == self.mount_map@[i2].1.riders@[j2]);
                        }
                    }
                assert forall|i2: int, j2: int|
                    0 <= i2 < self.mount_map@.len() && (#[trigger] self.mount_map@[i2]).0
                        == l.mount && 0 <= j2 < self.mount_map@[i2].1.riders@.len() implies
                    #[trigger] self.mount_map@[i2].1.riders@[j2] != id by {
                    if i2 == midx as int {
                        let rid = self.mount_map@[i2].1.riders@[j2];
                        if new_entry.riders@ == old_riders {
                            // the dissolved link steered; passenger ids never
                            // name a steering link
                            assert(mmap_pre[midx as int].1.riders@[j2] == rid);
                            if rid == id {
                                assert(match link_lookup(links_pre, rid) {
                                    Some(l2) => !l2.is_steering,
                                    None => false,
                                });
                            }
                        } else {
                            assert(new_entry.riders@ == without_id(old_riders, id));
                        }
                    } else {
                        assert(self.mount_map@[i2] == mmap_pre[i2]);
                        assert(mmap_pre[i2].0 != mmap_pre[midx as int].0);
                    }
                }
                lemma_riders_clause_after_removal(
                    mmap_pre,
                    self.mount_map@,
                    links_pre,
                    self.links@,
                    id,
                    l,
                );
            }
        }
    }
}

impl NpcLinks {
    /// Dissolve one link by id: the record is removed, its rider is freed,
    /// and its mount's rider entry is removed entirely once empty.
    #[verifier::rlimit(100)]
    #[verifier::spinoff_prover]
    pub fn remove_link(&mut self, link_id: MountId)
        requires
            old(self).wf(),
        ensures
            final(self).wf(),
            final(self).link_of(link_id.0) is None,
            forall|x: u64| x != link_id.0 ==> final(self).link_of(x) == old(self).link_of(x),
            ({
                match old(self).link_of(link_id.0) {
                    Some(l) => {
                        &&& final(self).rider_link_of(l.rider) is None
                        &&& (forall|a: Actor|
                            a != l.rider ==> final(self).rider_link_of(a) == old(
                                self,
                            ).rider_link_of(a))
                        &&& (forall|m2: u64|
                            m2 != l.mount ==> mount_entry_lookup(final(self).mount_map@, m2)
                                == mount_entry_lookup(old(self).mount_map@, m2)
                                && final(self).steerer_of(m2) == old(self).steerer_of(m2)
                                && final(self).has_mount_entry(m2) == old(
                                self,
                            ).has_mount_entry(m2))
                    },
                    None => *final(self) == *old(self),
                }
            }),
    {
        let lidx = match self.link_index(link_id.0) {
            Some(j) => j,
            None => {
                proof {
                    lemma_link_lookup_none(self.links@, link_id.0);
                }
                return ;
            },
        };
        proof {
            lemma_link_lookup_at(self.links@, link_id.0, lidx as int);
        }
        let ghost links_pre = self.links@;
        let (_, l): (u64, NpcLink) = self.links.remove(lidx);
        proof {
            lemma_link_remove_lookup(links_pre, lidx as int, link_id.0);
        }
        match self.rider_index(l.rider) {
            Some(ridx) => {
                proof {
                    lemma_rider_lookup_at(self.rider_map@, l.rider, ridx as int);
                }
                let ghost rmap_pre = self.rider_map@;
                let _removed = self.rider_map.remove(ridx);
                proof {
                    lemma_rider_remove_lookup(rmap_pre, ridx as int, l.rider);
                }
            },
            None => {
                proof {
                    lemma_rider_lookup_none(self.rider_map@, l.rider);
                }
            },
        }
        let midx = match self.mount_index(l.mount) {
            Some(k) => k,
            None => {
                proof {
                    assert(riders_clause(old(self).mount_map@, links_pre));
                    assert forall|i2: int, j2: int|
                        0 <= i2 < self.mount_map@.len() && 0 <= j2 < (
                    #[trigger] self.mount_map@[i2]).1.riders@.len() implies rider_listed(
                        old(self).mount_map@,
                        self.mount_map@[i2].0,
                        #[trigger] self.mount_map@[i2].1.riders@[j2],
                    ) by {
                        assert(self.mount_map@[i2] == old(self).mount_map@[i2]);
                        assert(old(self).mount_map@[i2].1.riders@[j2] == self.mount_map@[
                        i2].1.riders@[j2]);
                    }
                    assert forall|i2: int, j2: int|
                        0 <= i2 < self.mount_map@.len() && (#[trigger] self.mount_map@[i2]).0
                            == l.mount && 0 <= j2 < self.mount_map@[i2].1.riders@.len() implies
                        #[trigger] self.mount_map@[i2].1.riders@[j2] != link_id.0 by {
                        assert(match link_lookup(links_pre, self.mount_map@[i2].1.riders@[j2]) {
                            Some(l2) => !l2.is_steering,
                            None => false,
                        });
                    }
                    lemma_riders_clause_after_removal(
                        old(self).mount_map@,
                        self.mount_map@,
                        links_pre,
                        self.links@,
                        link_id.0,
                        l,
                    );
                }
                return ;
            },
        };
        let ghost mmap_pre = self.mount_map@;
        let (m, mut entry): (u64, Riders) = self.mount_map.remove(midx);
        let ghost old_riders = entry.riders@;
        let was_steering: bool = match entry.steerer {
            Some(s) => l.is_steering && s == link_id.0,
            None => false,
        };
        if was_steering {
            entry.steerer = None;
        } else {
            let ghost riders_pre = entry.riders@;
            let mut kept_ids: Vec<u64> = Vec::new();
            let mut w: usize = 0;
            proof {
                assert(riders_pre.subrange(0, 0) =~= Seq::<u64>::empty());
                assert(without_id(riders_pre.subrange(0, 0), link_id.0) =~= Seq::<
                    u64,
                >::empty());
            }
            while w < entry.riders.len()
                invariant
                    entry.riders@ == riders_pre,
                    w <= riders_pre.len(),
                    kept_ids@ == without_id(riders_pre.subrange(0, w as int), link_id.0),
                decreases riders_pre.len() - w,
            {
                proof {
                    lemma_without_id_push(
                        riders_pre.subrange(0, w as int),
                        riders_pre[w as int],
                        link_id.0,
                    );
                    assert(riders_pre.subrange(0, w as int).push(riders_pre[w as int])
                        =~= riders_pre.subrange(0, w + 1));
                }
                if entry.riders[w] != link_id.0 {
                    kept_ids.push(entry.riders[w]);
                }
                w += 1;
            }
            proof {
                assert(riders_pre.subrange(0, riders_pre.len() as int) =~= riders_pre);
            }
            entry.riders = kept_ids;
        }
        let empty_now: bool = entry.steerer.is_none() && entry.riders.len() == 0;
        if empty_now {
            proof {
                lemma_mount_remove_lookup(mmap_pre, midx as int, l.mount);
                assert(riders_clause(mmap_pre, links_pre));
                assert forall|i2: int, j2: int|
                        0 <= i2 < self.mount_map@.len() && 0 <= j2 < (
                    #[trigger] self.mount_map@[i2]).1.riders@.len() implies rider_listed(
                        mmap_pre,
                        self.mount_map@[i2].0,
                        #[trigger] self.mount_map@[i2].1.riders@[j2],
                    ) by {
                        assert(self.mount_map@[i2] == (if i2 < midx as int {
                            mmap_pre[i2]
                        } else {
                            mmap_pre[i2 + 1]
                        }));
                        if i2 < midx as int {
                            assert(mmap_pre[i2].1.riders@[j2] == self.mount_map@[i2].1.riders@[j2]);
                        } else {
                            assert(mmap_pre[i2 + 1].1.riders@[j2] == self.mount_map@[i2].1.riders@[j2]);
                        }
                    }
                assert forall|i2: int, j2: int|
                    0 <= i2 < self.mount_map@.len() && (#[trigger] self.mount_map@[i2]).0
                        == l.mount && 0 <= j2 < self.mount_map@[i2].1.riders@.len() implies
                    #[trigger] self.mount_map@[i2].1.riders@[j2] != link_id.0 by {
                    assert(self.mount_map@[i2] == (if i2 < midx as int {
                        mmap_pre[i2]
                    } else {
                        mmap_pre[i2 + 1]
                    }));
                    assert(mmap_pre[midx as int].0 == l.mount);
                }
                lemma_riders_clause_after_removal(
                    mmap_pre,
                    self.mount_map@,
                    links_pre,
                    self.links@,
                    link_id.0,
                    l,
                );
            }
        } else {
            let ghost new_entry = entry;
            self.mount_map.insert(midx, (m, entry));
            proof {
                assert(self.mount_map@ =~= mmap_pre.update(midx as int, (m, new_entry)));
                lemma_mount_update_lookup(mmap_pre, self.mount_map@, midx as int, l.mount);
                assert(riders_clause(mmap_pre, links_pre));
                lemma_without_id_elems(old_riders, link_id.0);
                assert(mmap_pre[midx as int].1.riders@ == old_riders);
                assert(mmap_pre[midx as int].0 == l.mount);
                assert forall|i2: int, j2: int|
                        0 <= i2 < self.mount_map@.len() && 0 <= j2 < (
                    #[trigger] self.mount_map@[i2]).1.riders@.len() implies rider_listed(
                        mmap_pre,
                        self.mount_map@[i2].0,
                        #[trigger] self.mount_map@[i2].1.riders@[j2],
                    ) by {
                        if i2 == midx as int {
                            let rid = self.mount_map@[i2].1.riders@[j2];
                            if new_entry.riders@ == old_riders {
                                assert(mmap_pre[midx as int].1.riders@[j2] == rid);
                            } else {
                                assert(new_entry.riders@ == without_id(old_riders, link_id.0));
                                let j0 = choose|j0: int|
                                    0 <= j0 < old_riders.len() && old_riders[j0] == rid;
                                assert(mmap_pre[midx as int].1.riders@[j0] == rid);
                            }
                        } else {
                            assert(self.mount_map@[i2] == mmap_pre[i2]);
                            assert(mmap_pre[i2].1.riders@[j2] == self.mount_map@[i2].1.riders@[j2]);
                        }
                    }
                assert forall|i2: int, j2: int|
                    0 <= i2 < self.mount_map@.len() && (#[trigger] self.mount_map@[i2]).0
                        == l.mount && 0 <= j2 < self.mount_map@[i2].1.riders@.len() implies
                    #[trigger] self.mount_map@[i2].1.riders@[j2] != link_id.0 by {
                    if i2 == midx as int {
                        let rid = self.mount_map@[i2].1.riders@[j2];
                        if new_entry.riders@ == old_riders {
                            // the dissolved link steered; passenger ids never
                            // name a steering link
                            assert(mmap_pre[midx as int].1.riders@[j2] == rid);
                            if rid == link_id.0 {
                                assert(match link_lookup(links_pre, rid) {
                                    Some(l2) => !l2.is_steering,
                                    None => false,
                                });
                            }
                        } else {
                            assert(new_entry.riders@ == without_id(old_riders, link_id.0));
                        }
                    } else {
                        assert(self.mount_map@[i2] == mmap_pre[i2]);
                        assert(mmap_pre[i2].0 != mmap_pre[midx as int].0);
                    }
                }
                lemma_riders_clause_after_removal(
                    mmap_pre,
                    self.mount_map@,
                    links_pre,
                    self.links@,
                    link_id.0,
                    l,
                );
            }
        }
    }
}

proof fn lemma_rider_remove_lookup(pre: Seq<(Actor, u64)>, i: int, who: Actor)
    requires
        0 <= i < pre.len(),
        pre[i].0 == who,
        forall|a: int, b: int|
            0 <= a < b < pre.len() ==> (#[trigger] pre[a]).0 != (#[trigger] pre[b]).0,
    ensures
        rider_lookup(pre.remove(i), who) is None,
        forall|x: Actor| x != who ==> rider_lookup(pre.remove(i), x) == rider_lookup(pre, x),
        forall|a: int, b: int|
            0 <= a < b < pre.remove(i).len() ==> (#[trigger] pre.remove(i)[a]).0 != (
            #[trigger] pre.remove(i)[b]).0,
    decreases pre.len(),
{
    let post = pre.remove(i);
    assert forall|a: int, b: int|
        0 <= a < b < post.len() implies (#[trigger] post[a]).0 != (#[trigger] post[b]).0 by {
        assert(post[a] == (if a < i {
            pre[a]
        } else {
            pre[a + 1]
        }));
        assert(post[b] == (if b < i {
            pre[b]
        } else {
            pre[b + 1]
        }));
    }
    if i == 0 {
        assert(post =~= pre.skip(1));
        assert forall|j: int| 0 <= j < post.len() implies (#[trigger] post[j]).0 != who by {
            assert(post[j] == pre[j + 1]);
        }
        lemma_rider_lookup_none(post, who);
        assert forall|x: Actor| x != who implies rider_lookup(post, x) == rider_lookup(pre, x) by {
            assert(pre[0].0 == who);
            assert(post == pre.skip(1));
            assert(rider_lookup(pre, x) == rider_lookup(pre.skip(1), x));
        }
    } else {
        assert(post[0] == pre[0]);
        let tpre = pre.skip(1);
        assert(post.skip(1) =~= tpre.remove(i - 1));
        assert(tpre[i - 1] == pre[i]);
        assert forall|a: int, b: int|
            0 <= a < b < tpre.len() implies (#[trigger] tpre[a]).0 != (#[trigger] tpre[b]).0 by {
            assert(tpre[a] == pre[a + 1]);
            assert(tpre[b] == pre[b + 1]);
        }
        lemma_rider_remove_lookup(tpre, i - 1, who);
        assert(pre[0].0 != who);
        assert forall|x: Actor| x != who implies rider_lookup(post, x) == rider_lookup(pre, x) by {
            assert(post.len() == pre.len() - 1);
            if post[0].0 != x {
                assert(rider_lookup(post, x) == rider_lookup(post.skip(1), x));
                assert(rider_lookup(post.skip(1), x) == rider_lookup(tpre.remove(i - 1), x));
                assert(rider_lookup(tpre.remove(i - 1), x) == rider_lookup(tpre, x));
                assert(rider_lookup(pre, x) == rider_lookup(tpre, x));
            } else {
                assert(rider_lookup(post, x) == Some(post[0].1));
                assert(rider_lookup(pre, x) == Some(pre[0].1));
            }
        }
    }
}

proof fn lemma_link_remove_lookup(pre: Seq<(u64, NpcLink)>, i: int, id: u64)
    requires
        0 <= i < pre.len(),
        pre[i].0 == id,
        forall|a: int, b: int|
            0 <= a < b < pre.len() ==> (#[trigger] pre[a]).0 != (#[trigger] pre[b]).0,
    ensures
        link_lookup(pre.remove(i), id) is None,
        forall|x: u64| x != id ==> link_lookup(pre.remove(i), x) == link_lookup(pre, x),
        forall|a: int, b: int|
            0 <= a < b < pre.remove(i).len() ==> (#[trigger] pre.remove(i)[a]).0 != (
            #[trigger] pre.remove(i)[b]).0,
    decreases pre.len(),
{
    let post = pre.remove(i);
    assert forall|a: int, b: int|
        0 <= a < b < post.len() implies (#[trigger] post[a]).0 != (#[trigger] post[b]).0 by {
        assert(post[a] == (if a < i {
            pre[a]
        } else {
            pre[a + 1]
        }));
        assert(post[b] == (if b < i {
            pre[b]
        } else {
            pre[b + 1]
        }));
    }
    if i == 0 {
        assert(post =~= pre.skip(1));
        assert forall|j: int| 0 <= j < post.len() implies (#[trigger] post[j]).0 != id by {
            assert(post[j] == pre[j + 1]);
        }
        lemma_link_lookup_none(post, id);
        assert forall|x: u64| x != id implies link_lookup(post, x) == link_lookup(pre, x) by {
            assert(pre[0].0 == id);
            assert(post == pre.skip(1));
            assert(link_lookup(pre, x) == link_lookup(pre.skip(1), x));
        }
    } else {
        assert(post[0] == pre[0]);
        let tpre = pre.skip(1);
        assert(post.skip(1) =~= tpre.remove(i - 1));
        assert(tpre[i - 1] == pre[i]);
        assert forall|a: int, b: int|
            0 <= a < b < tpre.len() implies (#[trigger] tpre[a]).0 != (#[trigger] tpre[b]).0 by {
            assert(tpre[a] == pre[a + 1]);
            assert(tpre[b] == pre[b + 1]);
        }
        lemma_link_remove_lookup(tpre, i - 1, id);
        assert(pre[0].0 != id);
        assert forall|x: u64| x != id implies link_lookup(post, x) == link_lookup(pre, x) by {
            assert(post.len() == pre.len() - 1);
            if post[0].0 != x {
                assert(link_lookup(post, x) == link_lookup(post.skip(1), x));
                assert(link_lookup(post.skip(1), x) == link_lookup(tpre.remove(i - 1), x));
                assert(link_lookup(tpre.remove(i - 1), x) == link_lookup(tpre, x));
                assert(link_lookup(pre, x) == link_lookup(tpre, x));
            } else {
                assert(link_lookup(post, x) == Some(post[0].1));
                assert(link_lookup(pre, x) == Some(pre[0].1));
            }
        }
    }
}

proof fn lemma_mount_remove_lookup(pre: Seq<(u64, Riders)>, i: int, m: u64)
    requires
        0 <= i < pre.len(),
        pre[i].0 == m,
        forall|a: int, b: int|
            0 <= a < b < pre.len() ==> (#[trigger] pre[a]).0 != (#[trigger] pre[b]).0,
    ensures
        !mount_has_entry(pre.remove(i), m),
        steerer_lookup(pre.remove(i), m) is None,
        mount_entry_lookup(pre.remove(i), m) is None,
        forall|x: u64|
            x != m ==> steerer_lookup(pre.remove(i), x) == steerer_lookup(pre, x)
                && mount_has_entry(pre.remove(i), x) == mount_has_entry(pre, x)
                && mount_entry_lookup(pre.remove(i), x) == mount_entry_lookup(pre, x),
        forall|a: int, b: int|
            0 <= a < b < pre.remove(i).len() ==> (#[trigger] pre.remove(i)[a]).0 != (
            #[trigger] pre.remove(i)[b]).0,
    decreases pre.len(),
{
    let post = pre.remove(i);
    assert forall|a: int, b: int|
        0 <= a < b < post.len() implies (#[trigger] post[a]).0 != (#[trigger] post[b]).0 by {
        assert(post[a] == (if a < i {
            pre[a]
        } else {
            pre[a + 1]
        }));
        assert(post[b] == (if b < i {
            pre[b]
        } else {
            pre[b + 1]
        }));
    }
    if i == 0 {
        assert(post =~= pre.skip(1));
        assert forall|j: int| 0 <= j < post.len() implies (#[trigger] post[j]).0 != m by {
            assert(post[j] == pre[j + 1]);
        }
        lemma_steerer_lookup_none(post, m);
        lemma_mount_entry_lookup_none(post, m);
        assert forall|x: u64|
            x != m implies steerer_lookup(post, x) == steerer_lookup(pre, x) && mount_has_entry(
            post,
            x,
        ) == mount_has_entry(pre, x) && mount_entry_lookup(post, x) == mount_entry_lookup(
            pre,
            x,
        ) by {
            assert(pre[0].0 == m);
            assert(post == pre.skip(1));
            assert(steerer_lookup(pre, x) == steerer_lookup(pre.skip(1), x));
            assert(mount_has_entry(pre, x) == mount_has_entry(pre.skip(1), x));
            assert(mount_entry_lookup(pre, x) == mount_entry_lookup(pre.skip(1), x));
        }
    } else {
        assert(post[0] == pre[0]);
        let tpre = pre.skip(1);
        assert(post.skip(1) =~= tpre.remove(i - 1));
        assert(tpre[i - 1] == pre[i]);
        assert forall|a: int, b: int|
            0 <= a < b < tpre.len() implies (#[trigger] tpre[a]).0 != (#[trigger] tpre[b]).0 by {
            assert(tpre[a] == pre[a + 1]);
            assert(tpre[b] == pre[b + 1]);
        }
        lemma_mount_remove_lookup(tpre, i - 1, m);
        assert(pre[0].0 != m);
        assert forall|x: u64|
            x != m implies steerer_lookup(post, x) == steerer_lookup(pre, x) && mount_has_entry(
            post,
            x,
        ) == mount_has_entry(pre, x) && mount_entry_lookup(post, x) == mount_entry_lookup(
            pre,
            x,
        ) by {
            assert(post.len() == pre.len() - 1);
            if post[0].0 != x {
                assert(steerer_lookup(post, x) == steerer_lookup(post.skip(1), x));
                assert(steerer_lookup(post.skip(1), x) == steerer_lookup(tpre.remove(i - 1), x));
                assert(steerer_lookup(tpre.remove(i - 1), x) == steerer_lookup(tpre, x));
                assert(steerer_lookup(pre, x) == steerer_lookup(tpre, x));
                assert(mount_has_entry(post, x) == mount_has_entry(post.skip(1), x));
                assert(mount_has_entry(post.skip(1), x) == mount_has_entry(tpre.remove(i - 1), x));
                assert(mount_has_entry(tpre.remove(i - 1), x) == mount_has_entry(tpre, x));
                assert(mount_has_entry(pre, x) == mount_has_entry(tpre, x));
                assert(mount_entry_lookup(post, x) == mount_entry_lookup(post.skip(1), x));
                assert(mount_entry_lookup(post.skip(1), x) == mount_entry_lookup(
                    tpre.remove(i - 1),
                    x,
                ));
                assert(mount_entry_lookup(tpre.remove(i - 1), x) == mount_entry_lookup(tpre, x));
                assert(mount_entry_lookup(pre, x) == mount_entry_lookup(tpre, x));
            } else {
                assert(steerer_lookup(post, x) == post[0].1.steerer);
                assert(steerer_lookup(pre, x) == pre[0].1.steerer);
                assert(mount_has_entry(post, x));
                assert(mount_has_entry(pre, x));
                assert(mount_entry_lookup(post, x) == Some((post[0].1.steerer, post[0].1.riders@)));
                assert(mount_entry_lookup(pre, x) == Some((pre[0].1.steerer, pre[0].1.riders@)));
            }
        }
    }
}

proof fn lemma_mount_entry_lookup_at(s: Seq<(u64, Riders)>, m: u64, i: int)
    requires
        0 <= i < s.len(),
        s[i].0 == m,
        forall|x: int, y: int|
            0 <= x < y < s.len() ==> (#[trigger] s[x]).0 != (#[trigger] s[y]).0,
    ensures
        mount_entry_lookup(s, m) == Some((s[i].1.steerer, s[i].1.riders@)),
    decreases s.len(),
{
    if i > 0 {
        let t = s.skip(1);
        assert(t[i - 1] == s[i]);
        assert forall|x: int, y: int|
            0 <= x < y < t.len() implies (#[trigger] t[x]).0 != (#[trigger] t[y]).0 by {
            assert(t[x] == s[x + 1]);
            assert(t[y] == s[y + 1]);
        }
        lemma_mount_entry_lookup_at(t, m, i - 1);
    }
}

proof fn lemma_mount_entry_lookup_none(s: Seq<(u64, Riders)>, m: u64)
    requires
        forall|j: int| 0 <= j < s.len() ==> (#[trigger] s[j]).0 != m,
    ensures
        mount_entry_lookup(s, m) is None,
    decreases s.len(),
{
    if s.len() > 0 {
        let t = s.skip(1);
        assert forall|j: int| 0 <= j < t.len() implies (#[trigger] t[j]).0 != m by {
            assert(t[j] == s[j + 1]);
        }
        lemma_mount_entry_lookup_none(t, m);
    }
}

impl NpcLinks {
    /// Remove a mount outright: every link of its entry dissolves through the
    /// validated removal path, every former rider is freed, and other mounts'
    /// entries, steerers and riders are untouched.
    #[verifier::rlimit(100)]
    #[verifier::spinoff_prover]
    pub fn remove_mount(&mut self, mount: u64)
        requires
            old(self).wf(),
        ensures
            final(self).wf(),
            !final(self).has_mount_entry(mount),
            final(self).steerer_of(mount) is None,
            forall|m2: u64|
                m2 != mount ==> mount_entry_lookup(final(self).mount_map@, m2)
                    == mount_entry_lookup(old(self).mount_map@, m2) && final(self).steerer_of(m2)
                    == old(self).steerer_of(m2) && final(self).has_mount_entry(m2) == old(
                    self,
                ).has_mount_entry(m2),
            ({
                match mount_entry_lookup(old(self).mount_map@, mount) {
                    Some(entry) => {
                        &&& (match entry.0 {
                            Some(sid) => final(self).link_of(sid) is None && (match old(
                                self,
                            ).link_of(sid) {
                                Some(l) => final(self).rider_link_of(l.rider) is None,
                                None => true,
                            }),
                            None => true,
                        })
                        &&& (forall|j: int|
                            0 <= j < entry.1.len() ==> final(self).link_of(
                                #[trigger] entry.1[j],
                            ) is None && (match old(self).link_of(entry.1[j]) {
                                Some(l) => final(self).rider_link_of(l.rider) is None,
                                None => true,
                            }))
                    },
                    None => *final(self) == *old(self),
                }
            }),
    {
        let midx = match self.mount_index(mount) {
            Some(i) => i,
            None => {
                proof {
                    lemma_steerer_lookup_none(self.mount_map@, mount);
                    lemma_mount_entry_lookup_none(self.mount_map@, mount);
                }
                return ;
            },
        };
        proof {
            lemma_mount_entry_lookup_at(self.mount_map@, mount, midx as int);
        }
        let ghost st0 = self.mount_map@[midx as int].1.steerer;
        let ghost riders0 = self.mount_map@[midx as int].1.riders@;
        // Collect the entry's link ids, then dissolve each through the
        // validated removal path.
        let mut ids: Vec<u64> = Vec::new();
        match self.mount_map[midx].1.steerer {
            Some(s) => {
                ids.push(s);
            },
            None => {},
        }
        let ghost off = ids@.len();
        let mut k: usize = 0;
        while k < self.mount_map[midx].1.riders.len()
            invariant
                self.wf(),
                self == old(self),
                midx < self.mount_map@.len(),
                self.mount_map@[midx as int].1.riders@ == riders0,
                k <= riders0.len(),
                off <= 1,
                ids@.len() == off + k,
                ids@.subrange(off as int, ids@.len() as int) == riders0.subrange(0, k as int),
                off == 1 ==> st0 == Some(ids@[0]),
                off == 0 ==> st0 is None,
            decreases riders0.len() - k,
        {
            ids.push(self.mount_map[midx].1.riders[k]);
            proof {
                assert(ids@.subrange(off as int, ids@.len() as int) =~= riders0.subrange(
                    0,
                    k + 1,
                ));
            }
            k += 1;
        }
        proof {
            assert(riders0.subrange(0, riders0.len() as int) =~= riders0);
            // every collected id names a link of this mount, by the index
            // soundness of the old state
            assert forall|q: int|
                0 <= q < ids@.len() implies (match link_lookup(
                old(self).links@,
                #[trigger] ids@[q],
            ) {
                Some(l) => l.mount == mount,
                None => false,
            }) by {
                if q < off as int {
                    assert(old(self).mount_map@[midx as int].1.steerer == Some(ids@[q]));
                } else {
                    assert(ids@[q] == riders0[q - off]);
                    assert(old(self).mount_map@[midx as int].1.riders@[q - off] == ids@[q]);
                }
            }
        }
        let mut j: usize = 0;
        while j < ids.len()
            invariant
                self.wf(),
                j <= ids@.len(),
                forall|q: int|
                    0 <= q < ids@.len() ==> (match link_lookup(
                        old(self).links@,
                        #[trigger] ids@[q],
                    ) {
                        Some(l) => l.mount == mount,
                        None => false,
                    }),
                forall|m2: u64|
                    m2 != mount ==> mount_entry_lookup(self.mount_map@, m2) == mount_entry_lookup(
                        old(self).mount_map@,
                        m2,
                    ) && steerer_lookup(self.mount_map@, m2) == steerer_lookup(
                        old(self).mount_map@,
                        m2,
                    ) && mount_has_entry(self.mount_map@, m2) == mount_has_entry(
                        old(self).mount_map@,
                        m2,
                    ),
                forall|q: int| 0 <= q < j ==> link_lookup(self.links@, #[trigger] ids@[q]) is None,
                forall|x: u64|
                    link_lookup(self.links@, x) is Some ==> link_lookup(self.links@, x)
                        == link_lookup(old(self).links@, x),
                forall|x: u64|
                    link_lookup(old(self).links@, x) is Some && link_lookup(self.links@, x)
                        is None ==> (match link_lookup(old(self).links@, x) {
                        Some(l) => rider_lookup(self.rider_map@, l.rider) is None,
                        None => true,
                    }),
            decreases ids@.len() - j,
        {
            let idv: u64 = ids[j];
            let ghost pre_iter = *self;
            self.remove_link(MountId(idv));
            proof {
                assert(pre_iter.link_of(idv) == link_lookup(pre_iter.links@, idv));
                if pre_iter.link_of(idv) is Some {
                    let l_removed = pre_iter.link_of(idv)->0;
                    assert(l_removed == link_lookup(old(self).links@, idv)->0);
                    assert(l_removed.mount == mount);
                } else {
                    assert(*self == pre_iter);
                }
                // the untouched mounts stay untouched through this pass
                assert forall|m2: u64|
                    m2 != mount implies mount_entry_lookup(self.mount_map@, m2)
                    == mount_entry_lookup(old(self).mount_map@, m2) && steerer_lookup(
                    self.mount_map@,
                    m2,
                ) == steerer_lookup(old(self).mount_map@, m2) && mount_has_entry(
                    self.mount_map@,
                    m2,
                ) == mount_has_entry(old(self).mount_map@, m2) by {
                    if pre_iter.link_of(idv) is Some {
                        let lr = pre_iter.link_of(idv)->0;
                        assert(lr.mount == mount);
                        assert(self.steerer_of(m2) == pre_iter.steerer_of(m2));
                        assert(self.has_mount_entry(m2) == pre_iter.has_mount_entry(m2));
                    }
                }
                // surviving links keep their original records
                assert forall|x: u64|
                    link_lookup(self.links@, x) is Some implies link_lookup(self.links@, x)
                    == link_lookup(old(self).links@, x) by {
                    assert(self.link_of(x) == link_lookup(self.links@, x));
                    assert(pre_iter.link_of(x) == link_lookup(pre_iter.links@, x));
                    if pre_iter.link_of(idv) is Some && x != idv {
                        assert(self.link_of(x) == pre_iter.link_of(x));
                    }
                }
                // every id handled so far names no stored link any more
                assert forall|q: int|
                    0 <= q < j + 1 implies link_lookup(self.links@, #[trigger] ids@[q])
                    is None by {
                    assert(self.link_of(ids@[q]) == link_lookup(self.links@, ids@[q]));
                    if q < j {
                        if ids@[q] != idv {
                            assert(self.link_of(ids@[q]) == pre_iter.link_of(ids@[q]));
                            assert(pre_iter.link_of(ids@[q]) == link_lookup(
                                pre_iter.links@,
                                ids@[q],
                            ));
                        }
                    }
                }
                assert forall|x: u64|
                    link_lookup(old(self).links@, x) is Some && link_lookup(self.links@, x)
                        is None implies (match link_lookup(old(self).links@, x) {
                    Some(l) => rider_lookup(self.rider_map@, l.rider) is None,
                    None => true,
                }) by {
                    let l = link_lookup(old(self).links@, x)->0;
                    assert(self.link_of(x) == link_lookup(self.links@, x));
                    assert(pre_iter.link_of(x) == link_lookup(pre_iter.links@, x));
                    if link_lookup(pre_iter.links@, x) is None {
                        // freed in an earlier pass; freedom is preserved
                        assert(rider_lookup(pre_iter.rider_map@, l.rider) is None);
                        if pre_iter.link_of(idv) is Some {
                            let lr = pre_iter.link_of(idv)->0;
                            assert(pre_iter.rider_link_of(l.rider) == rider_lookup(
                                pre_iter.rider_map@,
                                l.rider,
                            ));
                            assert(self.rider_link_of(l.rider) == rider_lookup(
                                self.rider_map@,
                                l.rider,
                            ));
                            if l.rider != lr.rider {
                                assert(rider_lookup(self.rider_map@, l.rider) == rider_lookup(
                                    pre_iter.rider_map@,
                                    l.rider,
                                ));
                            }
                        }
                    } else {
                        // freed by this pass
                        assert(x == idv);
                        assert(link_lookup(pre_iter.links@, x) == link_lookup(
                            old(self).links@,
                            x,
                        ));
                        assert(pre_iter.link_of(idv) is Some);
                        let lr = pre_iter.link_of(idv)->0;
                        assert(self.rider_link_of(lr.rider) == rider_lookup(
                            self.rider_map@,
                            lr.rider,
                        ));
                    }
                }
            }
            j += 1;
        }
        // Whatever is left of the entry goes too.
        match self.mount_index(mount) {
            Some(i) => {
                let ghost pre = self.mount_map@;
                let _gone = self.mount_map.remove(i);
                proof {
                    lemma_mount_remove_lookup(pre, i as int, mount);
                    assert forall|a: int|
                        0 <= a < self.mount_map@.len() implies (match (
                    #[trigger] self.mount_map@[a]).1.steerer {
                        Some(sid) => (match link_lookup(self.links@, sid) {
                            Some(l) => l.mount == self.mount_map@[a].0 && l.is_steering,
                            None => false,
                        }),
                        None => true,
                    }) && rider_lookup(self.rider_map@, Actor::Npc(self.mount_map@[a].0))
                        is None by {
                        assert(self.mount_map@[a] == (if a < i {
                            pre[a]
                        } else {
                            pre[a + 1]
                        }));
                    }
                    assert forall|a: int, b: int|
                        0 <= a < self.mount_map@.len() && 0 <= b < (
                    #[trigger] self.mount_map@[a]).1.riders@.len() implies (match link_lookup(
                        self.links@,
                        #[trigger] self.mount_map@[a].1.riders@[b],
                    ) {
                        Some(l) => l.mount == self.mount_map@[a].0 && !l.is_steering,
                        None => false,
                    }) by {
                        assert(self.mount_map@[a] == (if a < i {
                            pre[a]
                        } else {
                            pre[a + 1]
                        }));
                        if a < i {
                            assert(pre[a].1.riders@[b] == self.mount_map@[a].1.riders@[b]);
                        } else {
                            assert(pre[a + 1].1.riders@[b] == self.mount_map@[a].1.riders@[b]);
                        }
                    }
                }
            },
            None => {
                proof {
                    lemma_steerer_lookup_none(self.mount_map@, mount);
                    lemma_mount_entry_lookup_none(self.mount_map@, mount);
                }
            },
        }
        proof {
            // the collected ids cover the old entry's steerer and riders
            match st0 {
                Some(sid) => {
                    assert(ids@[0] == sid);
                },
                None => {},
            }
            assert forall|j2: int|
                0 <= j2 < riders0.len() implies link_lookup(
                self.links@,
                #[trigger] riders0[j2],
            ) is None && (match link_lookup(old(self).links@, riders0[j2]) {
                Some(l) => rider_lookup(self.rider_map@, l.rider) is None,
                None => true,
            }) by {
                assert(ids@[off + j2] == riders0[j2]);
            }
        }
    }
}

} // verus!
