//! Membership bookkeeping of a level-of-detail room.
//!
//! A LOD room has a base level and may hold nested rooms for the more
//! detailed levels (made all at once by [`LodRoomMembers::with_nested_levels`]).
//! Each present level has its own members. A player is added at the level
//! that the room's geometry picks for its position; where the room has no
//! room at that level, the player is not added. Removing a player removes it
//! from every level. Emptying out lets `optimize` drop nested rooms that have
//! no members; the base room always stays.

use crate::lod::LodLevel;
use crate::types::PlayerId;
use vstd::prelude::*;

verus! {

/// Number of detail levels.
pub const LOD_LEVELS: usize = 5;

/// The detail step of a level (0 is `Ultra`, 4 is `Minimal`).
fn step_of(l: LodLevel) -> (s: usize)
    ensures
        s == l.spec_step(),
{
    match l {
        LodLevel::Ultra => 0,
        LodLevel::High => 1,
        LodLevel::Medium => 2,
        LodLevel::Low => 3,
        LodLevel::Minimal => 4,
    }
}

/// Whether a list of players names `p`.
fn lists_player(players: &Vec<PlayerId>, p: PlayerId) -> (b: bool)
    ensures
        b == players@.contains(p),
{
    let mut i: usize = 0;
    while i < players.len()
        invariant
            i <= players@.len(),
            forall|j: int| 0 <= j < i ==> players@[j] != p,
        decreases players@.len() - i,
    {
        if players[i] == p {
            return true;
        }
        i = i + 1;
    }
    false
}

/// Whether a level has a room without members.
pub open spec fn spec_empty_room(r: Option<Set<PlayerId>>) -> bool {
    r matches Some(m) && m.is_empty()
}

/// Whether a level has a room and `p` is among its members.
pub open spec fn spec_room_has(r: Option<Set<PlayerId>>, p: PlayerId) -> bool {
    r matches Some(m) && m.contains(p)
}

/// Whether some level below step `k` has `p` among its members.
pub open spec fn spec_member_below(rooms: Seq<Option<Set<PlayerId>>>, k: int, p: PlayerId) -> bool {
    exists|t: int| 0 <= t < k && #[trigger] spec_room_has(rooms[t], p)
}

/// The members of a LOD room and of its nested rooms, by level.
pub struct LodRoomMembers {
    base: LodLevel,
    rooms: Vec<Option<Vec<PlayerId>>>,
}

/// Total number of members over the rooms at steps below `k`.
pub open spec fn spec_member_total(rooms: Seq<Option<Set<PlayerId>>>, k: int) -> nat
    decreases k,
{
    if k <= 0 {
        0
    } else {
        spec_member_total(rooms, k - 1) + match rooms[k - 1] {
            Some(m) => m.len(),
            None => 0,
        }
    }
}

impl LodRoomMembers {
    /// The base level of the room.
    pub closed spec fn base_level(&self) -> LodLevel {
        self.base
    }

    /// The members at each detail step (`None` where the room has no room at
    /// that level).
    pub closed spec fn rooms_view(&self) -> Seq<Option<Set<PlayerId>>> {
        Seq::new(
            LOD_LEVELS as nat,
            |s: int|
                match self.rooms@[s] {
                    Some(v) => Some(v@.to_set()),
                    None => None,
                },
        )
    }

    /// The members at a level, if the room has a room at that level.
    pub open spec fn level(&self, l: LodLevel) -> Option<Set<PlayerId>> {
        self.rooms_view()[l.spec_step()]
    }

    /// There is a slot per level, the base room is present, nested rooms
    /// are only at more detailed levels, and no member is listed twice.
    pub closed spec fn wf(&self) -> bool {
        &&& self.rooms@.len() == LOD_LEVELS
        &&& self.rooms@[self.base.spec_step()] is Some
        &&& forall|s: int| 0 <= s < LOD_LEVELS && self.rooms@[s] is Some ==> s <= self.base.spec_step()
        &&& forall|s: int| 0 <= s < LOD_LEVELS && #[trigger] self.rooms@[s] is Some ==> self.rooms@[s]->0@.no_duplicates()
    }

    /// A room at `base` with no nested rooms and no members.
    pub fn new(base: LodLevel) -> (r: Self)
        ensures
            r.wf(),
            r.base_level() == base,
            forall|l: LodLevel| #[trigger] r.level(l) == if l == base {
                Some(Set::<PlayerId>::empty())
            } else {
                None
            },
    {
        let b = step_of(base);
        let mut rooms: Vec<Option<Vec<PlayerId>>> = Vec::new();
        let mut i: usize = 0;
        while i < LOD_LEVELS
            invariant
                i <= LOD_LEVELS,
                b == base.spec_step(),
                rooms@.len() == i,
                forall|s: int| 0 <= s < i ==> (#[trigger] rooms@[s] is Some) == (s == b),
                forall|s: int| 0 <= s < i && s == b ==> (#[trigger] rooms@[s])->0@ == Seq::<PlayerId>::empty(),
            decreases LOD_LEVELS - i,
        {
            if i == b {
                rooms.push(Some(Vec::new()));
            } else {
                rooms.push(None);
            }
            i = i + 1;
        }
        let r = LodRoomMembers { base, rooms };
        proof {
            assert forall|l: LodLevel| #[trigger] r.level(l) == if l == base {
                Some(Set::<PlayerId>::empty())
            } else {
                None
            } by {
                if l == base {
                    assert(r.rooms@[b as int]->0@.to_set() =~= Set::<PlayerId>::empty());
                }
            }
        }
        r
    }

    /// A room at `base` with an empty nested room at every more detailed
    /// level.
    pub fn with_nested_levels(base: LodLevel) -> (r: Self)
        ensures
            r.wf(),
            r.base_level() == base,
            forall|l: LodLevel| #[trigger] r.level(l) == if l.spec_step() <= base.spec_step() {
                Some(Set::<PlayerId>::empty())
            } else {
                None
            },
    {
        let b = step_of(base);
        let mut rooms: Vec<Option<Vec<PlayerId>>> = Vec::new();
        let mut i: usize = 0;
        while i < LOD_LEVELS
            invariant
                i <= LOD_LEVELS,
                b == base.spec_step(),
                rooms@.len() == i,
                forall|s: int| 0 <= s < i ==> (#[trigger] rooms@[s] is Some) == (s <= b),
                forall|s: int| 0 <= s < i && s <= b ==> (#[trigger] rooms@[s])->0@ == Seq::<PlayerId>::empty(),
            decreases LOD_LEVELS - i,
        {
            if i <= b {
                rooms.push(Some(Vec::new()));
            } else {
                rooms.push(None);
            }
            i = i + 1;
        }
        let r = LodRoomMembers { base, rooms };
        proof {
            assert forall|l: LodLevel| #[trigger] r.level(l) == if l.spec_step() <= base.spec_step() {
                Some(Set::<PlayerId>::empty())
            } else {
                None
            } by {
                let s = l.spec_step();
                if s <= b {
                    assert(r.rooms@[s]->0@.to_set() =~= Set::<PlayerId>::empty());
                }
            }
        }
        r
    }

    /// Adds a player at the level the room's geometry picked for it; where
    /// the room has no room at that level, nothing changes.
    pub fn add_member(&mut self, player_id: PlayerId, target: LodLevel)
        requires
            old(self).wf(),
        ensures
            final(self).wf(),
            final(self).base_level() == old(self).base_level(),
            forall|l: LodLevel| #[trigger] final(self).level(l) == if l == target {
                match old(self).level(l) {
                    Some(m) => Some(m.insert(player_id)),
                    None => None,
                }
            } else {
                old(self).level(l)
            },
    {
        let s = step_of(target);
        let ghost old_rooms = self.rooms@;
        if self.rooms[s].is_some() {
            let mut list = match self.rooms.remove(s) {
                Some(v) => v,
                None => Vec::new(),
            };
            let ghost before = list@;
            if !lists_player(&list, player_id) {
                list.push(player_id);
                proof {
                    assert forall|x: PlayerId| list@.contains(x) <==> (before.contains(x) || x == player_id) by {
                        if list@.contains(x) && x != player_id {
                            let k = choose|k: int| 0 <= k < list@.len() && list@[k] == x;
                            assert(before[k] == x);
                        }
                        if before.contains(x) {
                            let k = choose|k: int| 0 <= k < before.len() && before[k] == x;
                            assert(list@[k] == x);
                        }
                        if x == player_id {
                            assert(list@[list@.len() - 1] == x);
                        }
                    }
                }
            }
            self.rooms.insert(s, Some(list));
            proof {
                assert(self.rooms@ =~= old_rooms.update(s as int, Some(list)));
                assert(list@.to_set() =~= before.to_set().insert(player_id));
                assert(list@.no_duplicates()) by {
                    if list@.len() > before.len() {
                        assert forall|a: int, c: int| 0 <= a < c < list@.len() implies list@[a] != list@[c] by {
                            if c == list@.len() - 1 {
                                assert(before[a] == list@[a]);
                            }
                        }
                    }
                }
                assert forall|l: LodLevel| #[trigger] self.level(l) == if l == target {
                    match old(self).level(l) {
                        Some(m) => Some(m.insert(player_id)),
                        None => None,
                    }
                } else {
                    old(self).level(l)
                } by {
                    if l != target {
                        assert(l.spec_step() != target.spec_step());
                    }
                }
            }
        } else {
            proof {
                assert forall|l: LodLevel| #[trigger] self.level(l) == if l == target {
                    match old(self).level(l) {
                        Some(m) => Some(m.insert(player_id)),
                        None => None,
                    }
                } else {
                    old(self).level(l)
                } by {}
            }
        }
    }

    /// Removes a player from every level.
    pub fn remove_member(&mut self, player_id: PlayerId)
        requires
            old(self).wf(),
        ensures
            final(self).wf(),
            final(self).base_level() == old(self).base_level(),
            forall|l: LodLevel| #[trigger] final(self).level(l) == match old(self).level(l) {
                Some(m) => Some(m.remove(player_id)),
                None => None,
            },
    {
        let mut s: usize = 0;
        while s < LOD_LEVELS
            invariant
                s <= LOD_LEVELS,
                self.wf(),
                self.base == old(self).base,
                forall|t: int| 0 <= t < LOD_LEVELS ==> (#[trigger] self.rooms@[t] is Some) == (old(self).rooms@[t] is Some),
                forall|t: int| 0 <= t < LOD_LEVELS ==> #[trigger] self.rooms_view()[t] == if t < s {
                    match old(self).rooms_view()[t] {
                        Some(m) => Some(m.remove(player_id)),
                        None => None,
                    }
                } else {
                    old(self).rooms_view()[t]
                },
            decreases LOD_LEVELS - s,
        {
            if self.rooms[s].is_some() {
                let ghost rooms_before = self.rooms@;
                let ghost view_before = self.rooms_view();
                let list = match self.rooms.remove(s) {
                    Some(v) => v,
                    None => Vec::new(),
                };
                let mut kept: Vec<PlayerId> = Vec::new();
                let mut i: usize = 0;
                while i < list.len()
                    invariant
                        i <= list@.len(),
                        list@.no_duplicates(),
                        kept@.no_duplicates(),
                        forall|x: PlayerId| #[trigger] kept@.contains(x) <==> (list@.take(i as int).contains(x) && x != player_id),
                    decreases list@.len() - i,
                {
                    let q = list[i];
                    let ghost old_kept = kept@;
                    proof {
                        assert(list@.take(i + 1) =~= list@.take(i as int).push(q));
                        assert forall|x: PlayerId| #[trigger] list@.take(i + 1).contains(x) <==> (list@.take(i as int).contains(x) || x == q) by {
                            if list@.take(i + 1).contains(x) && x != q {
                                let k = choose|k: int| 0 <= k < i + 1 && #[trigger] list@.take(i + 1)[k] == x;
                                assert(list@.take(i as int)[k] == x);
                            }
                            if list@.take(i as int).contains(x) {
                                let k = choose|k: int| 0 <= k < i && #[trigger] list@.take(i as int)[k] == x;
                                assert(list@.take(i + 1)[k] == x);
                            }
                            if x == q {
                                assert(list@.take(i + 1)[i as int] == x);
                            }
                        }
                        assert(!list@.take(i as int).contains(q)) by {
                            if list@.take(i as int).contains(q) {
                                let k = choose|k: int| 0 <= k < i && #[trigger] list@.take(i as int)[k] == q;
                                assert(list@[k] == list@[i as int]);
                            }
                        }
                    }
                    if q != player_id {
                        kept.push(q);
                        proof {
                            assert forall|x: PlayerId| #[trigger] kept@.contains(x) <==> (old_kept.contains(x) || x == q) by {
                                if kept@.contains(x) && x != q {
                                    let k = choose|k: int| 0 <= k < kept@.len() && kept@[k] == x;
                                    assert(old_kept[k] == x);
                                }
                                if old_kept.contains(x) {
                                    let k = choose|k: int| 0 <= k < old_kept.len() && old_kept[k] == x;
                                    assert(kept@[k] == x);
                                }
                                if x == q {
                                    assert(kept@[kept@.len() - 1] == x);
                                }
                            }
                            assert forall|a: int, c: int| 0 <= a < c < kept@.len() implies kept@[a] != kept@[c] by {
                                if c == kept@.len() - 1 {
                                    assert(old_kept[a] == kept@[a]);
                                    assert(old_kept.contains(old_kept[a]));
                                } else {
                                    assert(old_kept[a] == kept@[a] && old_kept[c] == kept@[c]);
                                }
                            }
                        }
                    }
                    i = i + 1;
                }
                proof {
                    assert(list@.take(list@.len() as int) =~= list@);
                    assert(kept@.to_set() =~= list@.to_set().remove(player_id));
                }
                self.rooms.insert(s, Some(kept));
                proof {
                    assert(self.rooms@ =~= rooms_before.update(s as int, Some(kept)));
                    assert forall|t: int| 0 <= t < LOD_LEVELS implies #[trigger] self.rooms_view()[t] == if t < s + 1 {
                        match old(self).rooms_view()[t] {
                            Some(m) => Some(m.remove(player_id)),
                            None => None,
                        }
                    } else {
                        old(self).rooms_view()[t]
                    } by {
                        assert(view_before[t] == if t < s {
                            match old(self).rooms_view()[t] {
                                Some(m) => Some(m.remove(player_id)),
                                None => None,
                            }
                        } else {
                            old(self).rooms_view()[t]
                        });
                    }
                }
            } else {
                proof {
                    assert forall|t: int| 0 <= t < LOD_LEVELS implies #[trigger] self.rooms_view()[t] == if t < s + 1 {
                        match old(self).rooms_view()[t] {
                            Some(m) => Some(m.remove(player_id)),
                            None => None,
                        }
                    } else {
                        old(self).rooms_view()[t]
                    } by {
                        if t == s {
                            assert(old(self).rooms@[t] is None);
                        }
                    }
                }
            }
            s = s + 1;
        }
    }

    /// Moves a player to the level the room's geometry picked for its new
    /// position: it leaves every level, then joins the room at `target` (if
    /// the room has one).
    pub fn update_member_position(&mut self, player_id: PlayerId, target: LodLevel)
        requires
            old(self).wf(),
        ensures
            final(self).wf(),
            final(self).base_level() == old(self).base_level(),
            forall|l: LodLevel| #[trigger] final(self).level(l) == match old(self).level(l) {
                Some(m) => Some(if l == target {
                    m.remove(player_id).insert(player_id)
                } else {
                    m.remove(player_id)
                }),
                None => None,
            },
    {
        let ghost before = *self;
        self.remove_member(player_id);
        let ghost middle = *self;
        self.add_member(player_id, target);
        proof {
            assert forall|l: LodLevel| #[trigger] self.level(l) == match before.level(l) {
                Some(m) => Some(if l == target {
                    m.remove(player_id).insert(player_id)
                } else {
                    m.remove(player_id)
                }),
                None => None,
            } by {
                assert(middle.level(l) == match before.level(l) {
                    Some(m) => Some(m.remove(player_id)),
                    None => None,
                });
            }
        }
    }

    /// Drops the nested rooms that have no members; the base room stays.
    pub fn optimize(&mut self)
        requires
            old(self).wf(),
        ensures
            final(self).wf(),
            final(self).base_level() == old(self).base_level(),
            forall|l: LodLevel| #[trigger] final(self).level(l) == if l != old(self).base_level() && spec_empty_room(old(self).level(l)) {
                None
            } else {
                old(self).level(l)
            },
    {
        let b = step_of(self.base);
        let mut s: usize = 0;
        while s < LOD_LEVELS
            invariant
                s <= LOD_LEVELS,
                b == self.base.spec_step(),
                self.wf(),
                self.base == old(self).base,
                forall|t: int| 0 <= t < LOD_LEVELS ==> #[trigger] self.rooms_view()[t] == if t < s && t != b && spec_empty_room(old(self).rooms_view()[t]) {
                    None
                } else {
                    old(self).rooms_view()[t]
                },
            decreases LOD_LEVELS - s,
        {
            let ghost v0 = self.rooms_view();
            let ghost r0 = self.rooms@;
            let empty_nested = s != b && match &self.rooms[s] {
                Some(list) => list.len() == 0,
                None => false,
            };
            proof {
                if self.rooms@[s as int] is Some {
                    let list = self.rooms@[s as int]->0@;
                    if list.len() > 0 {
                        assert(list.to_set().contains(list[0]));
                    } else {
                        assert(list.to_set() =~= Set::<PlayerId>::empty());
                    }
                }
            }
            proof {
                assert(empty_nested == (s != b && spec_empty_room(v0[s as int])));
            }
            if empty_nested {
                self.rooms.set(s, None);
                proof {
                    assert(self.rooms@ =~= r0.update(s as int, None));
                }
            }
            proof {
                assert forall|t: int| 0 <= t < LOD_LEVELS implies #[trigger] self.rooms_view()[t] == if t < s + 1 && t != b
                    && spec_empty_room(old(self).rooms_view()[t]) {
                    None
                } else {
                    old(self).rooms_view()[t]
                } by {
                    if t != s {
                        assert(self.rooms@[t] == r0[t]);
                        assert(self.rooms_view()[t] == v0[t]);
                    }
                }
            }
            s = s + 1;
        }
        proof {
            assert forall|l: LodLevel| #[trigger] self.level(l) == if l != old(self).base_level() && spec_empty_room(old(self).level(l)) {
                None
            } else {
                old(self).level(l)
            } by {
                if l != self.base {
                    assert(l.spec_step() != b);
                }
            }
        }
    }

    /// Every member of the room and of its nested rooms, each once.
    pub fn get_all_members(&self) -> (v: Vec<PlayerId>)
        requires
            self.wf(),
        ensures
            v@.no_duplicates(),
            forall|p: PlayerId| #[trigger] v@.contains(p) <==> spec_member_below(self.rooms_view(), LOD_LEVELS as int, p),
    {
        let mut v: Vec<PlayerId> = Vec::new();
        let mut s: usize = 0;
        while s < LOD_LEVELS
            invariant
                s <= LOD_LEVELS,
                self.wf(),
                v@.no_duplicates(),
                forall|p: PlayerId| #[trigger] v@.contains(p) <==> spec_member_below(self.rooms_view(), s as int, p),
            decreases LOD_LEVELS - s,
        {
            match &self.rooms[s] {
                Some(list) => {
                    let mut i: usize = 0;
                    while i < list.len()
                        invariant
                            i <= list@.len(),
                            s < LOD_LEVELS,
                            self.wf(),
                            self.rooms@[s as int] == Some(*list),
                            v@.no_duplicates(),
                            forall|p: PlayerId| #[trigger] v@.contains(p) <==> (spec_member_below(self.rooms_view(), s as int, p)
                                || list@.take(i as int).contains(p)),
                        decreases list@.len() - i,
                    {
                        let q = list[i];
                        let ghost old_v = v@;
                        proof {
                            assert forall|x: PlayerId| #[trigger] list@.take(i + 1).contains(x) <==> (list@.take(i as int).contains(x) || x == q) by {
                                if list@.take(i + 1).contains(x) && x != q {
                                    let k = choose|k: int| 0 <= k < i + 1 && #[trigger] list@.take(i + 1)[k] == x;
                                    assert(list@.take(i as int)[k] == x);
                                }
                                if list@.take(i as int).contains(x) {
                                    let k = choose|k: int| 0 <= k < i && #[trigger] list@.take(i as int)[k] == x;
                                    assert(list@.take(i + 1)[k] == x);
                                }
                                if x == q {
                                    assert(list@.take(i + 1)[i as int] == x);
                                }
                            }
                        }
                        if !lists_player(&v, q) {
                            v.push(q);
                            proof {
                                assert forall|x: PlayerId| #[trigger] v@.contains(x) <==> (old_v.contains(x) || x == q) by {
                                    if v@.contains(x) && x != q {
                                        let k = choose|k: int| 0 <= k < v@.len() && v@[k] == x;
                                        assert(old_v[k] == x);
                                    }
                                    if old_v.contains(x) {
                                        let k = choose|k: int| 0 <= k < old_v.len() && old_v[k] == x;
                                        assert(v@[k] == x);
                                    }
                                    if x == q {
                                        assert(v@[v@.len() - 1] == x);
                                    }
                                }
                                assert forall|a: int, c: int| 0 <= a < c < v@.len() implies v@[a] != v@[c] by {
                                    if c == v@.len() - 1 {
                                        assert(old_v[a] == v@[a]);
                                        assert(old_v.contains(old_v[a]));
                                    } else {
                                        assert(old_v[a] == v@[a] && old_v[c] == v@[c]);
                                    }
                                }
                            }
                        }
                        i = i + 1;
                    }
                    proof {
                        assert(list@.take(list@.len() as int) =~= list@);
                        assert forall|p: PlayerId| #[trigger] v@.contains(p) <==> spec_member_below(self.rooms_view(), s + 1, p) by {
                            assert(spec_room_has(self.rooms_view()[s as int], p) <==> list@.contains(p)) by {
                                assert(self.rooms_view()[s as int] == Some(list@.to_set()));
                            }
                            if spec_member_below(self.rooms_view(), s + 1, p) {
                                let t = choose|t: int| 0 <= t < s + 1 && #[trigger] spec_room_has(self.rooms_view()[t], p);
                                if t < s {
                                    assert(spec_member_below(self.rooms_view(), s as int, p));
                                }
                            }
                            if spec_member_below(self.rooms_view(), s as int, p) {
                                let t = choose|t: int| 0 <= t < s && #[trigger] spec_room_has(self.rooms_view()[t], p);
                                assert(0 <= t < s + 1);
                            }
                            if list@.contains(p) {
                                assert(spec_room_has(self.rooms_view()[s as int], p));
                            }
                        }
                    }
                },
                None => {
                    proof {
                        assert forall|p: PlayerId| #[trigger] v@.contains(p) <==> spec_member_below(self.rooms_view(), s + 1, p) by {
                            assert(!spec_room_has(self.rooms_view()[s as int], p));
                            if spec_member_below(self.rooms_view(), s + 1, p) {
                                let t = choose|t: int| 0 <= t < s + 1 && #[trigger] spec_room_has(self.rooms_view()[t], p);
                                assert(t < s);
                            }
                            if spec_member_below(self.rooms_view(), s as int, p) {
                                let t = choose|t: int| 0 <= t < s && #[trigger] spec_room_has(self.rooms_view()[t], p);
                                assert(0 <= t < s + 1);
                            }
                        }
                    }
                },
            }
            s = s + 1;
        }
        v
    }

    /// The members at a level (none where the room has no room there).
    pub fn get_members_for_lod(&self, lod: LodLevel) -> (v: Vec<PlayerId>)
        requires
            self.wf(),
        ensures
            v@.to_set() == match self.level(lod) {
                Some(m) => m,
                None => Set::<PlayerId>::empty(),
            },
            v@.no_duplicates(),
    {
        let s = step_of(lod);
        match &self.rooms[s] {
            Some(list) => list.clone(),
            None => {
                let v: Vec<PlayerId> = Vec::new();
                assert(v@.to_set() =~= Set::<PlayerId>::empty());
                v
            },
        }
    }

    /// Number of members over all levels.
    pub fn total_member_count(&self) -> (n: usize)
        requires
            self.wf(),
            spec_member_total(self.rooms_view(), LOD_LEVELS as int) <= usize::MAX,
        ensures
            n == spec_member_total(self.rooms_view(), LOD_LEVELS as int),
    {
        let mut n: usize = 0;
        let mut s: usize = 0;
        while s < LOD_LEVELS
            invariant
                s <= LOD_LEVELS,
                self.wf(),
                spec_member_total(self.rooms_view(), LOD_LEVELS as int) <= usize::MAX,
                n == spec_member_total(self.rooms_view(), s as int),
            decreases LOD_LEVELS - s,
        {
            proof {
                lemma_member_total_monotone(self.rooms_view(), s + 1, LOD_LEVELS as int);
            }
            match &self.rooms[s] {
                Some(list) => {
                    proof {
                        list@.unique_seq_to_set();
                    }
                    n = n + list.len();
                },
                None => {},
            }
            s = s + 1;
        }
        n
    }

    /// Whether no level has a member.
    pub fn is_empty(&self) -> (b: bool)
        requires
            self.wf(),
        ensures
            b == forall|l: LodLevel| #[trigger] self.level(l) matches Some(m) ==> m.is_empty(),
    {
        let mut s: usize = 0;
        while s < LOD_LEVELS
            invariant
                s <= LOD_LEVELS,
                self.wf(),
                forall|t: int| 0 <= t < s ==> (#[trigger] self.rooms_view()[t] matches Some(m) ==> m.is_empty()),
            decreases LOD_LEVELS - s,
        {
            match &self.rooms[s] {
                Some(list) => {
                    if list.len() > 0 {
                        proof {
                            let l = LodLevel::from_step(s as int)->0;
                            assert(list@.to_set().contains(list@[0]));
                            assert(self.level(l) == self.rooms_view()[s as int]);
                        }
                        return false;
                    }
                    proof {
                        assert(list@.to_set() =~= Set::<PlayerId>::empty());
                    }
                },
                None => {},
            }
            s = s + 1;
        }
        proof {
            assert forall|l: LodLevel| #[trigger] self.level(l) matches Some(m) ==> m.is_empty() by {
                let t = l.spec_step();
                assert(0 <= t < LOD_LEVELS);
            }
        }
        true
    }
}

proof fn lemma_member_total_monotone(rooms: Seq<Option<Set<PlayerId>>>, a: int, b: int)
    requires
        a <= b,
    ensures
        spec_member_total(rooms, a) <= spec_member_total(rooms, b),
    decreases b - a,
{
    if a < b {
        lemma_member_total_monotone(rooms, a, b - 1);
    }
}

} // verus!
