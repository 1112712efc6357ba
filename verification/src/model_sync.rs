//! The model synchronizer: keeps each character's rig (skeleton bones and
//! equipment-driven mesh parts) consistent with its authoritative identity,
//! equipment and storefront state, one frame at a time.
//!
//! Decision policy per changed character:
//! 1. an open storefront suppresses the rig entirely — tear it down;
//! 2. an existing rig with a matching body type is patched in place, slot
//!    by slot, leaving the skeleton untouched;
//! 3. otherwise the old rig (if any) is torn down and a fresh one is built.
//! A storefront closing is polled from a separate removal notification and
//! forces a fresh rebuild.

use vstd::prelude::*;

use crate::MAX_ENTITIES;
use crate::entities::EntityArena;
use crate::world::{
    char_owns, char_wf, rig_distinct, rig_owns, Character, PartSlot, Rig, World, EMPTY_ITEM,
    EQUIP_SLOT_COUNT, SKELETON_BONE_COUNT,
};

verus! {

broadcast use EntityArena::lemma_live_bound;

/// Despawn every entity recorded in `ids`, skipping stale references.
fn despawn_all(arena: &mut EntityArena, ids: &Vec<u64>)
    ensures
        final(arena).spawned_count() == old(arena).spawned_count(),
        forall|j: u64|
            #[trigger] final(arena).live(j) == (old(arena).live(j) && !ids@.contains(j)),
{
    let mut k: usize = 0;
    while k < ids.len()
        invariant
            k <= ids@.len(),
            arena.spawned_count() == old(arena).spawned_count(),
            forall|j: u64|
                #[trigger] arena.live(j) == (old(arena).live(j) && !ids@.subrange(
                    0,
                    k as int,
                ).contains(j)),
        decreases ids@.len() - k,
    {
        let id = ids[k];
        if arena.is_live(id) {
            arena.despawn(id);
        }
        proof {
            let pre = ids@.subrange(0, k as int);
            let post = ids@.subrange(0, k + 1);
            assert forall|j: u64| arena.live(j) == (old(arena).live(j) && !post.contains(j)) by {
                if j == id {
                    assert(post[k as int] == j);
                    assert(post.contains(j));
                } else {
                    if pre.contains(j) {
                        let i = choose|i: int| 0 <= i < pre.len() && pre[i] == j;
                        assert(post[i] == j);
                        assert(post.contains(j));
                    }
                    if post.contains(j) {
                        let i = choose|i: int| 0 <= i < post.len() && post[i] == j;
                        assert(i < k + 1);
                        if i < k {
                            assert(pre[i] == j);
                            assert(pre.contains(j));
                        }
                    }
                }
            }
        }
        k += 1;
    }
    proof {
        assert(ids@.subrange(0, ids@.len() as int) =~= ids@);
    }
}

/// Tear down a rig: despawn every bone and every recorded part entity.
/// Stale references are skipped; nothing else is touched.
fn teardown_rig(arena: &mut EntityArena, rig: &Rig)
    ensures
        final(arena).spawned_count() == old(arena).spawned_count(),
        forall|j: u64|
            #[trigger] final(arena).live(j) == (old(arena).live(j) && !rig_owns(*rig, j)),
{
    despawn_all(arena, &rig.bones);
    let mut s: usize = 0;
    while s < rig.parts.len()
        invariant
            s <= rig.parts@.len(),
            arena.spawned_count() == old(arena).spawned_count(),
            forall|j: u64|
                #[trigger] arena.live(j) == (old(arena).live(j) && !rig.bones@.contains(j)
                    && !(exists|t: int|
                    0 <= t < s && #[trigger] rig.parts@[t].ents@.contains(j))),
        decreases rig.parts@.len() - s,
    {
        despawn_all(arena, &rig.parts[s].ents);
        proof {
            assert forall|j: u64|
                arena.live(j) == (old(arena).live(j) && !rig.bones@.contains(j) && !(exists|t: int|
                    0 <= t < s + 1 && #[trigger] rig.parts@[t].ents@.contains(j))) by {
                if exists|t: int| 0 <= t < s + 1 && #[trigger] rig.parts@[t].ents@.contains(j) {
                    let t = choose|t: int|
                        0 <= t < s + 1 && #[trigger] rig.parts@[t].ents@.contains(j);
                    assert(t < s || t == s);
                }
            }
        }
        s += 1;
    }
}

/// Build a fresh rig for `(gender, equipment)`: a full skeleton and one
/// part per occupied equipment slot, all newly spawned.
fn build_rig(arena: &mut EntityArena, gender: u8, equipment: &Vec<u32>) -> (rig: Rig)
    requires
        equipment@.len() == EQUIP_SLOT_COUNT,
        old(arena).spawned_count() + SKELETON_BONE_COUNT + EQUIP_SLOT_COUNT <= MAX_ENTITIES,
    ensures
        final(arena).spawned_count() >= old(arena).spawned_count(),
        final(arena).spawned_count() <= old(arena).spawned_count() + SKELETON_BONE_COUNT
            + EQUIP_SLOT_COUNT,
        forall|j: u64| old(arena).live(j) ==> final(arena).live(j),
        forall|j: u64| #[trigger] final(arena).live(j) ==> old(arena).live(j) || rig_owns(rig, j),
        forall|j: u64| #[trigger]
            rig_owns(rig, j) ==> final(arena).live(j) && j >= old(arena).spawned_count(),
        rig_distinct(rig),
        rig.gender == gender,
        rig.bones@.len() == SKELETON_BONE_COUNT,
        rig.parts@.len() == EQUIP_SLOT_COUNT,
        forall|s: int| 0 <= s < EQUIP_SLOT_COUNT ==> (#[trigger] rig.parts@[s]).item
            == equipment@[s],
        forall|s: int| 0 <= s < EQUIP_SLOT_COUNT ==> (#[trigger] rig.parts@[s]).ents@.len() == (
        if equipment@[s] == EMPTY_ITEM {
            0int
        } else {
            1int
        }),
{
    let ghost base = arena.spawned_count();
    let mut bones: Vec<u64> = Vec::new();
    let mut b: usize = 0;
    while b < SKELETON_BONE_COUNT
        invariant
            b <= SKELETON_BONE_COUNT,
            arena.spawned_count() == base + b,
            base + SKELETON_BONE_COUNT + EQUIP_SLOT_COUNT <= MAX_ENTITIES,
            bones@.len() == b,
            forall|k: int| 0 <= k < b ==> bones@[k] == base + k,
            forall|j: u64| #[trigger] arena.live(j) == (old(arena).live(j) || bones@.contains(j)),
        decreases SKELETON_BONE_COUNT - b,
    {
        let e = arena.spawn();
        let ghost bones0 = bones@;
        bones.push(e);
        proof {
            assert forall|j: u64| arena.live(j) == (old(arena).live(j) || bones@.contains(
                j,
            )) by {
                if j == e {
                    assert(bones@[bones0.len() as int] == j);
                    assert(bones@.contains(j));
                } else {
                    if bones0.contains(j) {
                        let k = choose|k: int| 0 <= k < bones0.len() && bones0[k] == j;
                        assert(bones@[k] == j);
                        assert(bones@.contains(j));
                    }
                    if bones@.contains(j) {
                        let k = choose|k: int| 0 <= k < bones@.len() && bones@[k] == j;
                        assert(k < bones0.len());
                        assert(bones0[k] == j);
                        assert(bones0.contains(j));
                    }
                }
            }
        }
        b += 1;
    }
    let mut parts: Vec<PartSlot> = Vec::new();
    let mut s: usize = 0;
    while s < EQUIP_SLOT_COUNT
        invariant
            s <= EQUIP_SLOT_COUNT,
            equipment@.len() == EQUIP_SLOT_COUNT,
            arena.spawned_count() >= base + SKELETON_BONE_COUNT,
            arena.spawned_count() <= base + SKELETON_BONE_COUNT + s,
            base + SKELETON_BONE_COUNT + EQUIP_SLOT_COUNT <= MAX_ENTITIES,
            bones@.len() == SKELETON_BONE_COUNT,
            forall|k: int| 0 <= k < SKELETON_BONE_COUNT ==> bones@[k] == base + k,
            parts@.len() == s,
            forall|t: int| 0 <= t < s ==> (#[trigger] parts@[t]).item == equipment@[t],
            forall|t: int| 0 <= t < s ==> (#[trigger] parts@[t]).ents@.len() == (
            if equipment@[t] == EMPTY_ITEM {
                0int
            } else {
                1int
            }),
            forall|t: int, k: int|
                0 <= t < s && 0 <= k < parts@[t].ents@.len() ==> base + SKELETON_BONE_COUNT <= #[trigger] parts@[t].ents@[k] < arena.spawned_count(),
            forall|t1: int, t2: int|
                0 <= t1 < t2 < s && (#[trigger] parts@[t1]).ents@.len() == 1 && (
                #[trigger] parts@[t2]).ents@.len() == 1 ==> parts@[t1].ents@[0]
                    < parts@[t2].ents@[0],
            forall|j: u64| #[trigger]
                arena.live(j) == (old(arena).live(j) || bones@.contains(j) || exists|t: int|
                    0 <= t < s && #[trigger] parts@[t].ents@.contains(j)),
        decreases EQUIP_SLOT_COUNT - s,
    {
        let ghost parts0 = parts@;
        let item = equipment[s];
        let ghost arena1 = *arena;
        let mut ents: Vec<u64> = Vec::new();
        if item != EMPTY_ITEM {
            let e = arena.spawn();
            ents.push(e);
            assert(ents@ =~= seq![e]);
        }
        let ghost entsv = ents@;
        parts.push(PartSlot { item, ents });
        proof {
            assert forall|j: u64|
                arena.live(j) == (old(arena).live(j) || bones@.contains(j) || exists|t: int|
                    0 <= t < s + 1 && #[trigger] parts@[t].ents@.contains(j)) by {
                if arena1.live(j) {
                    if !old(arena).live(j) && !bones@.contains(j) {
                        let t = choose|t: int|
                            0 <= t < s && #[trigger] parts0[t].ents@.contains(j);
                        assert(parts@[t].ents@.contains(j));
                    }
                    assert(arena.live(j));
                } else if arena.live(j) {
                    assert(entsv.len() == 1 && entsv[0] == j);
                    assert(parts@[s as int].ents@.contains(j));
                } else {
                    if bones@.contains(j) {
                        assert(arena1.live(j));
                    }
                    if exists|t: int| 0 <= t < s + 1 && #[trigger] parts@[t].ents@.contains(j) {
                        let t = choose|t: int|
                            0 <= t < s + 1 && #[trigger] parts@[t].ents@.contains(j);
                        if t < s {
                            assert(parts0[t].ents@.contains(j));
                            assert(arena1.live(j));
                        } else {
                            assert(entsv.contains(j));
                            assert(arena.live(j));
                        }
                    }
                }
            }
        }
        s += 1;
    }
    let ghost partsg = parts@;
    let rig = Rig { gender, bones, parts };
    proof {
        assert(rig.parts@ == partsg);
        assert forall|j: u64| #[trigger] rig_owns(rig, j) implies arena.live(j) && j >= base by {}
        assert forall|j: u64| #[trigger] arena.live(j) implies old(arena).live(j) || rig_owns(
            rig,
            j,
        ) by {
            if !old(arena).live(j) && !rig.bones@.contains(j) {
                let t = choose|t: int|
                    0 <= t < EQUIP_SLOT_COUNT && #[trigger] partsg[t].ents@.contains(j);
                assert(rig.parts@[t].ents@.contains(j));
            }
        }
        assert(rig_distinct(rig)) by {
            assert forall|t: int, id: u64|
                0 <= t < rig.parts@.len() && #[trigger] rig.parts@[t].ents@.contains(id)
                    implies !rig.bones@.contains(id) by {
                if rig.bones@.contains(id) {
                    let k = choose|k: int| 0 <= k < rig.bones@.len() && rig.bones@[k] == id;
                    let k2 = choose|k2: int|
                        0 <= k2 < rig.parts@[t].ents@.len() && rig.parts@[t].ents@[k2] == id;
                }
            }
            assert forall|t1: int, t2: int, id: u64|
                0 <= t1 < rig.parts@.len() && 0 <= t2 < rig.parts@.len() && t1 != t2
                    && #[trigger] rig.parts@[t1].ents@.contains(id) implies !(
            #[trigger] rig.parts@[t2].ents@.contains(id)) by {
                if rig.parts@[t2].ents@.contains(id) {
                    let k1 = choose|k1: int|
                        0 <= k1 < rig.parts@[t1].ents@.len() && rig.parts@[t1].ents@[k1] == id;
                    let k2 = choose|k2: int|
                        0 <= k2 < rig.parts@[t2].ents@.len() && rig.parts@[t2].ents@[k2] == id;
                }
            }
        }
    }
    rig
}

/// The rig's recorded per-slot items agree with the equipment; nothing
/// needs patching.
pub open spec fn parts_match(rig: Rig, equipment: Seq<u32>) -> bool {
    &&& rig.parts@.len() == equipment.len()
    &&& forall|s: int| 0 <= s < equipment.len() ==> (#[trigger] rig.parts@[s]).item == equipment[s]
}

/// Outcome of the storefront path: the rig, collider and blink timer are
/// gone; everything else on the character is untouched.
pub open spec fn storefront_sync(oldc: Character, newc: Character) -> bool {
    newc == Character {
        rig: None,
        collider: None,
        blink_timer: false,
        changed: false,
        ..oldc
    }
}

/// Outcome of a fresh build: a full skeleton and one part per occupied
/// slot, every child entity newly spawned at or above `base`.
pub open spec fn fresh_rig(rig: Rig, gender: u8, equipment: Seq<u32>, base: nat) -> bool {
    &&& rig.gender == gender
    &&& rig.bones@.len() == SKELETON_BONE_COUNT
    &&& rig.parts@.len() == equipment.len()
    &&& forall|s: int| 0 <= s < equipment.len() ==> (#[trigger] rig.parts@[s]).item == equipment[s]
    &&& forall|s: int| 0 <= s < equipment.len() ==> (#[trigger] rig.parts@[s]).ents@.len() == (
    if equipment[s] == EMPTY_ITEM {
        0int
    } else {
        1int
    })
    &&& forall|id: u64| #[trigger] rig_owns(rig, id) ==> id >= base
    &&& rig_distinct(rig)
}

/// Outcome of an in-place patch: the skeleton and every slot whose item
/// already matched are untouched; every other slot was rebuilt for its new
/// item from entities spawned at or above `base`.
pub open spec fn inplace_rig(oldr: Rig, newr: Rig, equipment: Seq<u32>, base: nat) -> bool {
    &&& newr.gender == oldr.gender
    &&& newr.bones@ == oldr.bones@
    &&& newr.parts@.len() == oldr.parts@.len()
    &&& forall|s: int|
        0 <= s < oldr.parts@.len() && (#[trigger] oldr.parts@[s]).item == equipment[s]
            ==> newr.parts@[s] == oldr.parts@[s]
    &&& forall|s: int|
        0 <= s < oldr.parts@.len() && (#[trigger] oldr.parts@[s]).item != equipment[s] ==> {
            &&& newr.parts@[s].item == equipment[s]
            &&& newr.parts@[s].ents@.len() == (if equipment[s] == EMPTY_ITEM {
                0int
            } else {
                1int
            })
            &&& forall|k: int| 0 <= k < newr.parts@[s].ents@.len() ==> #[trigger] newr.parts@[s].ents@[k] >= base
        }
}

/// How one synchronization step may move the arena, relative to what the
/// affected character owned before and owns afterwards: children it gave
/// up are despawned, children it gained are freshly spawned, and no other
/// entity's liveness moves.
pub open spec fn arena_sync(
    a1: EntityArena,
    a2: EntityArena,
    oldc: Character,
    newc: Character,
) -> bool {
    &&& a2.spawned_count() >= a1.spawned_count()
    &&& forall|id: u64| #[trigger]
        char_owns(oldc, id) && !char_owns(newc, id) ==> !a2.live(id)
    &&& forall|id: u64| #[trigger]
        a2.live(id) && !char_owns(oldc, id) && !char_owns(newc, id) ==> a1.live(id)
    &&& forall|id: u64| #[trigger]
        a1.live(id) && !char_owns(oldc, id) && !char_owns(newc, id) ==> a2.live(id)
    &&& forall|id: u64| #[trigger]
        char_owns(newc, id) ==> a2.live(id) && (!char_owns(oldc, id) ==> id
            >= a1.spawned_count())
}

/// Re-establishes the world invariant after one character's rig was
/// synchronized: the step only despawned that character's own children and
/// only recorded freshly spawned ones.
proof fn lemma_wf_after_sync(w1: World, w2: World, i: int)
    requires
        w1.wf(),
        0 <= i < w1.chars@.len(),
        w2.chars@.len() == w1.chars@.len(),
        forall|j: int| 0 <= j < w1.chars@.len() && j != i ==> w2.chars@[j] == w1.chars@[j],
        char_wf(w2.chars@[i]),
        arena_sync(w1.arena, w2.arena, w1.chars@[i], w2.chars@[i]),
    ensures
        w2.wf(),
{
    let oldc = w1.chars@[i];
    let newc = w2.chars@[i];
    assert forall|j: int| 0 <= j < w2.chars@.len() implies char_wf(#[trigger] w2.chars@[j]) by {
        if j != i {
            assert(char_wf(w1.chars@[j]));
        }
    }
    assert forall|j: int, id: u64|
        0 <= j < w2.chars@.len() && #[trigger] char_owns(w2.chars@[j], id) implies w2.arena.live(
        id,
    ) by {
        if j == i {
            assert(char_owns(newc, id));
        } else {
            assert(char_owns(w1.chars@[j], id));
            assert(w1.arena.live(id));
            assert(!char_owns(oldc, id));
            if char_owns(newc, id) {
                assert(id >= w1.arena.spawned_count());
                assert(false);
            }
        }
    }
    assert forall|j: int, k: int, id: u64|
        0 <= j < w2.chars@.len() && 0 <= k < w2.chars@.len() && j != k && #[trigger] char_owns(
            w2.chars@[j],
            id,
        ) implies !(#[trigger] char_owns(w2.chars@[k], id)) by {
        if char_owns(w2.chars@[k], id) {
            if j == i {
                assert(char_owns(w1.chars@[k], id));
                assert(w1.arena.live(id));
                assert(!char_owns(oldc, id));
                assert(char_owns(newc, id));
                assert(id >= w1.arena.spawned_count());
                assert(false);
            } else if k == i {
                assert(char_owns(w1.chars@[j], id));
                assert(w1.arena.live(id));
                assert(!char_owns(oldc, id));
                assert(char_owns(newc, id));
                assert(id >= w1.arena.spawned_count());
                assert(false);
            } else {
                assert(char_owns(w1.chars@[j], id));
                assert(char_owns(w1.chars@[k], id));
                assert(false);
            }
        }
    }
    assert forall|id: u64| #[trigger] w2.arena.live(id) implies exists|j: int|
        0 <= j < w2.chars@.len() && char_owns(w2.chars@[j], id) by {
        if char_owns(newc, id) {
            assert(char_owns(w2.chars@[i], id));
        } else if char_owns(oldc, id) {
            assert(!w2.arena.live(id));
            assert(false);
        } else {
            assert(w1.arena.live(id));
            let j = choose|j: int| 0 <= j < w1.chars@.len() && char_owns(w1.chars@[j], id);
            assert(j != i);
            assert(char_owns(w2.chars@[j], id));
        }
    }
}

/// Some slot below `s` was patched (its item differed) and recorded `j`
/// among its superseded part entities.
pub open spec fn inplace_removed(oldr: Rig, equipment: Seq<u32>, s: int, j: u64) -> bool {
    exists|t: int|
        0 <= t < s && oldr.parts@[t].item != equipment[t] && #[trigger] oldr.parts@[t].ents@.contains(
            j,
        )
}

/// Some slot below `s` was patched and `j` is among its replacement part
/// entities.
pub open spec fn inplace_added(
    oldr: Rig,
    newparts: Seq<PartSlot>,
    equipment: Seq<u32>,
    s: int,
    j: u64,
) -> bool {
    exists|t: int|
        0 <= t < s && oldr.parts@[t].item != equipment[t] && #[trigger] newparts[t].ents@.contains(
            j,
        )
}

/// One patched slot moves the arena exactly as the removed/added summary
/// says: the superseded part entities die, the replacement is freshly
/// spawned, and nothing else moves.
#[verifier::rlimit(30)]
proof fn lemma_patch_step_changed(
    arena_w: EntityArena,
    arena0: EntityArena,
    arena1: EntityArena,
    arena2: EntityArena,
    oldr: Rig,
    parts0: Seq<PartSlot>,
    parts1: Seq<PartSlot>,
    equip: Seq<u32>,
    s: int,
    base: nat,
    j: u64,
)
    requires
        0 <= s < oldr.parts@.len(),
        oldr.parts@.len() == equip.len(),
        parts0.len() == equip.len(),
        parts1.len() == equip.len(),
        oldr.parts@[s].item != equip[s],
        arena_w.spawned_count() == base,
        forall|id: u64| #[trigger] rig_owns(oldr, id) ==> arena_w.live(id),
        forall|id: u64| #[trigger]
            arena0.live(id) == ((arena_w.live(id) && !inplace_removed(oldr, equip, s, id))
                || inplace_added(oldr, parts0, equip, s, id)),
        forall|id: u64|
            inplace_added(oldr, parts0, equip, s, id) ==> id >= base,
        arena1.spawned_count() == arena0.spawned_count(),
        arena0.spawned_count() >= base,
        forall|id: u64| #[trigger]
            arena1.live(id) == (arena0.live(id) && !oldr.parts@[s].ents@.contains(id)),
        forall|t: int| 0 <= t < parts0.len() && t != s ==> parts1[t] == parts0[t],
        equip[s] == EMPTY_ITEM ==> arena2 == arena1 && parts1[s].ents@.len() == 0,
        equip[s] != EMPTY_ITEM ==> {
            &&& parts1[s].ents@.len() == 1
            &&& parts1[s].ents@[0] == arena1.spawned_count()
            &&& arena2.spawned_count() == arena1.spawned_count() + 1
            &&& forall|id: u64| #[trigger]
                arena2.live(id) == (arena1.live(id) || id == arena1.spawned_count())
        },
    ensures
        arena2.live(j) == ((arena_w.live(j) && !inplace_removed(oldr, equip, s + 1, j))
            || inplace_added(oldr, parts1, equip, s + 1, j)),
{
    broadcast use EntityArena::lemma_live_bound;

    let sv = oldr.parts@[s].ents@;
    assert(inplace_removed(oldr, equip, s + 1, j) == (inplace_removed(oldr, equip, s, j)
        || sv.contains(j))) by {
        if inplace_removed(oldr, equip, s + 1, j) {
            let t = choose|t: int|
                0 <= t < s + 1 && oldr.parts@[t].item != equip[t]
                    && #[trigger] oldr.parts@[t].ents@.contains(j);
            assert(t < s || t == s);
        }
        if sv.contains(j) {
            assert(oldr.parts@[s].ents@.contains(j));
        }
    }
    assert(inplace_added(oldr, parts1, equip, s + 1, j) == (inplace_added(oldr, parts0, equip, s, j)
        || parts1[s].ents@.contains(j))) by {
        if inplace_added(oldr, parts1, equip, s + 1, j) {
            let t = choose|t: int|
                0 <= t < s + 1 && oldr.parts@[t].item != equip[t]
                    && #[trigger] parts1[t].ents@.contains(j);
            if t < s {
                assert(parts0[t].ents@.contains(j));
            }
        }
        if inplace_added(oldr, parts0, equip, s, j) {
            let t = choose|t: int|
                0 <= t < s && oldr.parts@[t].item != equip[t] && #[trigger] parts0[t].ents@.contains(
                    j,
                );
            assert(parts1[t].ents@.contains(j));
        }
        if parts1[s].ents@.contains(j) {
            assert(inplace_added(oldr, parts1, equip, s + 1, j));
        }
    }
    if sv.contains(j) {
        assert(rig_owns(oldr, j));
        assert(arena_w.live(j));
        assert(j < base);
        assert(!inplace_added(oldr, parts0, equip, s, j));
        assert(!arena1.live(j));
        if equip[s] != EMPTY_ITEM {
            assert(j != arena1.spawned_count());
            assert(!parts1[s].ents@.contains(j)) by {
                if parts1[s].ents@.contains(j) {
                    let k = choose|k: int| 0 <= k < parts1[s].ents@.len() && parts1[s].ents@[k] == j;
                }
            }
        }
    } else {
        if equip[s] != EMPTY_ITEM && j == arena1.spawned_count() {
            assert(arena2.live(j));
            assert(parts1[s].ents@.contains(j)) by {
                assert(parts1[s].ents@[0] == j);
            }
        } else {
            if equip[s] != EMPTY_ITEM {
                assert(!parts1[s].ents@.contains(j)) by {
                    if parts1[s].ents@.contains(j) {
                        let k = choose|k: int|
                            0 <= k < parts1[s].ents@.len() && parts1[s].ents@[k] == j;
                    }
                }
            }
            assert(arena2.live(j) == arena1.live(j));
            assert(arena1.live(j) == arena0.live(j));
        }
    }
}

/// The decision-policy outcome of synchronizing one changed character, as
/// observed on the character itself: an open storefront suppresses the
/// rig; a rig with a matching body type is patched in place with its
/// skeleton untouched; otherwise the rig is rebuilt fresh, every new
/// child spawned at or above `base`.
pub open spec fn sync_outcome(oldc: Character, newc: Character, base: nat) -> bool {
    if oldc.storefront {
        storefront_sync(oldc, newc)
    } else if oldc.rig is Some && oldc.rig->Some_0.gender == oldc.identity.gender {
        &&& newc == (Character {
            rig: newc.rig,
            collider: None,
            model_height: None,
            changed: false,
            ..oldc
        })
        &&& newc.rig is Some
        &&& inplace_rig(oldc.rig->Some_0, newc.rig->Some_0, oldc.equipment@, base)
    } else {
        &&& newc == (Character {
            rig: newc.rig,
            collider: None,
            blink_timer: true,
            changed: false,
            ..oldc
        })
        &&& newc.rig is Some
        &&& fresh_rig(newc.rig->Some_0, oldc.identity.gender, oldc.equipment@, base)
    }
}

/// What one whole synchronization frame leaves of a character, from its
/// state and flags when the frame began: a character with neither flag
/// set is left untouched; a changed character gets the decision-policy
/// outcome; a storefront-removal notice forces a fresh rebuild unless the
/// storefront was reopened meanwhile, in which case only the rig
/// suppression (if the character was also changed) and the flag clearing
/// happen. All fresh children are spawned at or above `base`.
pub open spec fn frame_outcome(oldc: Character, newc: Character, base: nat) -> bool {
    if oldc.store_closed {
        if oldc.storefront {
            if oldc.changed {
                newc == (Character {
                    rig: None,
                    collider: None,
                    blink_timer: false,
                    changed: false,
                    store_closed: false,
                    ..oldc
                })
            } else {
                newc == (Character { store_closed: false, ..oldc })
            }
        } else {
            &&& newc == (Character {
                rig: newc.rig,
                collider: None,
                blink_timer: true,
                model_height: None,
                changed: false,
                store_closed: false,
                ..oldc
            })
            &&& newc.rig is Some
            &&& fresh_rig(newc.rig->Some_0, oldc.identity.gender, oldc.equipment@, base)
        }
    } else if oldc.changed {
        sync_outcome(oldc, newc, base)
    } else {
        newc == oldc
    }
}

/// What the change-detection pass alone leaves of a character: the
/// decision-policy outcome when it was flagged changed, untouched
/// otherwise. The storefront-removal flag is not consumed by this pass.
pub open spec fn change_outcome(oldc: Character, newc: Character, base: nat) -> bool {
    if oldc.changed {
        sync_outcome(oldc, newc, base)
    } else {
        newc == oldc
    }
}

/// Freshness above a later base implies freshness above an earlier one.
proof fn lemma_fresh_rig_mono(rig: Rig, gender: u8, equipment: Seq<u32>, b1: nat, b2: nat)
    requires
        fresh_rig(rig, gender, equipment, b2),
        b1 <= b2,
    ensures
        fresh_rig(rig, gender, equipment, b1),
{
    assert forall|id: u64| #[trigger] rig_owns(rig, id) implies id >= b1 by {
        assert(id >= b2);
    }
}

/// Freshness above a later base implies freshness above an earlier one,
/// for the patched slots of an in-place update.
proof fn lemma_inplace_rig_mono(oldr: Rig, newr: Rig, equipment: Seq<u32>, b1: nat, b2: nat)
    requires
        inplace_rig(oldr, newr, equipment, b2),
        b1 <= b2,
    ensures
        inplace_rig(oldr, newr, equipment, b1),
{
    assert forall|s: int|
        0 <= s < oldr.parts@.len() && (#[trigger] oldr.parts@[s]).item != equipment[s] implies {
        &&& newr.parts@[s].item == equipment[s]
        &&& newr.parts@[s].ents@.len() == (if equipment[s] == EMPTY_ITEM {
            0int
        } else {
            1int
        })
        &&& forall|k: int|
            0 <= k < newr.parts@[s].ents@.len() ==> #[trigger] newr.parts@[s].ents@[k] >= b1
    } by {
        assert(forall|k: int|
            0 <= k < newr.parts@[s].ents@.len() ==> #[trigger] newr.parts@[s].ents@[k] >= b2);
    }
}

impl World {
    /// Patch the rig of character `i` in place: rebuild exactly the slots
    /// whose recorded item no longer matches the equipment, despawning the
    /// superseded part entities before spawning their replacements. The
    /// skeleton and every matching slot are untouched.
    fn patch_rig_parts(&mut self, i: usize)
        requires
            old(self).wf(),
            i < old(self).chars@.len(),
            old(self).chars@[i as int].rig is Some,
            old(self).arena.spawned_count() + EQUIP_SLOT_COUNT <= MAX_ENTITIES,
        ensures
            final(self).chars@.len() == old(self).chars@.len(),
            forall|j: int|
                0 <= j < old(self).chars@.len() && j != i ==> final(self).chars@[j] == old(
                    self,
                ).chars@[j],
            final(self).chars@[i as int] == (Character {
                rig: final(self).chars@[i as int].rig,
                ..old(self).chars@[i as int]
            }),
            final(self).chars@[i as int].rig is Some,
            ({
                let oldr = old(self).chars@[i as int].rig->Some_0;
                let newr = final(self).chars@[i as int].rig->Some_0;
                let equip = old(self).chars@[i as int].equipment@;
                let base = old(self).arena.spawned_count();
                &&& inplace_rig(oldr, newr, equip, base)
                &&& rig_distinct(newr)
                &&& final(self).arena.spawned_count() >= base
                &&& final(self).arena.spawned_count() <= base + EQUIP_SLOT_COUNT
                &&& (parts_match(oldr, equip) ==> final(self).arena.spawned_count() == base && (
                forall|id: u64| #[trigger]
                    final(self).arena.live(id) == old(self).arena.live(id)))
                &&& forall|id: u64| #[trigger]
                    rig_owns(oldr, id) && !rig_owns(newr, id) ==> !final(self).arena.live(id)
                &&& forall|id: u64| #[trigger]
                    final(self).arena.live(id) && !rig_owns(oldr, id) && !rig_owns(newr, id)
                        ==> old(self).arena.live(id)
                &&& forall|id: u64| #[trigger]
                    old(self).arena.live(id) && !rig_owns(oldr, id) && !rig_owns(newr, id)
                        ==> final(self).arena.live(id)
                &&& forall|id: u64| #[trigger]
                    rig_owns(newr, id) ==> final(self).arena.live(id) && (!rig_owns(oldr, id)
                        ==> id >= base)
            }),
    {
        let ghost w1 = *old(self);
        let ghost oldc = old(self).chars@[i as int];
        let ghost oldr = oldc.rig->Some_0;
        let ghost equip = oldc.equipment@;
        let mut rig = Option::take(&mut self.chars[i].rig).unwrap();
        let ghost base = self.arena.spawned_count();
        proof {
            assert(char_wf(oldc));
            assert forall|id: u64| #[trigger] rig_owns(oldr, id) implies w1.arena.live(id) by {
                assert(char_owns(oldc, id));
            }
        }
        let mut s: usize = 0;
        while s < EQUIP_SLOT_COUNT
            invariant
                s <= EQUIP_SLOT_COUNT,
                i < self.chars@.len(),
                self.chars@.len() == w1.chars@.len(),
                self.chars@ == w1.chars@.update(i as int, Character { rig: None, ..oldc }),
                char_wf(oldc),
                oldc == w1.chars@[i as int],
                oldc.rig == Some(oldr),
                equip == oldc.equipment@,
                equip.len() == EQUIP_SLOT_COUNT,
                rig_distinct(oldr),
                forall|id: u64| #[trigger] rig_owns(oldr, id) ==> w1.arena.live(id),
                w1.arena.spawned_count() == base,
                base + EQUIP_SLOT_COUNT <= MAX_ENTITIES,
                rig.gender == oldr.gender,
                rig.bones == oldr.bones,
                rig.parts@.len() == EQUIP_SLOT_COUNT,
                oldr.parts@.len() == EQUIP_SLOT_COUNT,
                forall|t: int| s <= t < EQUIP_SLOT_COUNT ==> rig.parts@[t] == oldr.parts@[t],
                forall|t: int|
                    0 <= t < s && (#[trigger] oldr.parts@[t]).item == equip[t] ==> rig.parts@[t]
                        == oldr.parts@[t],
                forall|t: int|
                    0 <= t < s && (#[trigger] oldr.parts@[t]).item != equip[t] ==> {
                        &&& rig.parts@[t].item == equip[t]
                        &&& rig.parts@[t].ents@.len() == (if equip[t] == EMPTY_ITEM {
                            0int
                        } else {
                            1int
                        })
                        &&& forall|k: int|
                            0 <= k < rig.parts@[t].ents@.len() ==> base <= #[trigger] rig.parts@[t].ents@[k]
                                < self.arena.spawned_count()
                    },
                forall|t1: int, t2: int|
                    0 <= t1 < t2 < s && (#[trigger] oldr.parts@[t1]).item != equip[t1] && (
                    #[trigger] oldr.parts@[t2]).item != equip[t2] && rig.parts@[t1].ents@.len()
                        == 1 && rig.parts@[t2].ents@.len() == 1 ==> rig.parts@[t1].ents@[0]
                        < rig.parts@[t2].ents@[0],
                self.arena.spawned_count() >= base,
                self.arena.spawned_count() <= base + s,
                (forall|t: int| 0 <= t < s ==> (#[trigger] oldr.parts@[t]).item == equip[t])
                    ==> self.arena == w1.arena,
                forall|j: u64| #[trigger]
                    self.arena.live(j) == ((w1.arena.live(j) && !inplace_removed(
                        oldr,
                        equip,
                        s as int,
                        j,
                    )) || inplace_added(oldr, rig.parts@, equip, s as int, j)),
            decreases EQUIP_SLOT_COUNT - s,
        {
            let ghost parts0 = rig.parts@;
            let ghost arena0 = *(&self.arena);
            let item = self.chars[i].equipment[s];
            let cur_matches = rig.parts[s].item == item;
            if !cur_matches {
                let mut superseded = PartSlot { item, ents: Vec::new() };
                core::mem::swap(&mut rig.parts[s], &mut superseded);
                despawn_all(&mut self.arena, &superseded.ents);
                let ghost arena1 = *(&self.arena);
                if item != EMPTY_ITEM {
                    let e = self.arena.spawn();
                    let slotr = &mut rig.parts[s];
                    slotr.ents.push(e);
                }
                proof {
                    assert(self.chars@[i as int] == Character { rig: None, ..oldc });
                    assert(parts0[s as int] == oldr.parts@[s as int]);
                    assert(oldr.parts@[s as int].item != equip[s as int]);
                    let ghost sv = superseded.ents@;
                    assert(sv == oldr.parts@[s as int].ents@);
                    assert forall|j: u64|
                        self.arena.live(j) == ((w1.arena.live(j) && !inplace_removed(
                            oldr,
                            equip,
                            s + 1,
                            j,
                        )) || inplace_added(oldr, rig.parts@, equip, s + 1, j)) by {
                        lemma_patch_step_changed(
                            w1.arena,
                            arena0,
                            arena1,
                            self.arena,
                            oldr,
                            parts0,
                            rig.parts@,
                            equip,
                            s as int,
                            base,
                            j,
                        );
                    }
                }
            } else {
                proof {
                    assert(self.chars@[i as int] == Character { rig: None, ..oldc });
                    assert(rig.parts@[s as int] == oldr.parts@[s as int]);
                    assert(oldr.parts@[s as int].item == equip[s as int]);
                    assert forall|j: u64|
                        self.arena.live(j) == ((w1.arena.live(j) && !inplace_removed(
                            oldr,
                            equip,
                            s + 1,
                            j,
                        )) || inplace_added(oldr, rig.parts@, equip, s + 1, j)) by {
                        assert(inplace_removed(oldr, equip, s + 1, j) == inplace_removed(
                            oldr,
                            equip,
                            s as int,
                            j,
                        )) by {
                            if inplace_removed(oldr, equip, s + 1, j) {
                                let t = choose|t: int|
                                    0 <= t < s + 1 && oldr.parts@[t].item != equip[t]
                                        && #[trigger] oldr.parts@[t].ents@.contains(j);
                                assert(t < s);
                            }
                        }
                        assert(inplace_added(oldr, rig.parts@, equip, s + 1, j) == inplace_added(
                            oldr,
                            rig.parts@,
                            equip,
                            s as int,
                            j,
                        )) by {
                            if inplace_added(oldr, rig.parts@, equip, s + 1, j) {
                                let t = choose|t: int|
                                    0 <= t < s + 1 && oldr.parts@[t].item != equip[t]
                                        && #[trigger] rig.parts@[t].ents@.contains(j);
                                assert(t < s);
                            }
                        }
                    }
                }
            }
            s += 1;
        }
        let ghost rigg = rig;
        let c = &mut self.chars[i];
        c.rig = Some(rig);
        proof {
            let newr = rigg;
            let n = EQUIP_SLOT_COUNT as int;
            assert(self.chars@[i as int] == Character { rig: Some(newr), ..oldc });
            assert forall|t: int, k: int|
                0 <= t < n && 0 <= k < oldr.parts@[t].ents@.len() implies #[trigger] oldr.parts@[t].ents@[k]
                < base by {
                assert(oldr.parts@[t].ents@.contains(oldr.parts@[t].ents@[k]));
                assert(rig_owns(oldr, oldr.parts@[t].ents@[k]));
            }
            assert forall|k: int| 0 <= k < oldr.bones@.len() implies #[trigger] oldr.bones@[k]
                < base by {
                assert(oldr.bones@.contains(oldr.bones@[k]));
                assert(rig_owns(oldr, oldr.bones@[k]));
            }
            assert(rig_distinct(newr)) by {
                assert forall|t: int, id: u64|
                    0 <= t < n && #[trigger] newr.parts@[t].ents@.contains(id)
                        implies !newr.bones@.contains(id) by {
                    let k = choose|k: int|
                        0 <= k < newr.parts@[t].ents@.len() && newr.parts@[t].ents@[k] == id;
                    if newr.bones@.contains(id) {
                        let k2 = choose|k2: int|
                            0 <= k2 < newr.bones@.len() && newr.bones@[k2] == id;
                        if oldr.parts@[t].item == equip[t] {
                            assert(oldr.parts@[t].ents@.contains(id));
                        } else {
                            assert(id >= base);
                            assert(oldr.bones@[k2] == id);
                        }
                    }
                }
                assert forall|t1: int, t2: int, id: u64|
                    0 <= t1 < n && 0 <= t2 < n && t1 != t2 && #[trigger] newr.parts@[t1].ents@.contains(
                        id,
                    ) implies !(#[trigger] newr.parts@[t2].ents@.contains(id)) by {
                    if newr.parts@[t2].ents@.contains(id) {
                        let k1 = choose|k1: int|
                            0 <= k1 < newr.parts@[t1].ents@.len() && newr.parts@[t1].ents@[k1]
                                == id;
                        let k2 = choose|k2: int|
                            0 <= k2 < newr.parts@[t2].ents@.len() && newr.parts@[t2].ents@[k2]
                                == id;
                        let c1 = oldr.parts@[t1].item != equip[t1];
                        let c2 = oldr.parts@[t2].item != equip[t2];
                        if !c1 && !c2 {
                            assert(oldr.parts@[t1].ents@.contains(id));
                            assert(oldr.parts@[t2].ents@.contains(id));
                        } else if c1 && !c2 {
                            assert(id >= base);
                            assert(oldr.parts@[t2].ents@.contains(id));
                        } else if !c1 && c2 {
                            assert(id >= base);
                            assert(oldr.parts@[t1].ents@.contains(id));
                        } else {
                            assert(newr.parts@[t1].ents@[0] == id);
                            assert(newr.parts@[t2].ents@[0] == id);
                        }
                    }
                }
                assert forall|t: int| 0 <= t < n implies (#[trigger] newr.parts@[t].ents@).no_duplicates() by {
                    if oldr.parts@[t].item == equip[t] {
                        assert(newr.parts@[t].ents@ == oldr.parts@[t].ents@);
                    }
                }
            }
            assert forall|id: u64| #[trigger]
                rig_owns(oldr, id) && !rig_owns(newr, id) implies !self.arena.live(id) by {
                if self.arena.live(id) {
                    if inplace_added(oldr, newr.parts@, equip, n, id) {
                        let t = choose|t: int|
                            0 <= t < n && oldr.parts@[t].item != equip[t]
                                && #[trigger] newr.parts@[t].ents@.contains(id);
                        assert(rig_owns(newr, id));
                    } else {
                        if oldr.bones@.contains(id) {
                            assert(rig_owns(newr, id));
                        } else {
                            let t = choose|t: int|
                                0 <= t < n && #[trigger] oldr.parts@[t].ents@.contains(id);
                            if oldr.parts@[t].item == equip[t] {
                                assert(newr.parts@[t].ents@.contains(id));
                                assert(rig_owns(newr, id));
                            } else {
                                assert(inplace_removed(oldr, equip, n, id));
                            }
                        }
                    }
                }
            }
            assert forall|id: u64| #[trigger]
                self.arena.live(id) && !rig_owns(oldr, id) && !rig_owns(newr, id) implies w1.arena.live(
                id,
            ) by {
                if inplace_added(oldr, newr.parts@, equip, n, id) {
                    let t = choose|t: int|
                        0 <= t < n && oldr.parts@[t].item != equip[t]
                            && #[trigger] newr.parts@[t].ents@.contains(id);
                    assert(rig_owns(newr, id));
                }
            }
            assert forall|id: u64| #[trigger]
                w1.arena.live(id) && !rig_owns(oldr, id) && !rig_owns(newr, id) implies self.arena.live(
                id,
            ) by {
                if inplace_removed(oldr, equip, n, id) {
                    let t = choose|t: int|
                        0 <= t < n && oldr.parts@[t].item != equip[t]
                            && #[trigger] oldr.parts@[t].ents@.contains(id);
                    assert(rig_owns(oldr, id));
                }
            }
            assert forall|id: u64| #[trigger]
                rig_owns(newr, id) implies self.arena.live(id) && (!rig_owns(oldr, id) ==> id
                >= base) by {
                if newr.bones@.contains(id) {
                    assert(rig_owns(oldr, id));
                    assert(w1.arena.live(id));
                    if inplace_removed(oldr, equip, n, id) {
                        let t = choose|t: int|
                            0 <= t < n && oldr.parts@[t].item != equip[t]
                                && #[trigger] oldr.parts@[t].ents@.contains(id);
                    }
                    assert(self.arena.live(id));
                } else {
                    let t = choose|t: int|
                        0 <= t < n && #[trigger] newr.parts@[t].ents@.contains(id);
                    if oldr.parts@[t].item == equip[t] {
                        assert(oldr.parts@[t].ents@.contains(id));
                        assert(rig_owns(oldr, id));
                        assert(w1.arena.live(id));
                        if inplace_removed(oldr, equip, n, id) {
                            let t2 = choose|t2: int|
                                0 <= t2 < n && oldr.parts@[t2].item != equip[t2]
                                    && #[trigger] oldr.parts@[t2].ents@.contains(id);
                            assert(t2 != t);
                        }
                        assert(self.arena.live(id));
                    } else {
                        assert(inplace_added(oldr, newr.parts@, equip, n, id));
                        assert(self.arena.live(id));
                        assert(id >= base) by {
                            let k = choose|k: int|
                                0 <= k < newr.parts@[t].ents@.len() && newr.parts@[t].ents@[k]
                                    == id;
                        }
                    }
                }
            }
        }
    }

    /// Synchronize one character's rig with its authoritative state,
    /// applying the decision policy in order: storefront teardown,
    /// in-place patch, or full rebuild. Clears the change flag.
    pub fn sync_character(&mut self, i: usize)
        requires
            old(self).wf(),
            i < old(self).chars@.len(),
            old(self).arena.spawned_count() + SKELETON_BONE_COUNT + EQUIP_SLOT_COUNT
                <= MAX_ENTITIES,
        ensures
            final(self).wf(),
            final(self).chars@.len() == old(self).chars@.len(),
            forall|j: int|
                0 <= j < old(self).chars@.len() && j != i ==> final(self).chars@[j] == old(
                    self,
                ).chars@[j],
            arena_sync(
                old(self).arena,
                final(self).arena,
                old(self).chars@[i as int],
                final(self).chars@[i as int],
            ),
            final(self).arena.spawned_count() <= old(self).arena.spawned_count()
                + SKELETON_BONE_COUNT + EQUIP_SLOT_COUNT,
            // Path 1: an open storefront suppresses the rig; nothing is spawned.
            old(self).chars@[i as int].storefront ==> storefront_sync(
                old(self).chars@[i as int],
                final(self).chars@[i as int],
            ) && final(self).arena.spawned_count() == old(self).arena.spawned_count(),
            // Path 2: matching body type — patch in place, skeleton untouched.
            (!old(self).chars@[i as int].storefront && old(self).chars@[i as int].rig is Some
                && old(self).chars@[i as int].rig->Some_0.gender == old(
                self,
            ).chars@[i as int].identity.gender) ==> {
                let oldc = old(self).chars@[i as int];
                let newc = final(self).chars@[i as int];
                &&& newc == (Character {
                    rig: newc.rig,
                    collider: None,
                    model_height: None,
                    changed: false,
                    ..oldc
                })
                &&& newc.rig is Some
                &&& inplace_rig(
                    oldc.rig->Some_0,
                    newc.rig->Some_0,
                    oldc.equipment@,
                    old(self).arena.spawned_count(),
                )
                // Idempotence: when nothing needed patching and no collider was
                // attached, the arena is untouched — zero spawns, zero despawns.
                &&& (parts_match(oldc.rig->Some_0, oldc.equipment@) && oldc.collider is None)
                    ==> final(self).arena.spawned_count() == old(self).arena.spawned_count()
                    && (forall|id: u64| #[trigger]
                    final(self).arena.live(id) == old(self).arena.live(id))
            },
            // Path 3: no rig yet, or body type changed — tear down and rebuild.
            (!old(self).chars@[i as int].storefront && !(old(self).chars@[i as int].rig is Some
                && old(self).chars@[i as int].rig->Some_0.gender == old(
                self,
            ).chars@[i as int].identity.gender)) ==> {
                let oldc = old(self).chars@[i as int];
                let newc = final(self).chars@[i as int];
                &&& newc == (Character {
                    rig: newc.rig,
                    collider: None,
                    blink_timer: true,
                    changed: false,
                    ..oldc
                })
                &&& newc.rig is Some
                &&& fresh_rig(
                    newc.rig->Some_0,
                    oldc.identity.gender,
                    oldc.equipment@,
                    old(self).arena.spawned_count(),
                )
            },
    {
        let ghost w1 = *old(self);
        if self.chars[i].storefront {
            // Storefront open: despawn the rig's parts and bones, despawn the
            // collider, drop the blink timer; no new rig while shopping.
            let rig_opt = Option::take(&mut self.chars[i].rig);
            if let Some(rig) = rig_opt {
                teardown_rig(&mut self.arena, &rig);
            }
            let col = Option::take(&mut self.chars[i].collider);
            if let Some(e) = col {
                self.arena.despawn(e);
            }
            let c = &mut self.chars[i];
            c.blink_timer = false;
            c.changed = false;
            proof {
                lemma_wf_after_sync(w1, *self, i as int);
            }
            return ;
        }
        let gender = self.chars[i].identity.gender;
        let can_patch = match &self.chars[i].rig {
            Some(r) => r.gender == gender,
            None => false,
        };
        if !can_patch {
            // Rebuild: despawn every existing part and bone and the collider,
            // then build fresh for the full (identity, equipment) pair.
            let rig_opt = Option::take(&mut self.chars[i].rig);
            if let Some(rig) = rig_opt {
                teardown_rig(&mut self.arena, &rig);
            }
            let col = Option::take(&mut self.chars[i].collider);
            if let Some(e) = col {
                self.arena.despawn(e);
            }
            let new_rig = build_rig(&mut self.arena, gender, &self.chars[i].equipment);
            let c = &mut self.chars[i];
            c.rig = Some(new_rig);
            c.blink_timer = true;
            c.changed = false;
            proof {
                lemma_wf_after_sync(w1, *self, i as int);
            }
            return ;
        }
        // In-place patch: swap out only the slots whose item changed,
        // despawning the superseded part entities before spawning their
        // replacements; the skeleton is left untouched.
        self.patch_rig_parts(i);
        let ghost a2 = self.arena;
        let col = Option::take(&mut self.chars[i].collider);
        if let Some(e) = col {
            self.arena.despawn(e);
        }
        let c = &mut self.chars[i];
        c.model_height = None;
        c.changed = false;
        proof {
            let oldc = w1.chars@[i as int];
            let oldr = oldc.rig->Some_0;
            let newc = self.chars@[i as int];
            let newr = newc.rig->Some_0;
            let equip = oldc.equipment@;
            let base = w1.arena.spawned_count();
            assert(char_wf(oldc));
            if oldc.collider is Some {
                let e = oldc.collider->Some_0;
                assert(char_owns(oldc, e));
                assert(w1.arena.live(e));
                assert(e < base);
            }
            assert forall|id: u64| #[trigger]
                char_owns(oldc, id) && !char_owns(newc, id) implies !self.arena.live(id) by {
                if oldc.collider == Some(id) {
                    assert(!self.arena.live(id));
                } else {
                    assert(rig_owns(oldr, id) && !rig_owns(newr, id));
                    assert(!a2.live(id));
                }
            }
            assert forall|id: u64| #[trigger]
                self.arena.live(id) && !char_owns(oldc, id) && !char_owns(newc, id)
                implies w1.arena.live(id) by {
                assert(a2.live(id));
            }
            assert forall|id: u64| #[trigger]
                w1.arena.live(id) && !char_owns(oldc, id) && !char_owns(newc, id)
                implies self.arena.live(id) by {
                assert(a2.live(id));
                assert(oldc.collider != Some(id));
            }
            assert forall|id: u64| #[trigger]
                char_owns(newc, id) implies self.arena.live(id) && (!char_owns(oldc, id)
                ==> id >= base) by {
                assert(rig_owns(newr, id));
                assert(a2.live(id));
                if oldc.collider == Some(id) {
                    assert(!rig_owns(oldr, id));
                    assert(id >= base);
                    assert(false);
                }
            }
            lemma_wf_after_sync(w1, *self, i as int);
        }
    }

    /// Handle a storefront-removal notification for character `i`: force a
    /// fresh rebuild unconditionally, because the character had no rig
    /// while shopping. A removal does not count as a change under the
    /// change-detection scheme, so this runs off the separate
    /// removal-notification flag, which it clears. If the storefront was
    /// reopened in the meantime, only the flag is cleared.
    pub fn sync_store_closed(&mut self, i: usize)
        requires
            old(self).wf(),
            i < old(self).chars@.len(),
            old(self).chars@[i as int].store_closed,
            old(self).arena.spawned_count() + SKELETON_BONE_COUNT + EQUIP_SLOT_COUNT
                <= MAX_ENTITIES,
        ensures
            final(self).wf(),
            final(self).chars@.len() == old(self).chars@.len(),
            forall|j: int|
                0 <= j < old(self).chars@.len() && j != i ==> final(self).chars@[j] == old(
                    self,
                ).chars@[j],
            arena_sync(
                old(self).arena,
                final(self).arena,
                old(self).chars@[i as int],
                final(self).chars@[i as int],
            ),
            final(self).arena.spawned_count() <= old(self).arena.spawned_count()
                + SKELETON_BONE_COUNT + EQUIP_SLOT_COUNT,
            old(self).chars@[i as int].storefront ==> final(self).chars@[i as int] == (Character {
                store_closed: false,
                ..old(self).chars@[i as int]
            }) && final(self).arena == old(self).arena,
            !old(self).chars@[i as int].storefront ==> {
                let oldc = old(self).chars@[i as int];
                let newc = final(self).chars@[i as int];
                &&& newc == (Character {
                    rig: newc.rig,
                    collider: None,
                    blink_timer: true,
                    model_height: None,
                    store_closed: false,
                    ..oldc
                })
                &&& newc.rig is Some
                &&& fresh_rig(
                    newc.rig->Some_0,
                    oldc.identity.gender,
                    oldc.equipment@,
                    old(self).arena.spawned_count(),
                )
            },
    {
        let ghost w1 = *old(self);
        if self.chars[i].storefront {
            let c = &mut self.chars[i];
            c.store_closed = false;
            proof {
                crate::world::lemma_wf_after_plain_update(w1, *self, i as int);
                let oldc = w1.chars@[i as int];
                let newc = self.chars@[i as int];
                assert forall|id: u64| #[trigger]
                    char_owns(newc, id) implies self.arena.live(id) by {
                    assert(char_owns(oldc, id));
                }
            }
            return ;
        }
        let rig_opt = Option::take(&mut self.chars[i].rig);
        if let Some(rig) = rig_opt {
            teardown_rig(&mut self.arena, &rig);
        }
        let col = Option::take(&mut self.chars[i].collider);
        if let Some(e) = col {
            self.arena.despawn(e);
        }
        let gender = self.chars[i].identity.gender;
        let new_rig = build_rig(&mut self.arena, gender, &self.chars[i].equipment);
        let c = &mut self.chars[i];
        c.rig = Some(new_rig);
        c.blink_timer = true;
        c.model_height = None;
        c.store_closed = false;
        proof {
            lemma_wf_after_sync(w1, *self, i as int);
        }
    }

    /// Spawn-budget arithmetic for the frame loops: one more step of at
    /// most `k` spawns stays within the overall budget of `2 * n` steps.
    proof fn lemma_budget(i: int, n: int, k: int)
        requires
            0 <= i < 2 * n,
            k >= 0,
        ensures
            (i + 1) * k == i * k + k,
            (i + 1) * k <= 2 * n * k,
    {
        assert((i + 1) * k == i * k + k) by (nonlinear_arith);
        assert((i + 1) * k <= 2 * n * k) by (nonlinear_arith)
            requires
                0 <= i < 2 * n,
                k >= 0,
        ;
    }

    /// One synchronization frame: apply the decision policy to every
    /// character whose state changed, then poll the storefront-removal
    /// notifications and force their rebuilds. Every character ends in the
    /// state `frame_outcome` dictates from its state when the frame began
    /// — in particular, a character with neither flag set is left entirely
    /// untouched, its recorded children still live — and every
    /// notification flag ends clear.
    pub fn sync_frame(&mut self)
        requires
            old(self).wf(),
            old(self).arena.spawned_count() + 2 * old(self).chars@.len() * (SKELETON_BONE_COUNT
                + EQUIP_SLOT_COUNT) <= MAX_ENTITIES,
        ensures
            final(self).wf(),
            final(self).chars@.len() == old(self).chars@.len(),
            forall|j: int|
                0 <= j < final(self).chars@.len() ==> !(#[trigger] final(self).chars@[j]).changed
                    && !final(self).chars@[j].store_closed,
            forall|j: int|
                0 <= j < old(self).chars@.len() ==> frame_outcome(
                    old(self).chars@[j],
                    #[trigger] final(self).chars@[j],
                    old(self).arena.spawned_count(),
                ),
            final(self).arena.spawned_count() >= old(self).arena.spawned_count(),
            forall|j: int, id: u64|
                0 <= j < old(self).chars@.len() && !old(self).chars@[j].changed
                    && !old(self).chars@[j].store_closed
                    && #[trigger] char_owns(old(self).chars@[j], id)
                    ==> final(self).arena.live(id),
    {
        let ghost w1 = *old(self);
        let ghost base = w1.arena.spawned_count();
        let n = self.chars.len();
        let mut i: usize = 0;
        while i < n
            invariant
                i <= n,
                self.wf(),
                n == self.chars@.len(),
                n == w1.chars@.len(),
                self.arena.spawned_count() >= base,
                self.arena.spawned_count() <= base + i * (SKELETON_BONE_COUNT + EQUIP_SLOT_COUNT),
                base + 2 * (n as int) * (SKELETON_BONE_COUNT + EQUIP_SLOT_COUNT) <= MAX_ENTITIES,
                forall|j: int|
                    0 <= j < i ==> change_outcome(w1.chars@[j], #[trigger] self.chars@[j], base),
                forall|j: int| i <= j < n ==> #[trigger] self.chars@[j] == w1.chars@[j],
            decreases n - i,
        {
            proof {
                Self::lemma_budget(
                    i as int,
                    n as int,
                    (SKELETON_BONE_COUNT + EQUIP_SLOT_COUNT) as int,
                );
            }
            if self.chars[i].changed {
                let ghost mid = *self;
                self.sync_character(i);
                proof {
                    let oldc = w1.chars@[i as int];
                    let newc = self.chars@[i as int];
                    assert(mid.chars@[i as int] == oldc);
                    if oldc.storefront {
                    } else if oldc.rig is Some && oldc.rig->Some_0.gender
                        == oldc.identity.gender {
                        lemma_inplace_rig_mono(
                            oldc.rig->Some_0,
                            newc.rig->Some_0,
                            oldc.equipment@,
                            base,
                            mid.arena.spawned_count(),
                        );
                    } else {
                        lemma_fresh_rig_mono(
                            newc.rig->Some_0,
                            oldc.identity.gender,
                            oldc.equipment@,
                            base,
                            mid.arena.spawned_count(),
                        );
                    }
                    assert(sync_outcome(oldc, newc, base));
                    assert forall|j: int|
                        0 <= j < i implies change_outcome(
                        w1.chars@[j],
                        #[trigger] self.chars@[j],
                        base,
                    ) by {
                        assert(self.chars@[j] == mid.chars@[j]);
                    }
                }
            }
            i += 1;
        }
        let mut k: usize = 0;
        while k < n
            invariant
                k <= n,
                self.wf(),
                n == self.chars@.len(),
                n == w1.chars@.len(),
                self.arena.spawned_count() >= base,
                self.arena.spawned_count() <= base + (n + k) * (SKELETON_BONE_COUNT
                    + EQUIP_SLOT_COUNT),
                base + 2 * (n as int) * (SKELETON_BONE_COUNT + EQUIP_SLOT_COUNT) <= MAX_ENTITIES,
                forall|j: int|
                    0 <= j < k ==> frame_outcome(w1.chars@[j], #[trigger] self.chars@[j], base),
                forall|j: int|
                    k <= j < n ==> change_outcome(w1.chars@[j], #[trigger] self.chars@[j], base)
                        && self.chars@[j].store_closed == w1.chars@[j].store_closed,
            decreases n - k,
        {
            proof {
                Self::lemma_budget(
                    (n + k) as int,
                    n as int,
                    (SKELETON_BONE_COUNT + EQUIP_SLOT_COUNT) as int,
                );
            }
            if self.chars[k].store_closed {
                let ghost mid = *self;
                self.sync_store_closed(k);
                proof {
                    let oldc = w1.chars@[k as int];
                    let m = mid.chars@[k as int];
                    let newc = self.chars@[k as int];
                    assert(change_outcome(oldc, m, base));
                    if m.storefront {
                        assert(oldc.storefront);
                        assert(newc == (Character { store_closed: false, ..m }));
                    } else {
                        assert(!oldc.storefront);
                        lemma_fresh_rig_mono(
                            newc.rig->Some_0,
                            m.identity.gender,
                            m.equipment@,
                            base,
                            mid.arena.spawned_count(),
                        );
                        assert(m.identity == oldc.identity && m.equipment == oldc.equipment);
                    }
                    assert(frame_outcome(oldc, newc, base));
                    assert forall|j: int|
                        0 <= j < n && j != k implies #[trigger] self.chars@[j]
                        == mid.chars@[j] by {}
                }
            } else {
                proof {
                    assert(frame_outcome(w1.chars@[k as int], self.chars@[k as int], base));
                }
            }
            k += 1;
        }
        proof {
            assert forall|j: int, id: u64|
                0 <= j < n && !w1.chars@[j].changed && !w1.chars@[j].store_closed
                    && #[trigger] char_owns(w1.chars@[j], id) implies self.arena.live(id) by {
                assert(frame_outcome(w1.chars@[j], self.chars@[j], base));
                assert(self.chars@[j] == w1.chars@[j]);
                assert(char_owns(self.chars@[j], id));
            }
            assert forall|j: int|
                0 <= j < n implies !(#[trigger] self.chars@[j]).changed
                && !self.chars@[j].store_closed by {
                assert(frame_outcome(w1.chars@[j], self.chars@[j], base));
            }
        }
    }
}

/// No leak, no dangling reference: in a well-formed world — and every
/// public operation preserves well-formedness — an arena entity is live
/// exactly when exactly one character records it among its rig children or
/// as its collider. After any sequence of identity, equipment and
/// storefront toggles, the live entities are therefore precisely those the
/// characters' part sets and skeletons imply.
pub proof fn lemma_no_leak(w: World)
    requires
        w.wf(),
    ensures
        forall|id: u64| #[trigger]
            w.arena.live(id) <==> exists|i: int|
                0 <= i < w.chars@.len() && char_owns(w.chars@[i], id),
{
    assert forall|id: u64|
        (exists|i: int| 0 <= i < w.chars@.len() && char_owns(w.chars@[i], id))
            implies #[trigger] w.arena.live(id) by {
        let i = choose|i: int| 0 <= i < w.chars@.len() && char_owns(w.chars@[i], id);
    }
}

/// Ownership exclusivity: two distinct characters' rig child-entity sets
/// (collider included) never intersect.
pub proof fn lemma_ownership_exclusive(w: World, i: int, j: int, id: u64)
    requires
        w.wf(),
        0 <= i < w.chars@.len(),
        0 <= j < w.chars@.len(),
        i != j,
        char_owns(w.chars@[i], id),
    ensures
        !char_owns(w.chars@[j], id),
{
}

/// After an in-place patch the rig's recorded items agree with the
/// equipment, so a second synchronization of the same equipment meets the
/// idempotence case of the patch contract: zero spawns, zero despawns.
pub proof fn lemma_inplace_gives_match(oldr: Rig, newr: Rig, equipment: Seq<u32>, base: nat)
    requires
        inplace_rig(oldr, newr, equipment, base),
        oldr.parts@.len() == equipment.len(),
    ensures
        parts_match(newr, equipment),
{
    assert forall|s: int| 0 <= s < equipment.len() implies (#[trigger] newr.parts@[s]).item
        == equipment[s] by {
        if oldr.parts@[s].item == equipment[s] {
            assert(newr.parts@[s] == oldr.parts@[s]);
        }
    }
}

/// A body-type change forces a full rebuild: no bone (nor any other child)
/// of the old rig survives — all are despawned — and the replacement
/// skeleton consists entirely of freshly spawned entities, disjoint from
/// the old ones.
pub proof fn lemma_rebuild_replaces_skeleton(w1: World, w2: World, i: int)
    requires
        w1.wf(),
        0 <= i < w1.chars@.len(),
        w1.chars@[i].rig is Some,
        w2.chars@[i].rig is Some,
        w2.chars@[i].collider is None,
        arena_sync(w1.arena, w2.arena, w1.chars@[i], w2.chars@[i]),
        fresh_rig(
            w2.chars@[i].rig->Some_0,
            w1.chars@[i].identity.gender,
            w1.chars@[i].equipment@,
            w1.arena.spawned_count(),
        ),
        char_wf(w1.chars@[i]),
    ensures
        forall|id: u64| #[trigger]
            rig_owns(w1.chars@[i].rig->Some_0, id) ==> !w2.arena.live(id),
        forall|id: u64| #[trigger]
            rig_owns(w2.chars@[i].rig->Some_0, id) ==> !rig_owns(w1.chars@[i].rig->Some_0, id),
{
    broadcast use EntityArena::lemma_live_bound;

    let oldc = w1.chars@[i];
    let newc = w2.chars@[i];
    let oldr = oldc.rig->Some_0;
    let newr = newc.rig->Some_0;
    let base = w1.arena.spawned_count();
    assert forall|id: u64| #[trigger] rig_owns(newr, id) implies !rig_owns(oldr, id) by {
        if rig_owns(oldr, id) {
            assert(char_owns(oldc, id));
            assert(w1.arena.live(id));
            assert(id < base);
            assert(id >= base);
        }
    }
    assert forall|id: u64| #[trigger] rig_owns(oldr, id) implies !w2.arena.live(id) by {
        assert(char_owns(oldc, id));
        assert(w1.arena.live(id));
        assert(id < base);
        if char_owns(newc, id) {
            assert(rig_owns(newr, id));
            assert(id >= base);
        }
        assert(!char_owns(newc, id));
    }
}

/// An open storefront suppresses the rig: after the storefront path, every
/// child entity the character owned — parts, bones and collider — is
/// despawned, and none remains recorded.
pub proof fn lemma_storefront_clears_children(w1: World, w2: World, i: int)
    requires
        w1.wf(),
        0 <= i < w1.chars@.len(),
        arena_sync(w1.arena, w2.arena, w1.chars@[i], w2.chars@[i]),
        storefront_sync(w1.chars@[i], w2.chars@[i]),
    ensures
        forall|id: u64| #[trigger] char_owns(w1.chars@[i], id) ==> !w2.arena.live(id),
        forall|id: u64| !char_owns(w2.chars@[i], id),
{
    let newc = w2.chars@[i];
    assert(newc.rig is None);
    assert(newc.collider is None);
}

} // verus!
