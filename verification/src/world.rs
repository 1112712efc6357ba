//! The character world: persistent character entities, the shared entity
//! arena their visual children live in, and the ownership invariants that
//! tie the two together.
//!
//! Invariants maintained by every public operation:
//! - every child entity recorded in a character's rig or collider is live;
//! - no two characters ever record the same child entity, and within one
//!   character each child is recorded exactly once;
//! - every live arena entity is recorded by exactly one character — the
//!   arena never holds a leaked entity.

use vstd::prelude::*;

use crate::entities::EntityArena;
use crate::overlay::{Anchor, TagKind};

verus! {

/// Number of equipment slot categories a rig renders.
pub const EQUIP_SLOT_COUNT: usize = 8;

/// Number of bone entities a freshly built skeleton holds.
pub const SKELETON_BONE_COUNT: usize = 4;

/// An empty equipment slot holds item 0.
pub const EMPTY_ITEM: u32 = 0;

/// Appearance-relevant identity of a character. Rigs are only compatible
/// across identities that share `gender`, the body-type tag.
#[derive(Clone, Copy, PartialEq, Eq, Structural, Debug)]
pub struct Identity {
    pub gender: u8,
    pub face: u32,
    pub hair: u32,
}

/// The mesh parts currently rendering one equipment slot: the item they
/// were built for and the part entities spawned for it.
pub struct PartSlot {
    pub item: u32,
    pub ents: Vec<u64>,
}

/// A character's visual rig: the body-type tag it was built for, its
/// skeleton bone entities, and one part slot per equipment slot.
pub struct Rig {
    pub gender: u8,
    pub bones: Vec<u64>,
    pub parts: Vec<PartSlot>,
}

/// True when `id` is one of the rig's recorded child entities.
pub open spec fn rig_owns(rig: Rig, id: u64) -> bool {
    rig.bones@.contains(id) || exists|s: int|
        0 <= s < rig.parts@.len() && #[trigger] rig.parts@[s].ents@.contains(id)
}

/// Internal distinctness of a rig: no child entity is recorded twice,
/// neither within one list nor across bones and part slots.
pub open spec fn rig_distinct(rig: Rig) -> bool {
    &&& rig.bones@.no_duplicates()
    &&& forall|s: int| 0 <= s < rig.parts@.len() ==> (#[trigger] rig.parts@[s].ents@).no_duplicates()
    &&& forall|s: int, id: u64|
        0 <= s < rig.parts@.len() && #[trigger] rig.parts@[s].ents@.contains(id)
            ==> !rig.bones@.contains(id)
    &&& forall|s1: int, s2: int, id: u64|
        0 <= s1 < rig.parts@.len() && 0 <= s2 < rig.parts@.len() && s1 != s2
            && #[trigger] rig.parts@[s1].ents@.contains(id) ==> !(#[trigger] rig.parts@[s2].ents@.contains(
            id,
        ))
}

/// A persistent character entity with its authoritative state, its derived
/// visual state, and the per-frame change-notification flags.
pub struct Character {
    /// Authoritative appearance identity.
    pub identity: Identity,
    /// Equipped item per slot category; `EMPTY_ITEM` marks an empty slot.
    pub equipment: Vec<u32>,
    /// Whether a personal storefront is currently open on this character.
    pub storefront: bool,
    /// The derived visual rig, if one is currently built.
    pub rig: Option<Rig>,
    /// The owned hit-collider entity, if one is currently attached.
    pub collider: Option<u64>,
    /// Whether the appearance-cosmetic blink timer is attached.
    pub blink_timer: bool,
    /// The character's own standing height (centi-units), once known.
    pub model_height: Option<u32>,
    /// The overlay anchor floating above the character.
    pub anchor: Anchor,
    /// Whether this character is a non-player character.
    pub npc: bool,
    /// Whether the character is currently dead.
    pub dead: bool,
    /// Change-detection flag: authoritative state changed since the last
    /// synchronization frame.
    pub changed: bool,
    /// Removal-notification flag: the storefront was closed since the last
    /// synchronization frame (a removal does not raise `changed`).
    pub store_closed: bool,
}

/// True when `id` is a visual child entity recorded by this character.
pub open spec fn char_owns(c: Character, id: u64) -> bool {
    ||| match c.rig {
        Some(rig) => rig_owns(rig, id),
        None => false,
    }
    ||| c.collider == Some(id)
}

/// Well-formedness of one character's recorded visual state.
pub open spec fn char_wf(c: Character) -> bool {
    &&& c.equipment@.len() == EQUIP_SLOT_COUNT
    &&& match c.rig {
        Some(rig) => {
            &&& rig_distinct(rig)
            &&& rig.parts@.len() == EQUIP_SLOT_COUNT
            &&& match c.collider {
                Some(e) => !rig_owns(rig, e),
                None => true,
            }
        },
        None => true,
    }
}

/// The world: the shared entity arena and the characters in it.
pub struct World {
    pub arena: EntityArena,
    pub chars: Vec<Character>,
}

impl World {
    /// The ownership invariant of the whole world; see the module doc.
    pub open spec fn wf(self) -> bool {
        &&& forall|i: int| 0 <= i < self.chars@.len() ==> char_wf(#[trigger] self.chars@[i])
        &&& forall|i: int, id: u64|
            0 <= i < self.chars@.len() && #[trigger] char_owns(self.chars@[i], id)
                ==> self.arena.live(id)
        &&& forall|i: int, j: int, id: u64|
            0 <= i < self.chars@.len() && 0 <= j < self.chars@.len() && i != j && #[trigger] char_owns(
                self.chars@[i],
                id,
            ) ==> !(#[trigger] char_owns(self.chars@[j], id))
        &&& forall|id: u64| #[trigger]
            self.arena.live(id) ==> exists|i: int|
                0 <= i < self.chars@.len() && char_owns(self.chars@[i], id)
    }

    pub fn new() -> (w: World)
        ensures
            w.wf(),
            w.chars@.len() == 0,
            w.arena.spawned_count() == 0,
    {
        World { arena: EntityArena::new(), chars: Vec::new() }
    }

    /// Spawn a character with bare equipment and no rig yet; it is marked
    /// changed so the next synchronization frame builds its rig.
    pub fn add_character(&mut self, identity: Identity, kind: TagKind, npc: bool) -> (i: usize)
        requires
            old(self).wf(),
        ensures
            final(self).wf(),
            i == old(self).chars@.len(),
            final(self).chars@.len() == old(self).chars@.len() + 1,
            final(self).arena == old(self).arena,
            forall|j: int| 0 <= j < i ==> final(self).chars@[j] == old(self).chars@[j],
            final(self).chars@[i as int].identity == identity,
            final(self).chars@[i as int].rig is None,
            final(self).chars@[i as int].collider is None,
            final(self).chars@[i as int].storefront == false,
            final(self).chars@[i as int].changed == true,
            final(self).chars@[i as int].npc == npc,
            final(self).chars@[i as int].anchor.kind == kind,
    {
        let i = self.chars.len();
        let c = Character {
            identity,
            equipment: empty_equipment(),
            storefront: false,
            rig: None,
            collider: None,
            blink_timer: false,
            model_height: None,
            anchor: Anchor::new(kind, DEFAULT_STANDING_HEIGHT as u64),
            npc,
            dead: false,
            changed: true,
            store_closed: false,
        };
        self.chars.push(c);
        proof {
            assert forall|j: int| 0 <= j < self.chars@.len() implies char_wf(
                #[trigger] self.chars@[j],
            ) by {
                if j < old(self).chars@.len() {
                    assert(char_wf(old(self).chars@[j]));
                }
            }
            assert forall|j: int, id: u64|
                0 <= j < self.chars@.len() && #[trigger] char_owns(self.chars@[j], id) implies self
                .arena.live(id) by {
                if j < old(self).chars@.len() {
                    assert(char_owns(old(self).chars@[j], id));
                }
            }
            assert forall|id: u64| #[trigger] self.arena.live(id) implies exists|j: int|
                0 <= j < self.chars@.len() && char_owns(self.chars@[j], id) by {
                let j = choose|j: int|
                    0 <= j < old(self).chars@.len() && char_owns(old(self).chars@[j], id);
                assert(char_owns(self.chars@[j], id));
            }
        }
        i
    }

    /// Record a new authoritative identity; raises the change flag.
    pub fn set_identity(&mut self, i: usize, identity: Identity)
        requires
            old(self).wf(),
            i < old(self).chars@.len(),
        ensures
            final(self).wf(),
            final(self).arena == old(self).arena,
            final(self).chars@ == old(self).chars@.update(
                i as int,
                Character { identity, changed: true, ..old(self).chars@[i as int] },
            ),
    {
        let c = &mut self.chars[i];
        c.identity = identity;
        c.changed = true;
        proof {
            lemma_wf_after_plain_update(*old(self), *self, i as int);
        }
    }

    /// Record a new equipped item in one slot; raises the change flag.
    pub fn set_equipment(&mut self, i: usize, slot: usize, item: u32)
        requires
            old(self).wf(),
            i < old(self).chars@.len(),
            slot < EQUIP_SLOT_COUNT,
        ensures
            final(self).wf(),
            final(self).arena == old(self).arena,
            final(self).chars@.len() == old(self).chars@.len(),
            forall|j: int| 0 <= j < old(self).chars@.len() && j != i
                ==> final(self).chars@[j] == old(self).chars@[j],
            final(self).chars@[i as int] == (Character {
                equipment: final(self).chars@[i as int].equipment,
                changed: true,
                ..old(self).chars@[i as int]
            }),
            final(self).chars@[i as int].equipment@ == old(self).chars@[i as int].equipment@.update(
                slot as int,
                item,
            ),
    {
        let c = &mut self.chars[i];
        let e = &mut c.equipment[slot];
        *e = item;
        c.changed = true;
        proof {
            lemma_wf_after_plain_update(*old(self), *self, i as int);
        }
    }

    /// Open a personal storefront on the character; raises the change flag.
    pub fn open_storefront(&mut self, i: usize)
        requires
            old(self).wf(),
            i < old(self).chars@.len(),
        ensures
            final(self).wf(),
            final(self).arena == old(self).arena,
            final(self).chars@ == old(self).chars@.update(
                i as int,
                Character { storefront: true, changed: true, ..old(self).chars@[i as int] },
            ),
    {
        let c = &mut self.chars[i];
        c.storefront = true;
        c.changed = true;
        proof {
            lemma_wf_after_plain_update(*old(self), *self, i as int);
        }
    }

    /// Close the personal storefront. A removal is not a change under the
    /// change-detection scheme, so only the removal-notification flag is
    /// raised; the synchronization frame polls it separately.
    pub fn close_storefront(&mut self, i: usize)
        requires
            old(self).wf(),
            i < old(self).chars@.len(),
        ensures
            final(self).wf(),
            final(self).arena == old(self).arena,
            final(self).chars@ == old(self).chars@.update(
                i as int,
                Character { storefront: false, store_closed: true, ..old(self).chars@[i as int] },
            ),
    {
        let c = &mut self.chars[i];
        c.storefront = false;
        c.store_closed = true;
        proof {
            lemma_wf_after_plain_update(*old(self), *self, i as int);
        }
    }

    /// Record whether the character is dead.
    pub fn set_dead(&mut self, i: usize, dead: bool)
        requires
            old(self).wf(),
            i < old(self).chars@.len(),
        ensures
            final(self).wf(),
            final(self).arena == old(self).arena,
            final(self).chars@ == old(self).chars@.update(
                i as int,
                Character { dead, ..old(self).chars@[i as int] },
            ),
    {
        let c = &mut self.chars[i];
        c.dead = dead;
        proof {
            lemma_wf_after_plain_update(*old(self), *self, i as int);
        }
    }

    /// Record the character's own standing height, as the downstream
    /// measurement system reports it.
    pub fn set_model_height(&mut self, i: usize, height: u32)
        requires
            old(self).wf(),
            i < old(self).chars@.len(),
        ensures
            final(self).wf(),
            final(self).arena == old(self).arena,
            final(self).chars@ == old(self).chars@.update(
                i as int,
                Character { model_height: Some(height), ..old(self).chars@[i as int] },
            ),
    {
        let c = &mut self.chars[i];
        c.model_height = Some(height);
        proof {
            lemma_wf_after_plain_update(*old(self), *self, i as int);
        }
    }
}

/// Re-establishes the world invariant after an update that changed one
/// character's authoritative or overlay fields but left its recorded visual
/// children (rig and collider) and the arena untouched.
pub proof fn lemma_wf_after_plain_update(w1: World, w2: World, i: int)
    requires
        w1.wf(),
        w2.arena == w1.arena,
        w2.chars@.len() == w1.chars@.len(),
        0 <= i < w1.chars@.len(),
        forall|j: int| 0 <= j < w1.chars@.len() && j != i ==> w2.chars@[j] == w1.chars@[j],
        w2.chars@[i].rig == w1.chars@[i].rig,
        w2.chars@[i].collider == w1.chars@[i].collider,
        w2.chars@[i].equipment@.len() == w1.chars@[i].equipment@.len(),
    ensures
        w2.wf(),
{
    assert forall|id: u64| char_owns(w2.chars@[i], id) == char_owns(w1.chars@[i], id) by {}
    assert forall|j: int| 0 <= j < w2.chars@.len() implies char_wf(#[trigger] w2.chars@[j]) by {
        assert(char_wf(w1.chars@[j]));
    }
    assert forall|j: int, id: u64|
        0 <= j < w2.chars@.len() && #[trigger] char_owns(w2.chars@[j], id) implies w2.arena.live(
        id,
    ) by {
        assert(char_owns(w1.chars@[j], id));
    }
    assert forall|id: u64| #[trigger] w2.arena.live(id) implies exists|j: int|
        0 <= j < w2.chars@.len() && char_owns(w2.chars@[j], id) by {
        let j = choose|j: int| 0 <= j < w1.chars@.len() && char_owns(w1.chars@[j], id);
        assert(char_owns(w2.chars@[j], id));
    }
}

/// Re-establishes the world invariant after an update that changed only
/// anchor fields, possibly on several characters: overlay visibility never
/// moves entity ownership.
pub proof fn lemma_wf_after_anchor_updates(w1: World, w2: World)
    requires
        w1.wf(),
        w2.arena == w1.arena,
        w2.chars@.len() == w1.chars@.len(),
        forall|j: int|
            0 <= j < w1.chars@.len() ==> w2.chars@[j] == (Character {
                anchor: w2.chars@[j].anchor,
                ..w1.chars@[j]
            }),
    ensures
        w2.wf(),
{
    assert forall|j: int| 0 <= j < w2.chars@.len() implies char_wf(#[trigger] w2.chars@[j]) by {
        assert(char_wf(w1.chars@[j]));
    }
    assert forall|j: int, id: u64|
        0 <= j < w2.chars@.len() && #[trigger] char_owns(w2.chars@[j], id) implies w2.arena.live(
        id,
    ) by {
        assert(char_owns(w1.chars@[j], id));
    }
    assert forall|j: int, k: int, id: u64|
        0 <= j < w2.chars@.len() && 0 <= k < w2.chars@.len() && j != k && #[trigger] char_owns(
            w2.chars@[j],
            id,
        ) implies !(#[trigger] char_owns(w2.chars@[k], id)) by {
        assert(char_owns(w1.chars@[j], id));
        if char_owns(w2.chars@[k], id) {
            assert(char_owns(w1.chars@[k], id));
        }
    }
    assert forall|id: u64| #[trigger] w2.arena.live(id) implies exists|j: int|
        0 <= j < w2.chars@.len() && char_owns(w2.chars@[j], id) by {
        let j = choose|j: int| 0 <= j < w1.chars@.len() && char_owns(w1.chars@[j], id);
        assert(char_owns(w2.chars@[j], id));
    }
}

/// Default standing height (centi-units) assumed before the character's own
/// height has been measured.
pub const DEFAULT_STANDING_HEIGHT: u32 = 180;

/// Equipment with every slot empty.
pub fn empty_equipment() -> (e: Vec<u32>)
    ensures
        e@.len() == EQUIP_SLOT_COUNT,
        forall|s: int| 0 <= s < EQUIP_SLOT_COUNT ==> e@[s] == EMPTY_ITEM,
{
    let mut e: Vec<u32> = Vec::new();
    let mut s: usize = 0;
    while s < EQUIP_SLOT_COUNT
        invariant
            s <= EQUIP_SLOT_COUNT,
            e@.len() == s,
            forall|k: int| 0 <= k < s ==> e@[k] == EMPTY_ITEM,
        decreases EQUIP_SLOT_COUNT - s,
    {
        e.push(EMPTY_ITEM);
        s += 1;
    }
    e
}

} // verus!
