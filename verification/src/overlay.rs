//! Overlay anchors: the floating marker above a character that carries its
//! name label, selection mark and health bar, and the focus state machine
//! that drives their visibility from the hover/selected pair.

use vstd::prelude::*;

use crate::world::Character;

verus! {

/// Render visibility of an overlay element. `Inherited` means the element
/// renders with its parent; `Hidden` suppresses it.
#[derive(Clone, Copy, PartialEq, Eq, Structural, Debug)]
pub enum Visibility {
    Inherited,
    Hidden,
}

/// What kind of being an overlay anchor labels; the health-bar rule and the
/// per-kind "always show" display setting key off this tag.
#[derive(Clone, Copy, PartialEq, Eq, Structural, Debug)]
pub enum TagKind {
    Character,
    Npc,
    Monster,
}

/// The overlay anchor owned by a character: its own visibility, the
/// visibility of its fixed set of children, and the vertical offset at
/// which it renders above the character (in centi-units).
#[derive(Clone, Copy, PartialEq, Eq, Structural, Debug)]
pub struct Anchor {
    pub kind: TagKind,
    /// Vertical offset of the anchor above the character's root.
    pub height: u64,
    /// The anchor's own visibility (the name label background).
    pub own_vis: Visibility,
    /// The name label child.
    pub label_vis: Visibility,
    /// The selection-mark child; only ever shown while selected.
    pub mark_vis: Visibility,
    /// Health-bar background child; selection-only.
    pub health_bg_vis: Visibility,
    /// Health-bar foreground child; selection-only.
    pub health_fg_vis: Visibility,
}

impl Anchor {
    /// A freshly created anchor: default-hidden, at standing height.
    pub fn new(kind: TagKind, height: u64) -> (anchor: Anchor)
        ensures
            anchor == (Anchor {
                kind,
                height,
                own_vis: Visibility::Hidden,
                label_vis: Visibility::Inherited,
                mark_vis: Visibility::Hidden,
                health_bg_vis: Visibility::Hidden,
                health_fg_vis: Visibility::Hidden,
            }),
    {
        Anchor {
            kind,
            height,
            own_vis: Visibility::Hidden,
            label_vis: Visibility::Inherited,
            mark_vis: Visibility::Hidden,
            health_bg_vis: Visibility::Hidden,
            health_fg_vis: Visibility::Hidden,
        }
    }
}

/// The per-kind "always show this tag" display setting, read-only user
/// configuration.
#[derive(Clone, Copy, PartialEq, Eq, Structural, Debug)]
pub struct TagSettings {
    pub show_character: bool,
    pub show_npc: bool,
    pub show_monster: bool,
}

impl TagSettings {
    /// The setting that applies to an anchor of kind `kind`.
    pub open spec fn spec_shows(self, kind: TagKind) -> bool {
        match kind {
            TagKind::Character => self.show_character,
            TagKind::Npc => self.show_npc,
            TagKind::Monster => self.show_monster,
        }
    }

    #[verifier::when_used_as_spec(spec_shows)]
    pub fn shows(self, kind: TagKind) -> (r: bool)
        ensures
            r == self.spec_shows(kind),
    {
        match kind {
            TagKind::Character => self.show_character,
            TagKind::Npc => self.show_npc,
            TagKind::Monster => self.show_monster,
        }
    }
}

/// The process-wide focus pair, written by user input (out of scope) and
/// by the dead-target veto below.
#[derive(Clone, Copy, PartialEq, Eq, Structural, Debug)]
pub struct SelectedTarget {
    pub hover: Option<usize>,
    pub selected: Option<usize>,
}

/// The focus state machine's only persisted memory: the anchors recorded
/// as hovered and selected on the previous frame.
#[derive(Clone, Copy, PartialEq, Eq, Structural, Debug)]
pub struct NameTagVisibility {
    pub hover: Option<usize>,
    pub selected: Option<usize>,
}

impl NameTagVisibility {
    /// The machine starts with no focus memory.
    pub fn new() -> (st: NameTagVisibility)
        ensures
            st == (NameTagVisibility { hover: None, selected: None }),
    {
        NameTagVisibility { hover: None, selected: None }
    }
}

/// The focus target resolves to a dead non-player character; focusing a
/// corpse is disallowed.
pub open spec fn resolves_dead_npc(chars: Seq<crate::world::Character>, t: Option<usize>) -> bool {
    match t {
        Some(e) => e < chars.len() && chars[e as int].npc && chars[e as int].dead,
        None => false,
    }
}

/// The veto of step one: a focus field pointing at a dead non-player
/// character is cleared; anything else passes through.
pub open spec fn vetoed(chars: Seq<crate::world::Character>, t: Option<usize>) -> Option<usize> {
    if resolves_dead_npc(chars, t) {
        None
    } else {
        t
    }
}

/// Resolve a focus target to its overlay anchor: the anchor lives on the
/// character itself, so a valid character index is its own anchor and an
/// invalid reference resolves to nothing.
pub open spec fn resolve_anchor(chars: Seq<crate::world::Character>, t: Option<usize>) -> Option<
    usize,
> {
    match t {
        Some(e) => if e < chars.len() {
            Some(e)
        } else {
            None
        },
        None => None,
    }
}

/// The default visibility rule for an anchor when no focus forces it:
/// visible if its owner has a personal storefront open (those are always
/// shown) or its kind's "always show" setting is on; otherwise hidden.
pub open spec fn default_tag_visibility(
    c: crate::world::Character,
    settings: TagSettings,
) -> Visibility {
    if c.storefront || settings.spec_shows(c.anchor.kind) {
        Visibility::Inherited
    } else {
        Visibility::Hidden
    }
}

/// The focus reference names character `k`.
pub open spec fn targets_index(t: Option<usize>, k: int) -> bool {
    match t {
        Some(x) => x == k,
        None => false,
    }
}

/// What one focus tick leaves on the anchor of character `k`, given the
/// previous frame's memory and the newly resolved hover/selection, in the
/// order the machine applies its writes: hover restore, hover force,
/// selection restore, selection force — so a later write wins.
pub open spec fn anchor_after_focus(
    c: Character,
    k: int,
    prev_hover: Option<usize>,
    prev_sel: Option<usize>,
    new_hover: Option<usize>,
    new_sel: Option<usize>,
    settings: TagSettings,
) -> Anchor {
    let hover_restored = targets_index(prev_hover, k) && new_hover != prev_hover;
    let sel_restored = targets_index(prev_sel, k) && new_sel != prev_sel;
    let hb = if c.storefront || c.anchor.kind == TagKind::Character {
        Visibility::Hidden
    } else {
        Visibility::Inherited
    };
    Anchor {
        kind: c.anchor.kind,
        height: c.anchor.height,
        own_vis: if targets_index(new_sel, k) {
            Visibility::Inherited
        } else if sel_restored {
            default_tag_visibility(c, settings)
        } else if targets_index(new_hover, k) {
            Visibility::Inherited
        } else if hover_restored {
            default_tag_visibility(c, settings)
        } else {
            c.anchor.own_vis
        },
        label_vis: if targets_index(new_sel, k) {
            Visibility::Inherited
        } else {
            c.anchor.label_vis
        },
        mark_vis: if targets_index(new_sel, k) {
            Visibility::Inherited
        } else if sel_restored {
            Visibility::Hidden
        } else {
            c.anchor.mark_vis
        },
        health_bg_vis: if targets_index(new_sel, k) {
            hb
        } else if sel_restored {
            Visibility::Hidden
        } else {
            c.anchor.health_bg_vis
        },
        health_fg_vis: if targets_index(new_sel, k) {
            hb
        } else if sel_restored {
            Visibility::Hidden
        } else {
            c.anchor.health_fg_vis
        },
    }
}

/// The hover-loss half of a tick on the anchor of character `k`: when the
/// hover moved, the previous hover anchor falls back to its default
/// visibility.
pub open spec fn anchor_after_hover_restore(
    c: Character,
    k: int,
    prev_hover: Option<usize>,
    new_hover: Option<usize>,
    settings: TagSettings,
) -> Anchor {
    if targets_index(prev_hover, k) && new_hover != prev_hover {
        Anchor { own_vis: default_tag_visibility(c, settings), ..c.anchor }
    } else {
        c.anchor
    }
}

/// The hover-force half of a tick on the anchor of character `k`: a
/// hovered anchor is always visible itself.
pub open spec fn anchor_after_hover_force(c: Character, k: int, new_hover: Option<usize>) -> Anchor {
    if targets_index(new_hover, k) {
        Anchor { own_vis: Visibility::Inherited, ..c.anchor }
    } else {
        c.anchor
    }
}

/// The selection-loss half of a tick on the anchor of character `k`: on a
/// selection change the previous anchor falls back to its default
/// visibility and its selection-only children are hidden.
pub open spec fn anchor_after_sel_restore(
    c: Character,
    k: int,
    prev_sel: Option<usize>,
    new_sel: Option<usize>,
    settings: TagSettings,
) -> Anchor {
    if targets_index(prev_sel, k) && new_sel != prev_sel {
        Anchor {
            own_vis: default_tag_visibility(c, settings),
            mark_vis: Visibility::Hidden,
            health_bg_vis: Visibility::Hidden,
            health_fg_vis: Visibility::Hidden,
            ..c.anchor
        }
    } else {
        c.anchor
    }
}

/// The selection-assert half of a tick on the anchor of character `k`: an
/// active selection shows the anchor and all its children, except health
/// bars on storefronts and player characters, which stay hidden.
pub open spec fn anchor_after_sel_force(c: Character, k: int, new_sel: Option<usize>) -> Anchor {
    if targets_index(new_sel, k) {
        let hb = if c.storefront || c.anchor.kind == TagKind::Character {
            Visibility::Hidden
        } else {
            Visibility::Inherited
        };
        Anchor {
            own_vis: Visibility::Inherited,
            label_vis: Visibility::Inherited,
            mark_vis: Visibility::Inherited,
            health_bg_vis: hb,
            health_fg_vis: hb,
            ..c.anchor
        }
    } else {
        c.anchor
    }
}

/// The four write steps composed in machine order equal the one-tick
/// summary.
proof fn lemma_focus_compose(
    c0: Character,
    c1: Character,
    c2: Character,
    c3: Character,
    c4: Character,
    k: int,
    prev_hover: Option<usize>,
    prev_sel: Option<usize>,
    new_hover: Option<usize>,
    new_sel: Option<usize>,
    settings: TagSettings,
)
    requires
        c1 == (Character {
            anchor: anchor_after_hover_restore(c0, k, prev_hover, new_hover, settings),
            ..c0
        }),
        c2 == (Character { anchor: anchor_after_hover_force(c1, k, new_hover), ..c1 }),
        c3 == (Character {
            anchor: anchor_after_sel_restore(c2, k, prev_sel, new_sel, settings),
            ..c2
        }),
        c4 == (Character { anchor: anchor_after_sel_force(c3, k, new_sel), ..c3 }),
    ensures
        c4 == (Character {
            anchor: anchor_after_focus(c0, k, prev_hover, prev_sel, new_hover, new_sel, settings),
            ..c0
        }),
{
}

/// Option equality on focus references.
fn opt_eq(a: Option<usize>, b: Option<usize>) -> (r: bool)
    ensures
        r == (a == b),
{
    match (a, b) {
        (None, None) => true,
        (Some(x), Some(y)) => x == y,
        _ => false,
    }
}

/// The default visibility rule, executably.
fn default_vis_of(c: &Character, settings: TagSettings) -> (v: Visibility)
    ensures
        v == default_tag_visibility(*c, settings),
{
    if c.storefront || settings.shows(c.anchor.kind) {
        Visibility::Inherited
    } else {
        Visibility::Hidden
    }
}

impl crate::world::World {
    /// Replace the anchor of character `k`, leaving everything else as it
    /// was.
    fn write_anchor(&mut self, k: usize, anchor: Anchor)
        requires
            k < old(self).chars@.len(),
        ensures
            final(self).arena == old(self).arena,
            final(self).chars@ == old(self).chars@.update(
                k as int,
                Character { anchor, ..old(self).chars@[k as int] },
            ),
    {
        let c = &mut self.chars[k];
        c.anchor = anchor;
    }

    /// The hover-loss transition: restore the previous hover anchor's
    /// default visibility when the hover moved, and record the new hover
    /// anchor.
    #[verifier::rlimit(50)]
    fn hover_restore_phase(
        &mut self,
        st: &mut NameTagVisibility,
        hover: Option<usize>,
        settings: TagSettings,
    )
        ensures
            final(self).arena == old(self).arena,
            final(self).chars@.len() == old(self).chars@.len(),
            final(st).hover == hover,
            final(st).selected == old(st).selected,
            forall|k: int|
                0 <= k < old(self).chars@.len() ==> final(self).chars@[k] == (Character {
                    anchor: anchor_after_hover_restore(
                        old(self).chars@[k],
                        k,
                        old(st).hover,
                        hover,
                        settings,
                    ),
                    ..old(self).chars@[k]
                }),
    {
        let n = self.chars.len();
        if !opt_eq(st.hover, hover) {
            if let Some(p) = st.hover {
                if p < n {
                    let d = default_vis_of(&self.chars[p], settings);
                    let a0 = self.chars[p].anchor;
                    self.write_anchor(p, Anchor { own_vis: d, ..a0 });
                }
            }
            st.hover = hover;
        }
    }

    /// The hover-force step: a hovered anchor is always visible itself.
    #[verifier::rlimit(50)]
    fn hover_force_phase(&mut self, hover: Option<usize>)
        requires
            match hover {
                Some(e) => e < old(self).chars@.len(),
                None => true,
            },
        ensures
            final(self).arena == old(self).arena,
            final(self).chars@.len() == old(self).chars@.len(),
            forall|k: int|
                0 <= k < old(self).chars@.len() ==> final(self).chars@[k] == (Character {
                    anchor: anchor_after_hover_force(old(self).chars@[k], k, hover),
                    ..old(self).chars@[k]
                }),
    {
        if let Some(e) = hover {
            let a0 = self.chars[e].anchor;
            self.write_anchor(e, Anchor { own_vis: Visibility::Inherited, ..a0 });
        }
    }

    /// The selection-loss transition: when the selection moved, the
    /// previous anchor falls back to its default visibility and its
    /// selection-only children are hidden; the new selection is recorded.
    #[verifier::rlimit(50)]
    fn sel_restore_phase(
        &mut self,
        st: &mut NameTagVisibility,
        selected: Option<usize>,
        settings: TagSettings,
    )
        ensures
            final(self).arena == old(self).arena,
            final(self).chars@.len() == old(self).chars@.len(),
            final(st).selected == selected,
            final(st).hover == old(st).hover,
            forall|k: int|
                0 <= k < old(self).chars@.len() ==> final(self).chars@[k] == (Character {
                    anchor: anchor_after_sel_restore(
                        old(self).chars@[k],
                        k,
                        old(st).selected,
                        selected,
                        settings,
                    ),
                    ..old(self).chars@[k]
                }),
    {
        let n = self.chars.len();
        if !opt_eq(st.selected, selected) {
            if let Some(p) = st.selected {
                if p < n {
                    let d = default_vis_of(&self.chars[p], settings);
                    let a0 = self.chars[p].anchor;
                    self.write_anchor(
                        p,
                        Anchor {
                            own_vis: d,
                            mark_vis: Visibility::Hidden,
                            health_bg_vis: Visibility::Hidden,
                            health_fg_vis: Visibility::Hidden,
                            ..a0
                        },
                    );
                }
            }
            st.selected = selected;
        }
    }

    /// The selection-assert step, run on every tick a selection exists:
    /// show the anchor and its children, except health bars on storefronts
    /// and player characters.
    fn sel_force_phase(&mut self, selected: Option<usize>)
        requires
            match selected {
                Some(e) => e < old(self).chars@.len(),
                None => true,
            },
        ensures
            final(self).arena == old(self).arena,
            final(self).chars@.len() == old(self).chars@.len(),
            forall|k: int|
                0 <= k < old(self).chars@.len() ==> final(self).chars@[k] == (Character {
                    anchor: anchor_after_sel_force(old(self).chars@[k], k, selected),
                    ..old(self).chars@[k]
                }),
    {
        if let Some(e) = selected {
            let hide_health = self.chars[e].storefront || (match self.chars[e].anchor.kind {
                TagKind::Character => true,
                TagKind::Npc => false,
                TagKind::Monster => false,
            });
            let hb = if hide_health {
                Visibility::Hidden
            } else {
                Visibility::Inherited
            };
            let a0 = self.chars[e].anchor;
            self.write_anchor(
                e,
                Anchor {
                    own_vis: Visibility::Inherited,
                    label_vis: Visibility::Inherited,
                    mark_vis: Visibility::Inherited,
                    health_bg_vis: hb,
                    health_fg_vis: hb,
                    ..a0
                },
            );
        }
    }

    /// One tick of the overlay focus state machine, in order: the
    /// dead-target veto, the hover transition, the selection transition.
    /// The selection's child-visibility rule is reasserted on every tick a
    /// selection exists, not only on the transition edge.
    #[verifier::rlimit(100)]
    pub fn focus_update(
        &mut self,
        targets: &mut SelectedTarget,
        st: &mut NameTagVisibility,
        settings: TagSettings,
    )
        requires
            old(self).wf(),
        ensures
            final(self).wf(),
            final(self).arena == old(self).arena,
            final(self).chars@.len() == old(self).chars@.len(),
            final(targets).hover == vetoed(old(self).chars@, old(targets).hover),
            final(targets).selected == vetoed(old(self).chars@, old(targets).selected),
            final(st).hover == resolve_anchor(
                old(self).chars@,
                vetoed(old(self).chars@, old(targets).hover),
            ),
            final(st).selected == resolve_anchor(
                old(self).chars@,
                vetoed(old(self).chars@, old(targets).selected),
            ),
            forall|k: int|
                0 <= k < old(self).chars@.len() ==> final(self).chars@[k] == (Character {
                    anchor: anchor_after_focus(
                        old(self).chars@[k],
                        k,
                        old(st).hover,
                        old(st).selected,
                        resolve_anchor(
                            old(self).chars@,
                            vetoed(old(self).chars@, old(targets).hover),
                        ),
                        resolve_anchor(
                            old(self).chars@,
                            vetoed(old(self).chars@, old(targets).selected),
                        ),
                        settings,
                    ),
                    ..old(self).chars@[k]
                }),
    {
        let ghost w1 = *old(self);
        let ghost prev_h = st.hover;
        let ghost prev_s = st.selected;
        let n = self.chars.len();
        // Dead-target veto: clear a focus field that resolves to a dead
        // non-player character.
        let veto_sel = match targets.selected {
            Some(e) => e < n && self.chars[e].npc && self.chars[e].dead,
            None => false,
        };
        if veto_sel {
            targets.selected = None;
        }
        let veto_hov = match targets.hover {
            Some(e) => e < n && self.chars[e].npc && self.chars[e].dead,
            None => false,
        };
        if veto_hov {
            targets.hover = None;
        }
        // Resolve the focus targets to their overlay anchors.
        let hover = match targets.hover {
            Some(e) => if e < n {
                Some(e)
            } else {
                None
            },
            None => None,
        };
        let selected = match targets.selected {
            Some(e) => if e < n {
                Some(e)
            } else {
                None
            },
            None => None,
        };
        self.hover_restore_phase(st, hover, settings);
        let ghost w_b = *self;
        self.hover_force_phase(hover);
        let ghost w_c = *self;
        self.sel_restore_phase(st, selected, settings);
        let ghost w_d = *self;
        self.sel_force_phase(selected);
        proof {
            let hnew = resolve_anchor(w1.chars@, vetoed(w1.chars@, old(targets).hover));
            let snew = resolve_anchor(w1.chars@, vetoed(w1.chars@, old(targets).selected));
            assert(hnew == hover);
            assert(snew == selected);
            assert forall|k: int| 0 <= k < w1.chars@.len() implies self.chars@[k] == (Character {
                anchor: anchor_after_focus(w1.chars@[k], k, prev_h, prev_s, hnew, snew, settings),
                ..w1.chars@[k]
            }) by {
                lemma_focus_compose(
                    w1.chars@[k],
                    w_b.chars@[k],
                    w_c.chars@[k],
                    w_d.chars@[k],
                    self.chars@[k],
                    k,
                    prev_h,
                    prev_s,
                    hnew,
                    snew,
                    settings,
                );
            }
            crate::world::lemma_wf_after_anchor_updates(w1, *self);
        }
    }

    /// The character began riding a mount: reposition its overlay anchor
    /// to the mount's driver-seat height plus the character's own standing
    /// height (the default if its height is not yet known). The seat
    /// height is an external lookup against the mount's rig metadata;
    /// when it cannot be resolved the caller passes zero.
    pub fn vehicle_mounted(&mut self, i: usize, seat_height: u32)
        requires
            old(self).wf(),
            i < old(self).chars@.len(),
        ensures
            final(self).wf(),
            final(self).arena == old(self).arena,
            final(self).chars@ == old(self).chars@.update(
                i as int,
                Character {
                    anchor: Anchor {
                        height: (seat_height + standing_height(old(self).chars@[i as int])) as u64,
                        ..old(self).chars@[i as int].anchor
                    },
                    ..old(self).chars@[i as int]
                },
            ),
    {
        let standing: u32 = match self.chars[i].model_height {
            Some(h) => h,
            None => crate::world::DEFAULT_STANDING_HEIGHT,
        };
        let a0 = self.chars[i].anchor;
        self.write_anchor(i, Anchor { height: seat_height as u64 + standing as u64, ..a0 });
        proof {
            crate::world::lemma_wf_after_anchor_updates(*old(self), *self);
        }
    }

    /// The character stopped riding: restore the overlay anchor to the
    /// character's own standing height. A character whose height was never
    /// measured is left untouched.
    pub fn vehicle_dismounted(&mut self, i: usize)
        requires
            old(self).wf(),
            i < old(self).chars@.len(),
        ensures
            final(self).wf(),
            final(self).arena == old(self).arena,
            final(self).chars@.len() == old(self).chars@.len(),
            old(self).chars@[i as int].model_height is Some ==> final(self).chars@ == old(
                self,
            ).chars@.update(
                i as int,
                Character {
                    anchor: Anchor {
                        height: old(self).chars@[i as int].model_height->Some_0 as u64,
                        ..old(self).chars@[i as int].anchor
                    },
                    ..old(self).chars@[i as int]
                },
            ),
            old(self).chars@[i as int].model_height is None ==> *final(self) == *old(self),
    {
        if let Some(h) = self.chars[i].model_height {
            let a0 = self.chars[i].anchor;
            self.write_anchor(i, Anchor { height: h as u64, ..a0 });
            proof {
                crate::world::lemma_wf_after_anchor_updates(*old(self), *self);
            }
        }
    }
}

/// Dead-target veto: a focus pair whose selection resolves to a dead
/// non-player character has that selection cleared by the tick, and the
/// character's anchor falls back to its default visibility with its
/// selection-only children hidden.
pub proof fn lemma_dead_target_veto(
    chars: Seq<Character>,
    k: int,
    targets: SelectedTarget,
    st: NameTagVisibility,
    settings: TagSettings,
)
    requires
        0 <= k < chars.len(),
        chars[k].npc,
        chars[k].dead,
        targets_index(targets.selected, k),
        targets_index(st.selected, k),
    ensures
        vetoed(chars, targets.selected) == None::<usize>,
        ({
            let hnew = resolve_anchor(chars, vetoed(chars, targets.hover));
            let snew = resolve_anchor(chars, vetoed(chars, targets.selected));
            let a = anchor_after_focus(chars[k], k, st.hover, st.selected, hnew, snew, settings);
            &&& a.own_vis == default_tag_visibility(chars[k], settings)
            &&& a.mark_vis == Visibility::Hidden
            &&& a.health_bg_vis == Visibility::Hidden
            &&& a.health_fg_vis == Visibility::Hidden
        }),
{
    let hnew = resolve_anchor(chars, vetoed(chars, targets.hover));
    assert(!targets_index(hnew, k));
}

/// Hovering an anchor forces it visible, as long as this tick is not also
/// taking a selection away from that same anchor.
pub proof fn lemma_hover_forces_visible(
    chars: Seq<Character>,
    k: int,
    prev_hover: Option<usize>,
    prev_sel: Option<usize>,
    new_hover: Option<usize>,
    new_sel: Option<usize>,
    settings: TagSettings,
)
    requires
        0 <= k < chars.len(),
        targets_index(new_hover, k),
        !(targets_index(prev_sel, k) && new_sel != prev_sel),
    ensures
        anchor_after_focus(chars[k], k, prev_hover, prev_sel, new_hover, new_sel, settings).own_vis
            == Visibility::Inherited,
{
}

/// Moving the hover away from a still-selected anchor leaves that anchor's
/// selection-driven visibility untouched: the hover restore is overridden
/// by the selection rule, so the anchor and its children stay as selection
/// dictates, while the newly hovered anchor is forced visible.
pub proof fn lemma_unhover_keeps_selection(
    chars: Seq<Character>,
    a: int,
    b: int,
    targets: SelectedTarget,
    st: NameTagVisibility,
    settings: TagSettings,
)
    requires
        0 <= a < chars.len(),
        0 <= b < chars.len(),
        a != b,
        targets_index(st.hover, a),
        targets_index(st.selected, a),
        targets_index(vetoed(chars, targets.selected), a),
        targets_index(vetoed(chars, targets.hover), b),
    ensures
        ({
            let hnew = resolve_anchor(chars, vetoed(chars, targets.hover));
            let snew = resolve_anchor(chars, vetoed(chars, targets.selected));
            let aa = anchor_after_focus(chars[a], a, st.hover, st.selected, hnew, snew, settings);
            let ab = anchor_after_focus(chars[b], b, st.hover, st.selected, hnew, snew, settings);
            &&& aa.own_vis == Visibility::Inherited
            &&& aa.label_vis == Visibility::Inherited
            &&& aa.mark_vis == Visibility::Inherited
            &&& aa.health_bg_vis == (if chars[a].storefront || chars[a].anchor.kind
                == TagKind::Character {
                Visibility::Hidden
            } else {
                Visibility::Inherited
            })
            &&& ab.own_vis == Visibility::Inherited
        }),
{
}

/// The height at which a character's overlay anchor sits when standing on
/// the ground: its measured height, or the default before measurement.
pub open spec fn standing_height(c: Character) -> u64 {
    match c.model_height {
        Some(h) => h as u64,
        None => crate::world::DEFAULT_STANDING_HEIGHT as u64,
    }
}

} // verus!
