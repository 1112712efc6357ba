use avatar_sync::overlay::{Anchor, NameTagVisibility, SelectedTarget, TagKind, TagSettings, Visibility};
use avatar_sync::world::{Identity, World, DEFAULT_STANDING_HEIGHT, EQUIP_SLOT_COUNT, SKELETON_BONE_COUNT};

fn no_settings() -> TagSettings {
    TagSettings { show_character: false, show_npc: false, show_monster: false }
}

fn rig_child_ids(w: &World, i: usize) -> Vec<u64> {
    let mut ids = Vec::new();
    let rig = w.chars[i].rig.as_ref().expect("rig expected");
    for b in rig.bones.iter() {
        ids.push(*b);
    }
    for slot in rig.parts.iter() {
        for e in slot.ents.iter() {
            ids.push(*e);
        }
    }
    ids
}

#[test]
fn spawn_builds_full_rig() {
    let mut w = World::new();
    let i = w.add_character(Identity { gender: 0, face: 1, hair: 2 }, TagKind::Character, false);
    w.set_equipment(i, 0, 77);
    w.set_equipment(i, 3, 12);
    w.sync_frame();
    let rig = w.chars[i].rig.as_ref().unwrap();
    assert_eq!(rig.bones.len(), SKELETON_BONE_COUNT);
    assert_eq!(rig.parts.len(), EQUIP_SLOT_COUNT);
    assert_eq!(rig.parts[0].item, 77);
    assert_eq!(rig.parts[0].ents.len(), 1);
    assert_eq!(rig.parts[3].ents.len(), 1);
    assert_eq!(rig.parts[1].ents.len(), 0);
    assert!(w.chars[i].blink_timer);
    assert!(w.chars[i].collider.is_none());
    for id in rig_child_ids(&w, i) {
        assert!(w.arena.is_live(id));
    }
}

#[test]
fn inplace_update_is_idempotent() {
    let mut w = World::new();
    let i = w.add_character(Identity { gender: 1, face: 0, hair: 0 }, TagKind::Character, false);
    w.set_equipment(i, 2, 5);
    w.sync_frame();
    w.set_equipment(i, 2, 5);
    let before = rig_child_ids(&w, i);
    w.sync_frame();
    let after = rig_child_ids(&w, i);
    assert_eq!(before, after);
    for id in after {
        assert!(w.arena.is_live(id));
    }
}

#[test]
fn inplace_update_swaps_only_changed_slot() {
    let mut w = World::new();
    let i = w.add_character(Identity { gender: 1, face: 0, hair: 0 }, TagKind::Character, false);
    w.set_equipment(i, 2, 5);
    w.set_equipment(i, 4, 9);
    w.sync_frame();
    let bones_before = w.chars[i].rig.as_ref().unwrap().bones.clone();
    let slot4_before = w.chars[i].rig.as_ref().unwrap().parts[4].ents.clone();
    let slot2_before = w.chars[i].rig.as_ref().unwrap().parts[2].ents.clone();
    w.set_equipment(i, 2, 6);
    w.sync_frame();
    let rig = w.chars[i].rig.as_ref().unwrap();
    assert_eq!(rig.bones, bones_before);
    assert_eq!(rig.parts[4].ents, slot4_before);
    assert_eq!(rig.parts[2].item, 6);
    assert_ne!(rig.parts[2].ents, slot2_before);
    for id in slot2_before {
        assert!(!w.arena.is_live(id));
    }
}

#[test]
fn body_type_change_forces_rebuild() {
    let mut w = World::new();
    let i = w.add_character(Identity { gender: 0, face: 0, hair: 0 }, TagKind::Character, false);
    w.set_equipment(i, 1, 3);
    w.sync_frame();
    let old_ids = rig_child_ids(&w, i);
    w.set_identity(i, Identity { gender: 1, face: 0, hair: 0 });
    w.sync_frame();
    for id in &old_ids {
        assert!(!w.arena.is_live(*id));
    }
    let new_ids = rig_child_ids(&w, i);
    for id in &new_ids {
        assert!(w.arena.is_live(*id));
        assert!(!old_ids.contains(id));
    }
    assert_eq!(w.chars[i].rig.as_ref().unwrap().gender, 1);
}

#[test]
fn storefront_suppresses_and_close_rebuilds() {
    let mut w = World::new();
    let i = w.add_character(Identity { gender: 0, face: 0, hair: 0 }, TagKind::Character, false);
    w.set_equipment(i, 0, 2);
    w.sync_frame();
    let old_ids = rig_child_ids(&w, i);
    w.open_storefront(i);
    w.sync_frame();
    assert!(w.chars[i].rig.is_none());
    assert!(!w.chars[i].blink_timer);
    for id in &old_ids {
        assert!(!w.arena.is_live(*id));
    }
    // Closing rebuilds even though identity and equipment never changed.
    w.close_storefront(i);
    w.sync_frame();
    let rig = w.chars[i].rig.as_ref().unwrap();
    assert_eq!(rig.bones.len(), SKELETON_BONE_COUNT);
    assert_eq!(rig.parts[0].item, 2);
    assert!(w.chars[i].blink_timer);
    for id in rig_child_ids(&w, i) {
        assert!(w.arena.is_live(id));
    }
}

#[test]
fn rig_children_never_shared_between_characters() {
    let mut w = World::new();
    let a = w.add_character(Identity { gender: 0, face: 0, hair: 0 }, TagKind::Character, false);
    let b = w.add_character(Identity { gender: 1, face: 0, hair: 0 }, TagKind::Npc, true);
    w.set_equipment(a, 0, 1);
    w.set_equipment(b, 0, 1);
    w.sync_frame();
    let ids_a = rig_child_ids(&w, a);
    let ids_b = rig_child_ids(&w, b);
    for id in &ids_a {
        assert!(!ids_b.contains(id));
    }
    // Toggle state on one character; the other's children stay untouched.
    w.set_equipment(a, 0, 4);
    w.open_storefront(a);
    w.sync_frame();
    for id in &ids_b {
        assert!(w.arena.is_live(*id));
    }
}

#[test]
fn dead_npc_selection_is_vetoed() {
    let mut w = World::new();
    let npc = w.add_character(Identity { gender: 0, face: 0, hair: 0 }, TagKind::Npc, true);
    w.sync_frame();
    let mut targets = SelectedTarget { hover: None, selected: Some(npc) };
    let mut st = NameTagVisibility::new();
    let settings = no_settings();
    w.focus_update(&mut targets, &mut st, settings);
    assert_eq!(st.selected, Some(npc));
    assert_eq!(w.chars[npc].anchor.own_vis, Visibility::Inherited);
    // The NPC dies; the next tick clears the selection and restores the
    // anchor's default (hidden) visibility.
    w.set_dead(npc, true);
    w.focus_update(&mut targets, &mut st, settings);
    assert_eq!(targets.selected, None);
    assert_eq!(st.selected, None);
    assert_eq!(w.chars[npc].anchor.own_vis, Visibility::Hidden);
    assert_eq!(w.chars[npc].anchor.mark_vis, Visibility::Hidden);
}

#[test]
fn hover_then_select_then_unhover() {
    let mut w = World::new();
    let a = w.add_character(Identity { gender: 0, face: 0, hair: 0 }, TagKind::Npc, true);
    let b = w.add_character(Identity { gender: 0, face: 0, hair: 0 }, TagKind::Npc, true);
    w.sync_frame();
    let mut targets = SelectedTarget { hover: Some(a), selected: None };
    let mut st = NameTagVisibility::new();
    let settings = no_settings();
    // Hovering A forces A visible.
    w.focus_update(&mut targets, &mut st, settings);
    assert_eq!(w.chars[a].anchor.own_vis, Visibility::Inherited);
    // Selecting A shows A and its children (health bars stay: A is an NPC).
    targets.selected = Some(a);
    w.focus_update(&mut targets, &mut st, settings);
    assert_eq!(w.chars[a].anchor.own_vis, Visibility::Inherited);
    assert_eq!(w.chars[a].anchor.mark_vis, Visibility::Inherited);
    assert_eq!(w.chars[a].anchor.health_bg_vis, Visibility::Inherited);
    // Hover moves to B while A stays selected: A stays visible via the
    // selection rule, B is forced visible.
    targets.hover = Some(b);
    w.focus_update(&mut targets, &mut st, settings);
    assert_eq!(w.chars[a].anchor.own_vis, Visibility::Inherited);
    assert_eq!(w.chars[a].anchor.mark_vis, Visibility::Inherited);
    assert_eq!(w.chars[a].anchor.health_bg_vis, Visibility::Inherited);
    assert_eq!(w.chars[b].anchor.own_vis, Visibility::Inherited);
}

#[test]
fn selected_player_health_bar_stays_hidden() {
    let mut w = World::new();
    let p = w.add_character(Identity { gender: 0, face: 0, hair: 0 }, TagKind::Character, false);
    w.sync_frame();
    let mut targets = SelectedTarget { hover: None, selected: Some(p) };
    let mut st = NameTagVisibility::new();
    w.focus_update(&mut targets, &mut st, no_settings());
    assert_eq!(w.chars[p].anchor.own_vis, Visibility::Inherited);
    assert_eq!(w.chars[p].anchor.mark_vis, Visibility::Inherited);
    assert_eq!(w.chars[p].anchor.health_bg_vis, Visibility::Hidden);
    assert_eq!(w.chars[p].anchor.health_fg_vis, Visibility::Hidden);
}

#[test]
fn vehicle_height_tracks_mount_transitions() {
    let mut w = World::new();
    let i = w.add_character(Identity { gender: 0, face: 0, hair: 0 }, TagKind::Character, false);
    assert_eq!(w.chars[i].anchor.height, DEFAULT_STANDING_HEIGHT as u64);
    // Mounting before the height is measured uses the default height.
    w.vehicle_mounted(i, 95);
    assert_eq!(w.chars[i].anchor.height, 95 + DEFAULT_STANDING_HEIGHT as u64);
    // A dismount with no measured height leaves the anchor untouched.
    w.vehicle_dismounted(i);
    assert_eq!(w.chars[i].anchor.height, 95 + DEFAULT_STANDING_HEIGHT as u64);
    // Once measured, mount and dismount use the measured height.
    w.set_model_height(i, 210);
    w.vehicle_mounted(i, 95);
    assert_eq!(w.chars[i].anchor.height, 95 + 210);
    w.vehicle_dismounted(i);
    assert_eq!(w.chars[i].anchor.height, 210);
}

#[test]
fn unchanged_character_is_left_untouched_by_a_frame() {
    let mut w = World::new();
    let a = w.add_character(Identity { gender: 0, face: 0, hair: 0 }, TagKind::Character, false);
    let b = w.add_character(Identity { gender: 1, face: 0, hair: 0 }, TagKind::Npc, true);
    w.set_equipment(a, 0, 1);
    w.set_equipment(b, 5, 8);
    w.sync_frame();
    let b_ids = rig_child_ids(&w, b);
    let b_bones = w.chars[b].rig.as_ref().unwrap().bones.clone();
    // Only A changes this frame; B must come out id-for-id identical.
    w.set_equipment(a, 0, 2);
    w.sync_frame();
    assert_eq!(rig_child_ids(&w, b), b_ids);
    assert_eq!(w.chars[b].rig.as_ref().unwrap().bones, b_bones);
    for id in &b_ids {
        assert!(w.arena.is_live(*id));
    }
    // A frame with nothing flagged moves nothing at all.
    let a_ids = rig_child_ids(&w, a);
    w.sync_frame();
    assert_eq!(rig_child_ids(&w, a), a_ids);
    assert_eq!(rig_child_ids(&w, b), b_ids);
}

#[test]
fn equipment_change_and_store_close_in_one_frame_rebuild_fresh() {
    let mut w = World::new();
    let i = w.add_character(Identity { gender: 0, face: 0, hair: 0 }, TagKind::Character, false);
    w.set_equipment(i, 0, 3);
    w.sync_frame();
    w.open_storefront(i);
    w.sync_frame();
    assert!(w.chars[i].rig.is_none());
    // Both notifications land in the same frame: an equipment change and
    // the storefront closing. The removal channel forces the rebuild.
    w.set_equipment(i, 0, 4);
    w.close_storefront(i);
    w.sync_frame();
    let rig = w.chars[i].rig.as_ref().unwrap();
    assert_eq!(rig.parts[0].item, 4);
    assert_eq!(rig.bones.len(), SKELETON_BONE_COUNT);
    assert!(w.chars[i].blink_timer);
    assert!(!w.chars[i].store_closed);
    assert!(!w.chars[i].changed);
    for id in rig_child_ids(&w, i) {
        assert!(w.arena.is_live(id));
    }
}

#[test]
fn anchor_new_defaults() {
    let anchor = Anchor::new(TagKind::Monster, 180);
    assert_eq!(anchor.kind, TagKind::Monster);
    assert_eq!(anchor.height, 180);
    assert_eq!(anchor.own_vis, Visibility::Hidden);
    assert_eq!(anchor.label_vis, Visibility::Inherited);
}
