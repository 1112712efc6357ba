use avatar_sync::items::{
    build_give_item_command, bytes_contain, encode_item_type, refresh_item_results,
    to_ascii_lowercase_bytes, BrowserItemRow, ItemType,
};
use avatar_sync::skills::{
    can_level_up_skill_now, AbilityValues, JobClassData, JobClassLibrary, LevelUpBlock, SkillData,
    SkillDatabase, SkillList, UiStateSkillList, TAB_BASIC,
};

fn skill(
    base: Option<u16>,
    level: u32,
    cost: u32,
    job_class: Option<u16>,
    req_skills: Vec<(u16, u32)>,
    req_ability: Vec<(u8, i64)>,
) -> Option<SkillData> {
    Some(SkillData {
        base_skill_id: base,
        level,
        learn_point_cost: cost,
        required_job_class: job_class,
        required_skills: req_skills,
        required_ability: req_ability,
    })
}

/// A database where skill 1 levels to skill 2 (family 1), with skill 2
/// requiring job class 0, family-4 level 2, and strength (kind 0) 15.
fn sample_db() -> SkillDatabase {
    SkillDatabase {
        skills: vec![
            None,
            skill(Some(1), 1, 1, None, vec![], vec![]),
            skill(Some(1), 2, 3, Some(0), vec![(4, 2)], vec![(0, 15)]),
            None,
            skill(Some(4), 1, 1, None, vec![], vec![]),
            skill(Some(4), 2, 1, None, vec![], vec![]),
        ],
    }
}

fn sample_classes() -> JobClassLibrary {
    JobClassLibrary { classes: vec![Some(JobClassData { jobs: vec![111, 222] })] }
}

fn learned(ids: Vec<Option<u16>>) -> SkillList {
    SkillList { pages: vec![ids] }
}

#[test]
fn level_up_succeeds_when_all_requirements_hold() {
    let db = sample_db();
    let classes = sample_classes();
    let list = learned(vec![Some(1), Some(5)]);
    let abilities = AbilityValues { values: vec![(0, 20)] };
    let r = can_level_up_skill_now(&db, &classes, 111, 10, &list, Some(&abilities), 0, 0, 1);
    assert_eq!(r, Ok(2));
}

#[test]
fn level_up_reports_first_failing_check() {
    let db = sample_db();
    let classes = sample_classes();
    let list = learned(vec![Some(1), Some(5)]);
    let abilities = AbilityValues { values: vec![(0, 20)] };
    // Unknown current skill.
    assert_eq!(
        can_level_up_skill_now(&db, &classes, 111, 10, &list, Some(&abilities), 0, 0, 3),
        Err(LevelUpBlock::NoCurrentSkillData)
    );
    // The top of a family has no successor.
    assert_eq!(
        can_level_up_skill_now(&db, &classes, 111, 10, &list, Some(&abilities), 0, 1, 5),
        Err(LevelUpBlock::AtMaxLevel)
    );
    // Not enough points.
    assert_eq!(
        can_level_up_skill_now(&db, &classes, 111, 2, &list, Some(&abilities), 0, 0, 1),
        Err(LevelUpBlock::NotEnoughSkillPoints)
    );
    // Wrong job.
    assert_eq!(
        can_level_up_skill_now(&db, &classes, 999, 10, &list, Some(&abilities), 0, 0, 1),
        Err(LevelUpBlock::JobRequirementNotMet)
    );
    // Family-4 prerequisite unmet when only its level 1 is learned.
    let low = learned(vec![Some(1), Some(4)]);
    assert_eq!(
        can_level_up_skill_now(&db, &classes, 111, 10, &low, Some(&abilities), 0, 0, 1),
        Err(LevelUpBlock::SkillRequirementNotMet)
    );
    // Too little strength.
    let weak = AbilityValues { values: vec![(0, 10)] };
    assert_eq!(
        can_level_up_skill_now(&db, &classes, 111, 10, &list, Some(&weak), 0, 0, 1),
        Err(LevelUpBlock::AbilityRequirementNotMet)
    );
    // Without resolved abilities the ability check is skipped, but the
    // slot must actually hold the skill.
    assert_eq!(
        can_level_up_skill_now(&db, &classes, 111, 10, &list, None, 0, 1, 1),
        Err(LevelUpBlock::InvalidSkillSlot)
    );
}

#[test]
fn skill_list_state_defaults_to_basic_tab() {
    let st = UiStateSkillList::default();
    assert_eq!(st.current_page, TAB_BASIC);
    assert_eq!(st.scroll_index_basic, 0);
}

#[test]
fn item_type_codes_count_up() {
    assert_eq!(encode_item_type(ItemType::Face), 1);
    assert_eq!(encode_item_type(ItemType::Weapon), 8);
    assert_eq!(encode_item_type(ItemType::Vehicle), 14);
}

#[test]
fn give_item_command_renders_exactly() {
    assert_eq!(build_give_item_command(ItemType::Weapon, 2, 5, true, 0, 3), "/item 8 2 5 1 0 3");
    assert_eq!(
        build_give_item_command(ItemType::Consumable, 301, 999, false, 12, 0),
        "/item 10 301 999 0 12 0"
    );
}

#[test]
fn lowercase_and_search() {
    let hay = to_ascii_lowercase_bytes(&b"Sword Of DAWN".to_vec());
    assert_eq!(hay, b"sword of dawn".to_vec());
    assert!(bytes_contain(&hay, &b"of d".to_vec()));
    assert!(!bytes_contain(&hay, &b"dusk".to_vec()));
    assert!(bytes_contain(&hay, &b"".to_vec()));
}

#[test]
fn item_filter_is_case_insensitive_and_typed() {
    let rows = vec![
        BrowserItemRow { item_type: ItemType::Weapon, item_id: 1, item_name: b"Long Sword".to_vec() },
        BrowserItemRow { item_type: ItemType::Weapon, item_id: 2, item_name: b"Short Bow".to_vec() },
        BrowserItemRow { item_type: ItemType::Consumable, item_id: 3, item_name: b"Sword Polish".to_vec() },
        BrowserItemRow { item_type: ItemType::Weapon, item_id: 4, item_name: b"".to_vec() },
    ];
    let hits = refresh_item_results(&rows, None, &b"SWORD".to_vec());
    let ids: Vec<u32> = hits.iter().map(|r| r.item_id).collect();
    assert_eq!(ids, vec![1, 3]);
    let hits = refresh_item_results(&rows, Some(ItemType::Weapon), &b"sword".to_vec());
    let ids: Vec<u32> = hits.iter().map(|r| r.item_id).collect();
    assert_eq!(ids, vec![1]);
    let hits = refresh_item_results(&rows, Some(ItemType::Weapon), &b"".to_vec());
    let ids: Vec<u32> = hits.iter().map(|r| r.item_id).collect();
    assert_eq!(ids, vec![1, 2]);
}
