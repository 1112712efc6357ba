use avatar_sync::clan::{
    clan_position_name, next_demoted_position, next_promoted_position, position_to_rank,
    rank_to_position, resolve_invite_target, validate_clan_submission, ClanMemberPosition,
    CreateClanOutcome, InviteTarget, PendingClanInvite, PendingClanInvites, UiCreateClanState,
};
use avatar_sync::numbers::format_number_with_commas;
use avatar_sync::shop::{
    build_debug_buy_command, build_shop_close_command, build_shop_open_command,
    inventory_page_code, item_display_name, parse_inventory_entries, sanitize_shop_title,
    validate_shop_listings, InventoryPage, InventoryPageType, ItemNameTable, ShopSetupError,
    ShopSetupSlot,
};

#[test]
fn number_grouping_inserts_commas() {
    assert_eq!(format_number_with_commas(0), "0");
    assert_eq!(format_number_with_commas(7), "7");
    assert_eq!(format_number_with_commas(999), "999");
    assert_eq!(format_number_with_commas(1000), "1,000");
    assert_eq!(format_number_with_commas(1234567), "1,234,567");
    assert_eq!(format_number_with_commas(1000000000), "1,000,000,000");
}

#[test]
fn rank_ladder_round_trips() {
    let all = [
        ClanMemberPosition::Penalty,
        ClanMemberPosition::Junior,
        ClanMemberPosition::Senior,
        ClanMemberPosition::Veteran,
        ClanMemberPosition::Commander,
        ClanMemberPosition::DeputyMaster,
        ClanMemberPosition::Master,
    ];
    for (expected_rank, position) in all.iter().enumerate() {
        assert_eq!(position_to_rank(*position), expected_rank as u8);
        assert_eq!(rank_to_position(expected_rank as u8), Some(*position));
    }
    assert_eq!(rank_to_position(7), None);
}

#[test]
fn promotion_requires_room_below_actor() {
    // A master may promote a junior to senior.
    assert_eq!(
        next_promoted_position(ClanMemberPosition::Master, ClanMemberPosition::Junior),
        Some(ClanMemberPosition::Senior)
    );
    // A deputy master cannot promote a commander to their own rank.
    assert_eq!(
        next_promoted_position(ClanMemberPosition::DeputyMaster, ClanMemberPosition::Commander),
        None
    );
    // Nobody promotes at or above their own rank.
    assert_eq!(
        next_promoted_position(ClanMemberPosition::Senior, ClanMemberPosition::Senior),
        None
    );
}

#[test]
fn demotion_requires_rank_above_bottom() {
    assert_eq!(
        next_demoted_position(ClanMemberPosition::Master, ClanMemberPosition::Senior),
        Some(ClanMemberPosition::Junior)
    );
    assert_eq!(
        next_demoted_position(ClanMemberPosition::Master, ClanMemberPosition::Penalty),
        None
    );
    assert_eq!(
        next_demoted_position(ClanMemberPosition::Junior, ClanMemberPosition::Senior),
        None
    );
}

#[test]
fn position_names_fall_back_when_database_is_blank() {
    assert_eq!(clan_position_name("Chef", ClanMemberPosition::Master), "Chef");
    assert_eq!(clan_position_name("", ClanMemberPosition::DeputyMaster), "Deputy Master");
    assert_eq!(clan_position_name("", ClanMemberPosition::Penalty), "Penalty");
}

#[test]
fn invite_queue_resolves_in_place() {
    let mut invites = PendingClanInvites::new();
    invites.push_invite(PendingClanInvite {
        inviter_name: String::from("Anna"),
        clan_name: String::from("Dawn"),
        clan_unique_id: 4,
        clan_level: 2,
    });
    invites.push_invite(PendingClanInvite {
        inviter_name: String::from("Pat"),
        clan_name: String::from("Dusk"),
        clan_unique_id: 9,
        clan_level: 5,
    });
    let answered = invites.resolve_invite(0);
    assert_eq!(answered.inviter_name, "Anna");
    assert_eq!(invites.invites.len(), 1);
    assert_eq!(invites.invites[0].clan_name, "Dusk");
}

#[test]
fn invite_target_resolution_messages() {
    let target = InviteTarget { is_character: true, name: String::from("Robin") };
    let npc = InviteTarget { is_character: false, name: String::from("Guard") };
    let (name, msg) = resolve_invite_target(None, Some(1), Some(&target));
    assert_eq!(name, None);
    assert_eq!(msg, "No target selected.");
    let (name, msg) = resolve_invite_target(Some(1), Some(1), Some(&target));
    assert_eq!(name, None);
    assert_eq!(msg, "You cannot invite yourself.");
    let (name, msg) = resolve_invite_target(Some(2), Some(1), None);
    assert_eq!(name, None);
    assert_eq!(msg, "Invalid selected target.");
    let (name, msg) = resolve_invite_target(Some(2), Some(1), Some(&npc));
    assert_eq!(name, None);
    assert_eq!(msg, "Target must be a character.");
    let (name, msg) = resolve_invite_target(Some(2), Some(1), Some(&target));
    assert_eq!(name, Some(String::from("Robin")));
    assert_eq!(msg, "");
}

#[test]
fn clan_creation_checks_name_before_slogan() {
    assert_eq!(validate_clan_submission("", ""), CreateClanOutcome::InvalidName);
    assert_eq!(validate_clan_submission("", "ho"), CreateClanOutcome::InvalidName);
    assert_eq!(validate_clan_submission("Dawn", ""), CreateClanOutcome::InvalidSlogan);
    assert_eq!(validate_clan_submission("Dawn", "rise"), CreateClanOutcome::Submit);
}

#[test]
fn create_clan_state_clears() {
    let mut st = UiCreateClanState::default();
    st.clan_name = String::from("Dawn");
    st.clan_slogan = String::from("rise");
    st.clear();
    assert_eq!(st.clan_name, "");
    assert_eq!(st.clan_slogan, "");
}

fn sample_pages() -> Vec<InventoryPage> {
    vec![
        InventoryPage {
            page_type: InventoryPageType::Equipment,
            slots: vec![Some((100, 1)), None, Some((101, 2))],
        },
        InventoryPage {
            page_type: InventoryPageType::Consumables,
            slots: vec![None, Some((200, 30))],
        },
    ]
}

#[test]
fn inventory_entries_enumerate_occupied_slots() {
    let pages = sample_pages();
    let entries = parse_inventory_entries(&pages);
    assert_eq!(entries.len(), 3);
    assert_eq!(entries[0].page, InventoryPageType::Equipment);
    assert_eq!(entries[0].index, 0);
    assert_eq!(entries[0].item, 100);
    assert_eq!(entries[1].index, 2);
    assert_eq!(entries[1].quantity, 2);
    assert_eq!(entries[2].page, InventoryPageType::Consumables);
    assert_eq!(entries[2].index, 1);
}

#[test]
fn item_names_fall_back_to_unknown() {
    let table = ItemNameTable { names: vec![None, Some(b"Short Sword".to_vec())] };
    assert_eq!(item_display_name(&table, 1), b"Short Sword".to_vec());
    assert_eq!(item_display_name(&table, 0), b"Unknown Item".to_vec());
    assert_eq!(item_display_name(&table, 9), b"Unknown Item".to_vec());
}

#[test]
fn page_codes() {
    assert_eq!(inventory_page_code(InventoryPageType::Equipment), 'E');
    assert_eq!(inventory_page_code(InventoryPageType::Consumables), 'C');
    assert_eq!(inventory_page_code(InventoryPageType::Materials), 'M');
    assert_eq!(inventory_page_code(InventoryPageType::Vehicles), 'V');
}

#[test]
fn shop_listing_validation_reports_first_problem() {
    let pages = sample_pages();
    let empty: Vec<ShopSetupSlot> = Vec::new();
    assert_eq!(validate_shop_listings(&pages, &empty), Err(ShopSetupError::NoListings));
    let stale = vec![ShopSetupSlot {
        page: InventoryPageType::Equipment,
        index: 1,
        quantity: 1,
        price: 5,
    }];
    assert_eq!(validate_shop_listings(&pages, &stale), Err(ShopSetupError::SlotNowEmpty(0)));
    let greedy = vec![ShopSetupSlot {
        page: InventoryPageType::Consumables,
        index: 1,
        quantity: 31,
        price: 5,
    }];
    assert_eq!(validate_shop_listings(&pages, &greedy), Err(ShopSetupError::InvalidQuantity(0)));
    let negative = vec![ShopSetupSlot {
        page: InventoryPageType::Equipment,
        index: 0,
        quantity: 1,
        price: -1,
    }];
    assert_eq!(validate_shop_listings(&pages, &negative), Err(ShopSetupError::NegativePrice(0)));
    let fine = vec![
        ShopSetupSlot { page: InventoryPageType::Equipment, index: 0, quantity: 1, price: 0 },
        ShopSetupSlot { page: InventoryPageType::Consumables, index: 1, quantity: 30, price: 250 },
    ];
    assert_eq!(validate_shop_listings(&pages, &fine), Ok(()));
}

#[test]
fn shop_title_is_trimmed_stripped_and_defaulted() {
    assert_eq!(sanitize_shop_title("  Fine \"Hats\"  "), "Fine Hats");
    assert_eq!(sanitize_shop_title("Plain"), "Plain");
    assert_eq!(sanitize_shop_title(""), "My Shop");
    assert_eq!(sanitize_shop_title(" \t\r\n "), "My Shop");
    // A quotes-only title is non-blank after the trim, so it is stripped
    // to an empty title rather than defaulted.
    assert_eq!(sanitize_shop_title("\"\""), "");
}

#[test]
fn shop_commands_render_exactly() {
    assert_eq!(build_shop_close_command(), "/pshop_close");
    assert_eq!(build_debug_buy_command(3, 12), "/pshop_test_buy 3 12");
    let slots = vec![
        ShopSetupSlot { page: InventoryPageType::Equipment, index: 0, quantity: 1, price: 100 },
        ShopSetupSlot { page: InventoryPageType::Consumables, index: 1, quantity: 30, price: 5 },
    ];
    let cmd = build_shop_open_command(&String::from("My Shop"), &slots);
    assert_eq!(cmd, "/pshop_open \"My Shop\" \"E:0:1:100;C:1:30:5\"");
}
