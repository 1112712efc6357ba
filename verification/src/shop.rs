//! The personal-storefront setup: enumerating sellable inventory,
//! validating the chosen listings, and rendering the chat commands that
//! open and close the shop.

use vstd::prelude::*;

use crate::numbers::digits_of;

verus! {

/// Maximum number of listings a shop may hold.
pub const PLAYER_SHOP_MAX_SLOTS: usize = 30;

/// The inventory page an item sits on.
#[derive(Clone, Copy, PartialEq, Eq, Structural, Debug)]
pub enum InventoryPageType {
    Equipment,
    Consumables,
    Materials,
    Vehicles,
}

/// The single-letter code of an inventory page in shop commands.
pub open spec fn spec_page_code(page: InventoryPageType) -> char {
    match page {
        InventoryPageType::Equipment => 'E',
        InventoryPageType::Consumables => 'C',
        InventoryPageType::Materials => 'M',
        InventoryPageType::Vehicles => 'V',
    }
}

#[verifier::when_used_as_spec(spec_page_code)]
pub fn inventory_page_code(page_type: InventoryPageType) -> (c: char)
    ensures
        c == spec_page_code(page_type),
{
    match page_type {
        InventoryPageType::Equipment => 'E',
        InventoryPageType::Consumables => 'C',
        InventoryPageType::Materials => 'M',
        InventoryPageType::Vehicles => 'V',
    }
}

/// An occupied inventory slot: its page, index on the page, the item, and
/// how many of it are stacked there.
#[derive(Clone, Copy, PartialEq, Eq, Structural, Debug)]
pub struct InventoryEntry {
    pub page: InventoryPageType,
    pub index: usize,
    pub item: u32,
    pub quantity: u32,
}

/// One page of the inventory: a slot holds an item and a stack count, or
/// nothing.
pub struct InventoryPage {
    pub page_type: InventoryPageType,
    pub slots: Vec<Option<(u32, u32)>>,
}

/// The entries of one page, slots `0..s` in ascending index order: one
/// entry per occupied slot, none for an empty one.
pub open spec fn spec_page_entries(page: InventoryPage, s: int) -> Seq<InventoryEntry>
    decreases s,
{
    if s <= 0 {
        Seq::empty()
    } else {
        spec_page_entries(page, s - 1) + match page.slots@[s - 1] {
            Some(iq) => seq![
                InventoryEntry {
                    page: page.page_type,
                    index: (s - 1) as usize,
                    item: iq.0,
                    quantity: iq.1,
                },
            ],
            None => Seq::empty(),
        }
    }
}

/// The entries of pages `0..p`, page order first, slot order within.
pub open spec fn spec_inventory_entries(pages: Seq<InventoryPage>, p: int) -> Seq<InventoryEntry>
    decreases p,
{
    if p <= 0 {
        Seq::empty()
    } else {
        spec_inventory_entries(pages, p - 1) + spec_page_entries(
            pages[p - 1],
            pages[p - 1].slots@.len() as int,
        )
    }
}

/// Collect the occupied slots of the given pages: exactly one entry per
/// occupied slot, in page order and ascending slot order within each
/// page, each carrying the stored item and stack count.
pub fn parse_inventory_entries(pages: &Vec<InventoryPage>) -> (entries: Vec<InventoryEntry>)
    ensures
        entries@ == spec_inventory_entries(pages@, pages@.len() as int),
{
    let mut entries: Vec<InventoryEntry> = Vec::new();
    let mut p: usize = 0;
    while p < pages.len()
        invariant
            p <= pages@.len(),
            entries@ == spec_inventory_entries(pages@, p as int),
        decreases pages@.len() - p,
    {
        let page = &pages[p];
        let mut s: usize = 0;
        while s < page.slots.len()
            invariant
                p < pages@.len(),
                page == &pages@[p as int],
                s <= page.slots@.len(),
                entries@ == spec_inventory_entries(pages@, p as int) + spec_page_entries(
                    *page,
                    s as int,
                ),
            decreases page.slots@.len() - s,
        {
            if let Some((item, quantity)) = page.slots[s] {
                let e = InventoryEntry { page: page.page_type, index: s, item, quantity };
                entries.push(e);
            }
            proof {
                assert(entries@ =~= spec_inventory_entries(pages@, p as int) + spec_page_entries(
                    *page,
                    s + 1,
                ));
            }
            s += 1;
        }
        proof {
            assert(entries@ =~= spec_inventory_entries(pages@, p + 1));
        }
        p += 1;
    }
    entries
}

/// Display names for items, by item identifier; a missing entry stands
/// for a failed base-item lookup.
pub struct ItemNameTable {
    pub names: Vec<Option<Vec<u8>>>,
}

impl ItemNameTable {
    /// The recorded name of `item`, if the lookup succeeds.
    pub open spec fn spec_name_of(self, item: int) -> Option<Seq<u8>> {
        if 0 <= item < self.names@.len() {
            match self.names@[item] {
                Some(n) => Some(n@),
                None => None,
            }
        } else {
            None
        }
    }
}

/// The fallback name shown when an item's lookup fails.
pub open spec fn spec_unknown_item_name() -> Seq<u8> {
    seq![
        'U' as u8,
        'n' as u8,
        'k' as u8,
        'n' as u8,
        'o' as u8,
        'w' as u8,
        'n' as u8,
        ' ' as u8,
        'I' as u8,
        't' as u8,
        'e' as u8,
        'm' as u8,
    ]
}

/// The display name the setup list shows for an item: the table's entry,
/// or the unknown-item fallback when the lookup fails.
pub fn item_display_name(table: &ItemNameTable, item: u32) -> (r: Vec<u8>)
    ensures
        r@ == match table.spec_name_of(item as int) {
            Some(n) => n,
            None => spec_unknown_item_name(),
        },
{
    if (item as usize) < table.names.len() {
        if let Some(name) = &table.names[item as usize] {
            let mut r: Vec<u8> = Vec::new();
            let mut i: usize = 0;
            while i < name.len()
                invariant
                    i <= name@.len(),
                    r@ =~= name@.take(i as int),
                decreases name@.len() - i,
            {
                r.push(name[i]);
                i += 1;
            }
            proof {
                assert(name@.take(name@.len() as int) =~= name@);
            }
            return r;
        }
    }
    let mut r: Vec<u8> = Vec::new();
    r.push('U' as u8);
    r.push('n' as u8);
    r.push('k' as u8);
    r.push('n' as u8);
    r.push('o' as u8);
    r.push('w' as u8);
    r.push('n' as u8);
    r.push(' ' as u8);
    r.push('I' as u8);
    r.push('t' as u8);
    r.push('e' as u8);
    r.push('m' as u8);
    proof {
        assert(r@ =~= spec_unknown_item_name());
    }
    r
}

/// A listing the player composed for the shop: which slot to sell from,
/// how many, and at what price.
#[derive(Clone, Copy, PartialEq, Eq, Structural, Debug)]
pub struct ShopSetupSlot {
    pub page: InventoryPageType,
    pub index: usize,
    pub quantity: u32,
    pub price: i64,
}

/// Why a composed shop cannot be opened.
#[derive(Clone, Copy, PartialEq, Eq, Structural, Debug)]
pub enum ShopSetupError {
    /// No listings were composed.
    NoListings,
    /// A listing's inventory slot is empty now; the payload names it.
    SlotNowEmpty(usize),
    /// A listing's quantity is zero or exceeds the stack; named by index.
    InvalidQuantity(usize),
    /// A listing's price is negative; named by index.
    NegativePrice(usize),
}

/// The stack count the inventory currently holds at a listing's slot.
pub open spec fn spec_stack_at(pages: Seq<InventoryPage>, slot: ShopSetupSlot) -> Option<u32> {
    if exists|p: int|
        0 <= p < pages.len() && (#[trigger] pages[p]).page_type == slot.page && slot.index
            < pages[p].slots@.len() && pages[p].slots@[slot.index as int] is Some {
        let p = choose|p: int|
            0 <= p < pages.len() && (#[trigger] pages[p]).page_type == slot.page && slot.index
                < pages[p].slots@.len() && pages[p].slots@[slot.index as int] is Some;
        Some(pages[p].slots@[slot.index as int]->Some_0.1)
    } else {
        None
    }
}

/// A single listing is valid against the current inventory.
pub open spec fn spec_listing_ok(pages: Seq<InventoryPage>, slot: ShopSetupSlot) -> bool {
    match spec_stack_at(pages, slot) {
        Some(stack) => 0 < slot.quantity <= stack && slot.price >= 0,
        None => false,
    }
}

/// A well-formed inventory holds at most one page of each type.
pub open spec fn spec_inv_wf(pages: Seq<InventoryPage>) -> bool {
    forall|p1: int, p2: int|
        0 <= p1 < pages.len() && 0 <= p2 < pages.len() && p1 != p2 ==> (
        #[trigger] pages[p1]).page_type != (#[trigger] pages[p2]).page_type
}

/// Find the stack currently held at a listing's slot.
fn stack_at(pages: &Vec<InventoryPage>, slot: ShopSetupSlot) -> (r: Option<u32>)
    requires
        spec_inv_wf(pages@),
    ensures
        r == spec_stack_at(pages@, slot),
{
    let mut p: usize = 0;
    while p < pages.len()
        invariant
            spec_inv_wf(pages@),
            p <= pages@.len(),
            forall|p2: int| 0 <= p2 < p ==> (#[trigger] pages@[p2]).page_type != slot.page,
        decreases pages@.len() - p,
    {
        let page = &pages[p];
        if page.page_type == slot.page {
            let hit = slot.index < page.slots.len();
            let found: Option<u32> = if hit {
                match page.slots[slot.index] {
                    Some((_, qty)) => Some(qty),
                    None => None,
                }
            } else {
                None
            };
            proof {
                if exists|p2: int|
                    0 <= p2 < pages@.len() && (#[trigger] pages@[p2]).page_type == slot.page
                        && slot.index < pages@[p2].slots@.len()
                        && pages@[p2].slots@[slot.index as int] is Some {
                    let pw = choose|p2: int|
                        0 <= p2 < pages@.len() && (#[trigger] pages@[p2]).page_type == slot.page
                            && slot.index < pages@[p2].slots@.len()
                            && pages@[p2].slots@[slot.index as int] is Some;
                    assert(pw == p as int);
                } else {
                }
            }
            return found;
        }
        p += 1;
    }
    None
}

/// The error a single failing listing draws, in the order the checks run:
/// an emptied slot first, then a bad quantity, then a negative price.
pub open spec fn spec_listing_error(
    pages: Seq<InventoryPage>,
    slot: ShopSetupSlot,
    j: int,
) -> ShopSetupError {
    match spec_stack_at(pages, slot) {
        None => ShopSetupError::SlotNowEmpty(j as usize),
        Some(stack) => if slot.quantity == 0 || slot.quantity > stack {
            ShopSetupError::InvalidQuantity(j as usize)
        } else {
            ShopSetupError::NegativePrice(j as usize)
        },
    }
}

/// The validation verdict on the listings from `j` on: the first failing
/// listing names the error, and a fully valid tail is accepted.
pub open spec fn spec_validate_from(
    pages: Seq<InventoryPage>,
    slots: Seq<ShopSetupSlot>,
    j: int,
) -> Result<(), ShopSetupError>
    decreases slots.len() - j,
{
    if j < 0 || j >= slots.len() {
        Ok(())
    } else if !spec_listing_ok(pages, slots[j]) {
        Err(spec_listing_error(pages, slots[j], j))
    } else {
        spec_validate_from(pages, slots, j + 1)
    }
}

/// Check the composed listings against the current inventory, in order:
/// a shop needs at least one listing, every listed slot must still be
/// occupied, every quantity positive and within its stack, every price
/// non-negative. The first offending listing is reported, with the first
/// of its offences.
pub fn validate_shop_listings(pages: &Vec<InventoryPage>, slots: &Vec<ShopSetupSlot>) -> (r: Result<
    (),
    ShopSetupError,
>)
    requires
        spec_inv_wf(pages@),
    ensures
        r == (if slots@.len() == 0 {
            Err::<(), ShopSetupError>(ShopSetupError::NoListings)
        } else {
            spec_validate_from(pages@, slots@, 0)
        }),
        r is Ok <==> slots@.len() > 0 && (forall|j: int|
            0 <= j < slots@.len() ==> spec_listing_ok(pages@, #[trigger] slots@[j])),
{
    if slots.len() == 0 {
        return Err(ShopSetupError::NoListings);
    }
    let mut j: usize = 0;
    while j < slots.len()
        invariant
            j <= slots@.len(),
            slots@.len() > 0,
            spec_inv_wf(pages@),
            forall|j2: int| 0 <= j2 < j ==> spec_listing_ok(pages@, #[trigger] slots@[j2]),
            spec_validate_from(pages@, slots@, 0) == spec_validate_from(pages@, slots@, j as int),
        decreases slots@.len() - j,
    {
        let slot = slots[j];
        let stack = match stack_at(pages, slot) {
            Some(stack) => stack,
            None => {
                proof {
                    assert(!spec_listing_ok(pages@, slots@[j as int]));
                }
                return Err(ShopSetupError::SlotNowEmpty(j));
            },
        };
        if slot.quantity == 0 || slot.quantity > stack {
            proof {
                assert(!spec_listing_ok(pages@, slots@[j as int]));
            }
            return Err(ShopSetupError::InvalidQuantity(j));
        }
        if slot.price < 0 {
            proof {
                assert(!spec_listing_ok(pages@, slots@[j as int]));
            }
            return Err(ShopSetupError::NegativePrice(j));
        }
        j += 1;
    }
    Ok(())
}

/// The storefront setup window's state: the shop title being edited, the
/// composed listings, and the last status or error line shown.
pub struct UiPlayerShopState {
    pub title: String,
    pub debug_buy_slot_index: usize,
    pub debug_buy_quantity: u32,
    pub selected_slots: Vec<ShopSetupSlot>,
    pub last_error: Option<String>,
    pub last_status: Option<String>,
}

impl Default for UiPlayerShopState {
    fn default() -> (r: Self)
        ensures
            r.title@.len() == 0,
            r.debug_buy_slot_index == 0,
            r.debug_buy_quantity == 0,
            r.selected_slots@.len() == 0,
            r.last_error is None,
            r.last_status is None,
    {
        UiPlayerShopState {
            title: String::new(),
            debug_buy_slot_index: 0,
            debug_buy_quantity: 0,
            selected_slots: Vec::new(),
            last_error: None,
            last_status: None,
        }
    }
}

/// A character the title trim removes: ASCII whitespace.
pub open spec fn spec_is_title_space(c: char) -> bool {
    c == ' ' || c == '\t' || c == '\n' || c == '\r'
}

/// The title with its leading whitespace removed.
pub open spec fn spec_trim_front(s: Seq<char>) -> Seq<char>
    decreases s.len(),
{
    if s.len() == 0 {
        Seq::empty()
    } else if spec_is_title_space(s[0]) {
        spec_trim_front(s.skip(1))
    } else {
        s
    }
}

/// The title with its trailing whitespace removed.
pub open spec fn spec_trim_back(s: Seq<char>) -> Seq<char>
    decreases s.len(),
{
    if s.len() == 0 {
        Seq::empty()
    } else if spec_is_title_space(s.last()) {
        spec_trim_back(s.drop_last())
    } else {
        s
    }
}

/// The first `n` characters of `s` with every quote character removed.
pub open spec fn spec_without_quotes(s: Seq<char>, n: int) -> Seq<char>
    decreases n,
{
    if n <= 0 {
        Seq::empty()
    } else {
        spec_without_quotes(s, n - 1) + (if s[n - 1] == '"' {
            Seq::<char>::empty()
        } else {
            seq![s[n - 1]]
        })
    }
}

/// What the open command carries as its title: the typed title trimmed of
/// surrounding whitespace and stripped of quote characters, or the
/// default name when the trimmed title is blank.
pub open spec fn spec_sanitized_title(s: Seq<char>) -> Seq<char> {
    let t = spec_trim_back(spec_trim_front(s));
    if t.len() == 0 {
        "My Shop"@
    } else {
        spec_without_quotes(t, t.len() as int)
    }
}

/// Whitespace test for the title trim.
fn is_title_space(c: char) -> (r: bool)
    ensures
        r == spec_is_title_space(c),
{
    c == ' ' || c == '\t' || c == '\n' || c == '\r'
}

/// Sanitize the typed shop title for the open command: trim surrounding
/// whitespace (the ASCII kind), strip quote characters — they would break
/// the command's own quoting — and fall back to the default name when the
/// trimmed title is blank.
#[verifier::loop_isolation(false)]
pub fn sanitize_shop_title(title: &str) -> (r: String)
    ensures
        r@ == spec_sanitized_title(title@),
{
    let n = title.unicode_len();
    let mut lo: usize = 0;
    proof {
        assert(title@.skip(0) =~= title@);
    }
    while lo < n && is_title_space(title.get_char(lo))
        invariant
            lo <= n,
            spec_trim_front(title@) == spec_trim_front(title@.skip(lo as int)),
        decreases n - lo,
    {
        proof {
            assert(title@.skip(lo as int)[0] == title@[lo as int]);
            assert(title@.skip(lo as int).skip(1) =~= title@.skip(lo + 1));
        }
        lo += 1;
    }
    proof {
        if lo == n {
            assert(title@.skip(lo as int) =~= Seq::<char>::empty());
        }
        assert(spec_trim_front(title@) == title@.subrange(lo as int, n as int)) by {
            assert(title@.skip(lo as int) =~= title@.subrange(lo as int, n as int));
            if lo < n {
                assert(!spec_is_title_space(title@.skip(lo as int)[0]));
            }
        }
    }
    let mut hi: usize = n;
    while hi > lo && is_title_space(title.get_char(hi - 1))
        invariant
            lo <= hi <= n,
            spec_trim_back(title@.subrange(lo as int, hi as int)) == spec_trim_back(
                title@.subrange(lo as int, n as int),
            ),
        decreases hi,
    {
        proof {
            let cur = title@.subrange(lo as int, hi as int);
            assert(cur.last() == title@[hi - 1]);
            assert(cur.drop_last() =~= title@.subrange(lo as int, hi - 1));
        }
        hi -= 1;
    }
    let ghost t = title@.subrange(lo as int, hi as int);
    proof {
        if hi > lo {
            assert(!spec_is_title_space(t.last()));
        }
        assert(spec_trim_back(t) == t);
        assert(spec_trim_back(spec_trim_front(title@)) == t);
    }
    if lo == hi {
        return String::from_str("My Shop");
    }
    let mut out = String::new();
    let mut i = lo;
    while i < hi
        invariant
            lo <= i <= hi,
            out@ == spec_without_quotes(t, i - lo),
        decreases hi - i,
    {
        let c = title.get_char(i);
        if c != '"' {
            let piece = title.substring_char(i, i + 1);
            out.append(piece);
            proof {
                assert(piece@ =~= seq![t[i - lo]]);
            }
        }
        proof {
            assert(t[i - lo] == title@[i as int]);
            assert(out@ =~= spec_without_quotes(t, i + 1 - lo));
        }
        i += 1;
    }
    out
}

/// The text of one listing inside the open command: the page code and
/// the slot index, quantity and price, all colon-separated.
pub open spec fn spec_listing_text(slot: ShopSetupSlot) -> Seq<char> {
    seq![spec_page_code(slot.page)] + seq![':'] + digits_of(slot.index as nat) + seq![':']
        + digits_of(slot.quantity as nat) + seq![':'] + digits_of(slot.price as nat)
}

/// The listing texts of the first `n` listings, joined with `;`.
pub open spec fn spec_listings_text(slots: Seq<ShopSetupSlot>, n: int) -> Seq<char>
    decreases n,
{
    if n <= 0 {
        Seq::empty()
    } else if n == 1 {
        spec_listing_text(slots[0])
    } else {
        spec_listings_text(slots, n - 1) + seq![';'] + spec_listing_text(slots[n - 1])
    }
}

/// The chat command that opens the shop with a title and listing list.
pub open spec fn spec_open_command(title: Seq<char>, slots: Seq<ShopSetupSlot>) -> Seq<char> {
    "/pshop_open \""@ + title + "\" \""@ + spec_listings_text(slots, slots.len() as int) + "\""@
}

/// Write the digits of `v` (used for the command numbers).
fn append_number(out: &mut String, v: u64)
    ensures
        final(out)@ == old(out)@ + digits_of(v as nat),
{
    let digits = crate::numbers::format_number_plain(v);
    out.append(digits.as_str());
}

/// Render the chat command that opens the personal shop. The title is
/// handed in already sanitized (see `sanitize_shop_title`); the listings
/// are the validated selection.
#[verifier::rlimit(50)]
pub fn build_shop_open_command(title: &String, slots: &Vec<ShopSetupSlot>) -> (r: String)
    requires
        forall|j: int| 0 <= j < slots@.len() ==> (#[trigger] slots@[j]).price >= 0,
    ensures
        r@ == spec_open_command(title@, slots@),
{
    let mut out = String::from_str("/pshop_open \"");
    out.append(title.as_str());
    out.append("\" \"");
    let mut j: usize = 0;
    while j < slots.len()
        invariant
            j <= slots@.len(),
            forall|j2: int| 0 <= j2 < slots@.len() ==> (#[trigger] slots@[j2]).price >= 0,
            out@ == "/pshop_open \""@ + title@ + "\" \""@ + spec_listings_text(
                slots@,
                j as int,
            ),
        decreases slots@.len() - j,
    {
        if j > 0 {
            out.append(";");
            proof {
                reveal_strlit(";");
            }
        }
        let slot = slots[j];
        let code = match slot.page {
            InventoryPageType::Equipment => "E",
            InventoryPageType::Consumables => "C",
            InventoryPageType::Materials => "M",
            InventoryPageType::Vehicles => "V",
        };
        proof {
            reveal_strlit("E");
            reveal_strlit("C");
            reveal_strlit("M");
            reveal_strlit("V");
            reveal_strlit(":");
            assert(code@ =~= seq![spec_page_code(slot.page)]);
        }
        out.append(code);
        out.append(":");
        append_number(&mut out, slot.index as u64);
        out.append(":");
        append_number(&mut out, slot.quantity as u64);
        out.append(":");
        append_number(&mut out, slot.price as u64);
        proof {
            assert(out@ =~= "/pshop_open \""@ + title@ + "\" \""@ + spec_listings_text(
                slots@,
                j + 1,
            ));
        }
        j += 1;
    }
    out.append("\"");
    proof {
        assert(out@ =~= spec_open_command(title@, slots@));
    }
    out
}

/// The chat command that closes the personal shop.
pub fn build_shop_close_command() -> (r: String)
    ensures
        r@ == "/pshop_close"@,
{
    String::from_str("/pshop_close")
}

/// The chat command for a test purchase from an open shop.
pub fn build_debug_buy_command(slot_index: usize, quantity: u32) -> (r: String)
    ensures
        r@ == "/pshop_test_buy "@ + digits_of(slot_index as nat) + " "@ + digits_of(
            quantity as nat,
        ),
{
    let mut out = String::from_str("/pshop_test_buy ");
    append_number(&mut out, slot_index as u64);
    out.append(" ");
    append_number(&mut out, quantity as u64);
    out
}

} // verus!
