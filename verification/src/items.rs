//! The item browser: the item-type code table used by give-item chat
//! commands, and the case-insensitive name filter over the item table.

use vstd::prelude::*;

use crate::numbers::{digits_of, format_number_plain};

verus! {

/// The kinds of item the browser lists.
#[derive(Clone, Copy, PartialEq, Eq, Structural, Debug)]
pub enum ItemType {
    Face,
    Head,
    Body,
    Hands,
    Feet,
    Back,
    Jewellery,
    Weapon,
    SubWeapon,
    Consumable,
    Gem,
    Material,
    Quest,
    Vehicle,
}

/// The numeric code of an item type in chat commands.
pub open spec fn spec_item_type_code(t: ItemType) -> u32 {
    match t {
        ItemType::Face => 1,
        ItemType::Head => 2,
        ItemType::Body => 3,
        ItemType::Hands => 4,
        ItemType::Feet => 5,
        ItemType::Back => 6,
        ItemType::Jewellery => 7,
        ItemType::Weapon => 8,
        ItemType::SubWeapon => 9,
        ItemType::Consumable => 10,
        ItemType::Gem => 11,
        ItemType::Material => 12,
        ItemType::Quest => 13,
        ItemType::Vehicle => 14,
    }
}

#[verifier::when_used_as_spec(spec_item_type_code)]
pub fn encode_item_type(item_type: ItemType) -> (code: u32)
    ensures
        code == spec_item_type_code(item_type),
{
    match item_type {
        ItemType::Face => 1,
        ItemType::Head => 2,
        ItemType::Body => 3,
        ItemType::Hands => 4,
        ItemType::Feet => 5,
        ItemType::Back => 6,
        ItemType::Jewellery => 7,
        ItemType::Weapon => 8,
        ItemType::SubWeapon => 9,
        ItemType::Consumable => 10,
        ItemType::Gem => 11,
        ItemType::Material => 12,
        ItemType::Quest => 13,
        ItemType::Vehicle => 14,
    }
}

/// ASCII lower-casing of one byte.
pub open spec fn spec_lower_byte(b: u8) -> u8 {
    if 'A' as u8 <= b <= 'Z' as u8 {
        (b + 32) as u8
    } else {
        b
    }
}

/// ASCII lower-casing of a byte string.
pub open spec fn spec_lower(s: Seq<u8>) -> Seq<u8> {
    s.map_values(|b: u8| spec_lower_byte(b))
}

/// Lower-case a byte string, ASCII letters only.
pub fn to_ascii_lowercase_bytes(s: &Vec<u8>) -> (r: Vec<u8>)
    ensures
        r@ == spec_lower(s@),
{
    let mut r: Vec<u8> = Vec::new();
    let mut i: usize = 0;
    while i < s.len()
        invariant
            i <= s@.len(),
            r@.len() == i,
            forall|k: int| 0 <= k < i ==> r@[k] == spec_lower_byte(#[trigger] s@[k]),
        decreases s@.len() - i,
    {
        let b = s[i];
        if b >= 65 && b <= 90 {
            r.push(b + 32);
        } else {
            r.push(b);
        }
        i += 1;
    }
    proof {
        assert(r@ =~= spec_lower(s@));
    }
    r
}

/// `needle` occurs contiguously inside `hay`.
pub open spec fn spec_contains_sub(hay: Seq<u8>, needle: Seq<u8>) -> bool {
    exists|off: int|
        0 <= off && off + needle.len() <= hay.len() && #[trigger] hay.subrange(
            off,
            off + needle.len(),
        ) == needle
}

/// Search for `needle` inside `hay`.
#[verifier::loop_isolation(false)]
pub fn bytes_contain(hay: &Vec<u8>, needle: &Vec<u8>) -> (r: bool)
    ensures
        r == spec_contains_sub(hay@, needle@),
{
    let n = needle.len();
    let h = hay.len();
    if n == 0 {
        proof {
            assert(hay@.subrange(0, 0 + needle@.len() as int) =~= needle@);
            assert(spec_contains_sub(hay@, needle@));
        }
        return true;
    }
    if n > h {
        proof {
            if spec_contains_sub(hay@, needle@) {
                let off = choose|off: int|
                    0 <= off && off + needle@.len() <= hay@.len() && #[trigger] hay@.subrange(
                        off,
                        off + needle@.len(),
                    ) == needle@;
            }
        }
        return false;
    }
    let lim = h - n;
    let mut off: usize = 0;
    while off <= lim
        invariant
            forall|o: int|
                0 <= o < off ==> #[trigger] hay@.subrange(o, o + needle@.len()) != needle@,
        decreases lim + 1 - off,
    {
        let mut k: usize = 0;
        let mut all = true;
        while k < n
            invariant
                k <= n,
                off + n <= h,
                all == (forall|k2: int| 0 <= k2 < k ==> hay@[off + k2] == needle@[k2]),
            decreases n - k,
        {
            let ghost all0 = all;
            if hay[off + k] != needle[k] {
                all = false;
            }
            proof {
                if all {
                    assert(forall|k2: int| 0 <= k2 < k + 1 ==> hay@[off + k2] == needle@[k2]);
                } else {
                    if all0 && hay@[off + k] == needle@[k as int] {
                        assert(false);
                    }
                    if !(forall|k2: int| 0 <= k2 < k + 1 ==> hay@[off + k2] == needle@[k2]) {
                    } else {
                        assert(hay@[off + k] == needle@[k as int]);
                    }
                }
            }
            k += 1;
        }
        if all {
            proof {
                assert(hay@.subrange(off as int, off + needle@.len()) =~= needle@);
            }
            return true;
        }
        proof {
            if hay@.subrange(off as int, off + needle@.len()) == needle@ {
                assert(forall|k2: int|
                    0 <= k2 < n ==> hay@.subrange(off as int, off + needle@.len())[k2]
                        == needle@[k2]);
                assert(hay@[off as int] == needle@[0]) by {
                    assert(hay@.subrange(off as int, off + needle@.len())[0] == needle@[0]);
                }
                assert(false) by {
                    let bad = choose|k2: int| 0 <= k2 < n && hay@[off + k2] != needle@[k2];
                    assert(hay@.subrange(off as int, off + needle@.len())[bad] == needle@[bad]);
                }
            }
        }
        off += 1;
    }
    proof {
        if spec_contains_sub(hay@, needle@) {
            let o = choose|o: int|
                0 <= o && o + needle@.len() <= hay@.len() && #[trigger] hay@.subrange(
                    o,
                    o + needle@.len(),
                ) == needle@;
            assert(o <= lim);
        }
    }
    false
}

/// The chat command that grants an item: the type code, identifier,
/// quantity, socket flag (one or zero), gem and grade, space-separated.
pub open spec fn spec_give_item_command(
    item_type: ItemType,
    item_id: u32,
    quantity: u32,
    socket: bool,
    gem: u32,
    grade: u8,
) -> Seq<char> {
    "/item "@ + digits_of(spec_item_type_code(item_type) as nat) + " "@ + digits_of(
        item_id as nat,
    ) + " "@ + digits_of(quantity as nat) + " "@ + digits_of(
        if socket {
            1nat
        } else {
            0nat
        },
    ) + " "@ + digits_of(gem as nat) + " "@ + digits_of(grade as nat)
}

/// Render the give-item chat command the browser sends.
pub fn build_give_item_command(
    item_type: ItemType,
    item_id: u32,
    quantity: u32,
    socket: bool,
    gem: u32,
    grade: u8,
) -> (r: String)
    ensures
        r@ == spec_give_item_command(item_type, item_id, quantity, socket, gem, grade),
{
    let mut out = String::from_str("/item ");
    out.append(format_number_plain(encode_item_type(item_type) as u64).as_str());
    out.append(" ");
    out.append(format_number_plain(item_id as u64).as_str());
    out.append(" ");
    out.append(format_number_plain(quantity as u64).as_str());
    out.append(" ");
    let socket_code: u64 = if socket {
        1
    } else {
        0
    };
    out.append(format_number_plain(socket_code).as_str());
    out.append(" ");
    out.append(format_number_plain(gem as u64).as_str());
    out.append(" ");
    out.append(format_number_plain(grade as u64).as_str());
    out
}

/// A row of the item table: its type, identifier, and display name as
/// bytes (already trimmed).
pub struct BrowserItemRow {
    pub item_type: ItemType,
    pub item_id: u32,
    pub item_name: Vec<u8>,
}

/// A row passes the browser filter: its type matches the filter (or no
/// filter is set), its name is non-empty, and its lower-cased name
/// contains the lower-cased query.
pub open spec fn spec_row_passes(
    row: BrowserItemRow,
    filter: Option<ItemType>,
    query_lower: Seq<u8>,
) -> bool {
    &&& match filter {
        Some(t) => row.item_type == t,
        None => true,
    }
    &&& row.item_name@.len() > 0
    &&& (query_lower.len() == 0 || spec_contains_sub(spec_lower(row.item_name@), query_lower))
}

/// A row reduced to its content: type, identifier and name text.
pub open spec fn spec_row_view(r: BrowserItemRow) -> (ItemType, u32, Seq<u8>) {
    (r.item_type, r.item_id, r.item_name@)
}

/// The contents of the rows among the first `n` that pass the filter, in
/// table order.
pub open spec fn spec_filtered_views(
    rows: Seq<BrowserItemRow>,
    n: int,
    filter: Option<ItemType>,
    query_lower: Seq<u8>,
) -> Seq<(ItemType, u32, Seq<u8>)>
    decreases n,
{
    if n <= 0 {
        Seq::empty()
    } else {
        spec_filtered_views(rows, n - 1, filter, query_lower) + (if spec_row_passes(
            rows[n - 1],
            filter,
            query_lower,
        ) {
            seq![spec_row_view(rows[n - 1])]
        } else {
            Seq::empty()
        })
    }
}

/// Filter the item table by type and case-insensitive name search: the
/// result is exactly the subsequence of rows that pass, in table order,
/// with the query lower-cased once up front as the browser does.
pub fn refresh_item_results(
    rows: &Vec<BrowserItemRow>,
    filter: Option<ItemType>,
    query: &Vec<u8>,
) -> (out: Vec<BrowserItemRow>)
    ensures
        out@.map_values(|r: BrowserItemRow| spec_row_view(r)) == spec_filtered_views(
            rows@,
            rows@.len() as int,
            filter,
            spec_lower(query@),
        ),
{
    let query_lower = to_ascii_lowercase_bytes(query);
    let mut out: Vec<BrowserItemRow> = Vec::new();
    let mut i: usize = 0;
    while i < rows.len()
        invariant
            i <= rows@.len(),
            query_lower@ == spec_lower(query@),
            out@.map_values(|r: BrowserItemRow| spec_row_view(r)) == spec_filtered_views(
                rows@,
                i as int,
                filter,
                spec_lower(query@),
            ),
        decreases rows@.len() - i,
    {
        let row = &rows[i];
        let type_ok = match (filter, row.item_type) {
            (None, _) => true,
            (Some(t), rt) => encode_item_type(t) == encode_item_type(rt),
        };
        let mut keep = type_ok && row.item_name.len() > 0;
        if keep && query_lower.len() > 0 {
            let name_lower = to_ascii_lowercase_bytes(&row.item_name);
            keep = bytes_contain(&name_lower, &query_lower);
        }
        if keep {
            let kept = BrowserItemRow {
                item_type: row.item_type,
                item_id: row.item_id,
                item_name: clone_bytes(&row.item_name),
            };
            out.push(kept);
            proof {
                assert(spec_row_passes(rows@[i as int], filter, spec_lower(query@)));
                assert(out@.map_values(|r: BrowserItemRow| spec_row_view(r))
                    =~= spec_filtered_views(rows@, i + 1, filter, spec_lower(query@)));
            }
        } else {
            proof {
                assert(!spec_row_passes(rows@[i as int], filter, spec_lower(query@)));
                assert(out@.map_values(|r: BrowserItemRow| spec_row_view(r))
                    =~= spec_filtered_views(rows@, i + 1, filter, spec_lower(query@)));
            }
        }
        i += 1;
    }
    out
}

/// Copy a byte string.
fn clone_bytes(s: &Vec<u8>) -> (r: Vec<u8>)
    ensures
        r@ == s@,
{
    let mut r: Vec<u8> = Vec::new();
    let mut i: usize = 0;
    while i < s.len()
        invariant
            i <= s@.len(),
            r@ =~= s@.take(i as int),
        decreases s@.len() - i,
    {
        r.push(s[i]);
        i += 1;
    }
    proof {
        assert(s@.take(s@.len() as int) =~= s@);
    }
    r
}

} // verus!
