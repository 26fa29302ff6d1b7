//! GeoTIFF projection metadata: the EPSG code in a GeoKey directory and the UTM
//! zone it names.
use vstd::prelude::*;

verus! {

/// GeoKey id of the projected coordinate system (EPSG) entry.
pub const KEY_PROJECTED_CS_TYPE: u16 = 3072;

pub open spec fn utm_zone_spec(epsg: u32) -> Option<(u8, bool)> {
    if 32601 <= epsg <= 32660 {
        Some(((epsg - 32600) as u8, true))
    } else if 32701 <= epsg <= 32760 {
        Some(((epsg - 32700) as u8, false))
    } else {
        None
    }
}

/// UTM zone and hemisphere (`true` = north) of a WGS84/UTM EPSG code
/// (326zz north, 327zz south); `None` for any other code.
pub fn utm_zone(epsg: u32) -> (r: Option<(u8, bool)>)
    ensures
        r == utm_zone_spec(epsg),
        r matches Some((z, _)) ==> 1 <= z <= 60,
{
    if 32601 <= epsg && epsg <= 32660 {
        Some(((epsg - 32600) as u8, true))
    } else if 32701 <= epsg && epsg <= 32760 {
        Some(((epsg - 32700) as u8, false))
    } else {
        None
    }
}

/// The entry `k` of a GeoKey directory lies wholly inside it.
pub open spec fn entry_in_range(keys: Seq<u32>, k: int) -> bool {
    4 + 4 * k + 3 < keys.len()
}

/// Entry `k` is an inline projected-CS entry.
pub open spec fn is_projection_entry(keys: Seq<u32>, k: int) -> bool {
    (keys[4 + 4 * k] as u16) == KEY_PROJECTED_CS_TYPE && keys[4 + 4 * k + 1] == 0
}

/// The EPSG code of the first inline projected-CS entry among entries `k..n`
/// that lie inside the directory, reading stops at the first entry that does not.
pub open spec fn epsg_from(keys: Seq<u32>, k: int, n: int) -> Option<u32>
    decreases n - k,
{
    if k >= n || !entry_in_range(keys, k) {
        None
    } else if is_projection_entry(keys, k) {
        Some(keys[4 + 4 * k + 3])
    } else {
        epsg_from(keys, k + 1, n)
    }
}

/// The EPSG code a GeoKey directory holds: the header's fourth word counts the
/// 4-word entries that follow; the first inline (location 0) entry with key
/// 3072 carries the code.
pub open spec fn epsg_of_geokeys(keys: Seq<u32>) -> Option<u32> {
    if keys.len() < 4 {
        None
    } else {
        epsg_from(keys, 0, keys[3] as int)
    }
}

/// The EPSG code held by a GeoKey directory, if any.
pub fn epsg_from_geokeys(keys: &Vec<u32>) -> (r: Option<u32>)
    ensures
        r == epsg_of_geokeys(keys@),
{
    if keys.len() < 4 {
        return None;
    }
    let nkeys = keys[3] as usize;
    let mut k: usize = 0;
    while k < nkeys
        invariant
            keys.len() >= 4,
            nkeys == keys@[3],
            k <= nkeys,
            4 * k + 4 <= keys.len() + 4,
            k > 0 ==> 4 * k + 3 < keys.len(),
            epsg_of_geokeys(keys@) == epsg_from(keys@, k as int, nkeys as int),
        decreases nkeys - k,
    {
        let base = 4 + k * 4;
        if base >= keys.len() - 3 {
            return None;
        }
        let key_id = keys[base] as u16;
        let location = keys[base + 1];
        let value = keys[base + 3];
        if key_id == KEY_PROJECTED_CS_TYPE && location == 0 {
            return Some(value);
        }
        k = k + 1;
    }
    None
}

} // verus!
