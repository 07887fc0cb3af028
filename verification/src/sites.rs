//! NEXRAD radar site database: a table of major WSR-88D sites and a lookup
//! by site identifier.
use vstd::prelude::*;
use crate::text::{all_ascii, ascii_upper, ascii_upper_str, str_eq, to_upper, unicode_upper};

verus! {

/// A selection of major NEXRAD sites: identifier, name, latitude and
/// longitude in ten-thousandths of a degree, and elevation in metres.
pub const SITES: [(&'static str, &'static str, i32, i32, i32); 12] = [
    ("KTLX", "Oklahoma City, OK", 353331, -972778, 370),
    ("KFWS", "Dallas/Fort Worth, TX", 325731, -973028, 208),
    ("KOUN", "Norman, OK (research)", 352456, -974622, 357),
    ("KOKX", "Brookhaven, NY", 408656, -728639, 26),
    ("KLSX", "St. Louis, MO", 386986, -906828, 185),
    ("KLIX", "New Orleans, LA", 303367, -898256, 8),
    ("KLOT", "Chicago, IL", 416044, -880847, 202),
    ("KFFC", "Atlanta, GA", 333636, -845658, 262),
    ("KAMX", "Miami, FL", 256111, -804128, 4),
    ("KSOX", "Santa Ana Mtns, CA", 338178, -1176360, 923),
    ("KATX", "Seattle, WA", 481944, -1224960, 151),
    ("KPUX", "Pueblo, CO", 384594, -1041810, 1600),
];

/// The first entry of `table` whose identifier is `id`.
pub open spec fn site_entry(
    table: Seq<(&'static str, &'static str, i32, i32, i32)>,
    id: Seq<char>,
) -> Option<(&'static str, &'static str, i32, i32, i32)>
    decreases table.len(),
{
    if table.len() == 0 {
        None
    } else if table[0].0@ == id {
        Some(table[0])
    } else {
        site_entry(table.drop_first(), id)
    }
}

/// The site whose identifier is exactly `id_upper`.
pub fn find_site_upper(id_upper: &str) -> (r: Option<(&'static str, &'static str, i32, i32, i32)>)
    ensures
        r == site_entry(SITES@, id_upper@),
{
    let mut i: usize = 0;
    assert(SITES@.skip(0) == SITES@);
    while i < 12
        invariant
            i <= 12,
            site_entry(SITES@, id_upper@) == site_entry(SITES@.skip(i as int), id_upper@),
        decreases 12 - i,
    {
        assert(SITES@.skip(i as int)[0] == SITES@[i as int]);
        assert(SITES@.skip(i as int).drop_first() == SITES@.skip(i + 1));
        if str_eq(SITES[i].0, id_upper) {
            return Some(SITES[i]);
        }
        i += 1;
    }
    None
}

/// Look up a NEXRAD site by its identifier, without regard to case.
pub fn find_site(id: &str) -> (r: Option<(&'static str, &'static str, i32, i32, i32)>)
    ensures
        r == site_entry(SITES@, unicode_upper(id@)),
        all_ascii(id@) ==> r == site_entry(SITES@, ascii_upper_str(id@)),
{
    let up = to_upper(id);
    find_site_upper(up.as_str())
}

} // verus!

verus! {

/// Looking up an identifier that a table holds finds an entry with that
/// identifier.
proof fn lemma_site_entry_found(table: Seq<(&'static str, &'static str, i32, i32, i32)>, i: int)
    requires
        0 <= i < table.len(),
    ensures
        site_entry(table, table[i].0@) matches Some(e) && e.0@ == table[i].0@,
    decreases table.len(),
{
    if table[0].0@ != table[i].0@ {
        assert(table.drop_first()[i - 1] == table[i]);
        lemma_site_entry_found(table.drop_first(), i - 1);
    }
}

/// Every site of the table is found by its own identifier.
pub proof fn law_every_site_findable(i: int)
    requires
        0 <= i < SITES@.len(),
    ensures
        site_entry(SITES@, SITES@[i].0@) matches Some(e) && e.0@ == SITES@[i].0@,
{
    lemma_site_entry_found(SITES@, i);
}

/// The identifiers of the table are ASCII and upper-case.
proof fn lemma_site_ids_upper(i: int)
    requires
        0 <= i < SITES@.len(),
    ensures
        all_ascii(SITES@[i].0@),
        ascii_upper_str(SITES@[i].0@) == SITES@[i].0@,
{
    reveal_strlit("KTLX");
    reveal_strlit("KFWS");
    reveal_strlit("KOUN");
    reveal_strlit("KOKX");
    reveal_strlit("KLSX");
    reveal_strlit("KLIX");
    reveal_strlit("KLOT");
    reveal_strlit("KFFC");
    reveal_strlit("KAMX");
    reveal_strlit("KSOX");
    reveal_strlit("KATX");
    reveal_strlit("KPUX");
    let id = SITES@[i].0@;
    assert(ascii_upper_str(id) =~= id);
}

/// Lookups ignore ASCII case: an ASCII identifier finds the same site as
/// its upper-case form, and every site of the table is found by its
/// identifier written in any ASCII case.
pub proof fn law_find_site_ignores_case(id: Seq<char>, i: int)
    requires
        all_ascii(id),
        0 <= i < SITES@.len(),
    ensures
        all_ascii(ascii_upper_str(id)),
        site_entry(SITES@, ascii_upper_str(ascii_upper_str(id))) == site_entry(SITES@, ascii_upper_str(id)),
        ascii_upper_str(id) == ascii_upper_str(SITES@[i].0@) ==> (site_entry(SITES@, ascii_upper_str(id))
            matches Some(e) && e.0@ == SITES@[i].0@),
{
    assert(ascii_upper_str(ascii_upper_str(id)) =~= ascii_upper_str(id));
    assert forall|j: int| 0 <= j < ascii_upper_str(id).len() implies (#[trigger] ascii_upper_str(id)[j] as u32)
        < 128 by {
        assert((id[j] as u32) < 128);
    }
    lemma_site_ids_upper(i);
    if ascii_upper_str(id) == ascii_upper_str(SITES@[i].0@) {
        law_every_site_findable(i);
    }
}

} // verus!
