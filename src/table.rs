//! The era table, an insertion-ordered map from start year to era, and the
//! year-to-era lookup over it.

use vstd::prelude::*;
use crate::era::{EraNames, WarekiError, start_year, era_of_year};

verus! {

#[verifier::external_type_specification]
#[verifier::external_body]
#[verifier::reject_recursive_types(K)]
#[verifier::reject_recursive_types(V)]
#[verifier::reject_recursive_types(S)]
pub struct ExIndexMap<K, V, S>(indexmap::IndexMap<K, V, S>);

#[verifier::external_type_specification]
#[verifier::external_body]
pub struct ExFnvHasher(fnv::FnvHasher);

#[verifier::external_type_specification]
#[verifier::external_body]
#[verifier::reject_recursive_types(H)]
pub struct ExBuildHasherDefault<H>(core::hash::BuildHasherDefault<H>);

/// The map type of the era table.
pub type EraMap = indexmap::IndexMap<u32, EraNames, fnv::FnvBuildHasher>;

/// The entries of an era table, in their insertion order.
pub uninterp spec fn map_entries(m: EraMap) -> Seq<(u32, EraNames)>;

/// Relies on indexmap's `IndexMap::with_capacity_and_hasher`: a new map holds
/// no entries.
#[verifier::external_body]
fn empty_map(n: usize) -> (r: EraMap)
    ensures
        map_entries(r) == Seq::<(u32, EraNames)>::empty(),
{
    indexmap::IndexMap::with_capacity_and_hasher(n, Default::default())
}

/// Relies on indexmap's `IndexMap::insert`: a key not yet present is added
/// last in order and `None` comes back; a present key keeps its place and
/// takes the new value, and the old value comes back.
#[verifier::external_body]
fn map_insert(m: &mut EraMap, k: u32, v: EraNames) -> (r: Option<EraNames>)
    ensures
        (forall|j: int| 0 <= j < map_entries(*old(m)).len() ==> #[trigger] map_entries(*old(m))[j].0 != k)
            ==> r is None && map_entries(*final(m)) == map_entries(*old(m)).push((k, v)),
        forall|j: int| 0 <= j < map_entries(*old(m)).len() && #[trigger] map_entries(*old(m))[j].0 == k
            ==> r == Some(map_entries(*old(m))[j].1) && map_entries(*final(m)) == map_entries(*old(m)).update(j, (k, v)),
{
    m.insert(k, v)
}

/// Relies on indexmap's `IndexMap::len`: the number of entries.
#[verifier::external_body]
fn map_len(m: &EraMap) -> (r: usize)
    ensures
        r == map_entries(*m).len(),
{
    m.len()
}

/// Relies on indexmap's `IndexMap::get_index`: the entry at a position in
/// insertion order, or `None` past the end.
#[verifier::external_body]
fn map_get_index(m: &EraMap, i: usize) -> (r: Option<(u32, EraNames)>)
    ensures
        i < map_entries(*m).len() ==> r == Some(map_entries(*m)[i as int]),
        i >= map_entries(*m).len() ==> r is None,
{
    m.get_index(i).map(|(k, v)| (*k, *v))
}

/// The era table's entries: each era with its start year, in chronological order.
pub open spec fn era_table() -> Seq<(u32, EraNames)> {
    seq![
        (1868u32, EraNames::Meiji),
        (1912u32, EraNames::Taisho),
        (1926u32, EraNames::Showa),
        (1989u32, EraNames::Heisei),
        (2019u32, EraNames::Reiwa),
    ]
}

/// Builds the era table.
pub fn init_wareki_map() -> (r: EraMap)
    ensures
        map_entries(r) == era_table(),
{
    let mut m = empty_map(5);
    map_insert(&mut m, 1868, EraNames::Meiji);
    map_insert(&mut m, 1912, EraNames::Taisho);
    map_insert(&mut m, 1926, EraNames::Showa);
    map_insert(&mut m, 1989, EraNames::Heisei);
    map_insert(&mut m, 2019, EraNames::Reiwa);
    assert(map_entries(m) =~= era_table());
    m
}

/// The era of a western year and the year's number within it; years before
/// 1868 have none.
pub fn western_to_japanese(year: u32) -> (r: Result<(EraNames, u32), WarekiError>)
    ensures
        year >= 1868 ==> r == Ok::<(EraNames, u32), WarekiError>(
            (era_of_year(year as int), (year - start_year(era_of_year(year as int)) + 1) as u32),
        ),
        year < 1868 ==> r == Err::<(EraNames, u32), WarekiError>(WarekiError::NotConvertible(year)),
{
    let table = init_wareki_map();
    let n = map_len(&table);
    let mut era: Option<(EraNames, u32)> = None;
    let mut i: usize = 0;
    let mut stop = false;
    while i < n && !stop
        invariant
            map_entries(table) == era_table(),
            n == 5,
            i <= n,
            forall|j: int| 0 <= j < i ==> #[trigger] era_table()[j].0 <= year,
            stop ==> i < n && era_table()[i as int].0 > year,
            i == 0 ==> era is None,
            i > 0 ==> era == Some((era_table()[i - 1].1, (year - era_table()[i - 1].0 + 1) as u32)),
        decreases n - i, (if stop { 0int } else { 1int }),
    {
        if let Some((y, e)) = map_get_index(&table, i) {
            if y <= year {
                era = Some((e, year - y + 1));
                i = i + 1;
            } else {
                stop = true;
            }
        }
    }
    match era {
        Some(found) => Ok(found),
        None => Err(WarekiError::NotConvertible(year)),
    }
}

/// Every year from 1868 on has an era: the one whose start year is the
/// greatest not after that year, so the year's number in it is at least 1.
pub proof fn lemma_era_of_year_greatest(y: int)
    requires
        y >= 1868,
    ensures
        start_year(era_of_year(y)) <= y,
        forall|e: EraNames| #[trigger] start_year(e) <= y ==> start_year(e) <= start_year(era_of_year(y)),
        y - start_year(era_of_year(y)) + 1 >= 1,
{
}

} // verus!
