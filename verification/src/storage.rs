//! The durable building blocks: the backing memory, its regions, the scalar
//! cell and the ordered map. Each is a value of `ic_stable_structures` held in
//! a private field; what Verus knows of it is what the functions below say.

use vstd::prelude::*;
use ic_stable_structures::memory_manager::{MemoryId, MemoryManager, VirtualMemory};
use ic_stable_structures::{Cell, DefaultMemoryImpl, StableBTreeMap};

verus! {

/// The one byte store that every region is carved from.
#[verifier::external_body]
pub struct Backing {
    memory: DefaultMemoryImpl,
}

/// The allocator that splits a backing memory into numbered regions.
#[verifier::external_body]
pub struct Regions {
    manager: MemoryManager<DefaultMemoryImpl>,
}

/// One region of the backing memory.
#[verifier::external_body]
pub struct Region {
    memory: VirtualMemory<DefaultMemoryImpl>,
}

/// A durable cell that holds one `u64`.
#[verifier::external_body]
pub struct IdCell {
    cell: Cell<u64, VirtualMemory<DefaultMemoryImpl>>,
}

/// A durable map from `u64` keys to byte strings, ordered by key.
#[verifier::external_body]
pub struct RecordTable {
    map: StableBTreeMap<u64, Vec<u8>, VirtualMemory<DefaultMemoryImpl>>,
}

/// The value that the cell holds.
pub uninterp spec fn cell_value(cell: IdCell) -> u64;

/// The entries that the map holds.
pub uninterp spec fn table_contents(table: RecordTable) -> Map<u64, Seq<u8>>;

/// `keys` lists the keys of `contents`, each once, in ascending order.
pub open spec fn lists_keys(keys: Seq<u64>, contents: Map<u64, Seq<u8>>) -> bool {
    &&& forall|i: int, j: int| 0 <= i < j < keys.len() ==> keys[i] < keys[j]
    &&& forall|i: int| 0 <= i < keys.len() ==> contents.contains_key(#[trigger] keys[i])
    &&& forall|k: u64| #[trigger] contents.contains_key(k) ==> keys.contains(k)
}

/// The keys of a vector of entries, in the vector's order.
pub open spec fn entry_keys(entries: Seq<(u64, Vec<u8>)>) -> Seq<u64> {
    Seq::new(entries.len(), |i: int| entries[i].0)
}

/// Trusted: `DefaultMemoryImpl::default`. Nothing is claimed of the memory it
/// gives: on some targets it holds what an earlier run wrote.
#[verifier::external_body]
pub(crate) fn default_memory() -> Backing {
    Backing { memory: DefaultMemoryImpl::default() }
}

impl Backing {
    /// The platform's default memory. On a target whose memory outlives the
    /// process it holds what was written before.
    pub fn new() -> Backing {
        default_memory()
    }
}

/// The identifier under which the allocator handed the region out.
pub uninterp spec fn region_id(region: Region) -> u8;

/// The identifier of the region that the cell was bound to when it was made.
pub uninterp spec fn cell_region(cell: IdCell) -> u8;

/// The identifier of the region that the map was bound to when it was made.
pub uninterp spec fn table_region(table: RecordTable) -> u8;

/// Trusted: `MemoryManager::init`. Nothing is claimed of the result. The call
/// aborts where the memory holds a manager's header of another layout.
#[verifier::external_body]
pub(crate) fn regions_init(backing: Backing) -> Regions {
    Regions { manager: MemoryManager::init(backing.memory) }
}

/// Trusted: `MemoryManager::get` with `MemoryId::new`. The latter refuses the
/// identifier 255, which is left out here. The region handed out carries the
/// identifier asked for; nothing is claimed of what it holds.
#[verifier::external_body]
pub(crate) fn regions_get(regions: &Regions, id: u8) -> (region: Region)
    requires
        id != 255,
    ensures
        region_id(region) == id,
{
    Region { memory: regions.manager.get(MemoryId::new(id)) }
}

/// Trusted: `MemoryManager::into_memory`. Nothing is claimed of the result.
#[verifier::external_body]
pub(crate) fn regions_into_memory(regions: Regions) -> Option<Backing> {
    regions.manager.into_memory().map(|memory| Backing { memory })
}

/// Trusted: `Cell::init`. The cell is bound to the region that it was given.
/// Which value it then holds depends on what the region held, so nothing is
/// claimed of that. The call aborts where the region holds a cell of another
/// layout version.
#[verifier::external_body]
pub(crate) fn cell_init(region: Region, initial: u64) -> (cell: IdCell)
    ensures
        cell_region(cell) == region_id(region),
{
    IdCell { cell: Cell::init(region.memory, initial) }
}

/// Trusted: `Cell::get`. The result is the value that the cell holds.
#[verifier::external_body]
pub(crate) fn cell_get(cell: &IdCell) -> (value: u64)
    ensures
        value == cell_value(*cell),
{
    *cell.cell.get()
}

/// Trusted: `Cell::set`. The cell then holds `value`, in the region it was
/// bound to; the result is the value that it held before. The call aborts where the memory cannot grow to hold
/// the value.
#[verifier::external_body]
pub(crate) fn cell_set(cell: &mut IdCell, value: u64) -> (previous: u64)
    ensures
        previous == cell_value(*old(cell)),
        cell_value(*final(cell)) == value,
        cell_region(*final(cell)) == cell_region(*old(cell)),
{
    cell.cell.set(value)
}

/// Trusted: `BTreeMap::init`. The map is bound to the region that it was
/// given. Which entries it then holds depends on what the region held, so
/// nothing is claimed of them. The call aborts where the region holds a map of
/// another layout version.
#[verifier::external_body]
pub(crate) fn table_init(region: Region) -> (table: RecordTable)
    ensures
        table_region(table) == region_id(region),
{
    RecordTable { map: StableBTreeMap::init(region.memory) }
}

/// Trusted: `BTreeMap::get`. The result is the value stored under `key`, or
/// `None` where the map has no such key.
#[verifier::external_body]
pub(crate) fn table_get(table: &RecordTable, key: u64) -> (value: Option<Vec<u8>>)
    ensures
        value is Some <==> table_contents(*table).contains_key(key),
        value is Some ==> value->Some_0@ == table_contents(*table)[key],
{
    table.map.get(&key)
}

/// Trusted: `BTreeMap::contains_key`.
#[verifier::external_body]
pub(crate) fn table_contains(table: &RecordTable, key: u64) -> (present: bool)
    ensures
        present == table_contents(*table).contains_key(key),
{
    table.map.contains_key(&key)
}

/// Trusted: `BTreeMap::insert`. The map then holds `value` under `key` and is
/// otherwise unchanged, its region too; the result is the value that `key`
/// had before, if any.
/// The call aborts where the memory cannot grow to hold the entry.
#[verifier::external_body]
pub(crate) fn table_insert(table: &mut RecordTable, key: u64, value: Vec<u8>) -> (previous: Option<Vec<u8>>)
    ensures
        table_contents(*final(table)) == table_contents(*old(table)).insert(key, value@),
        table_region(*final(table)) == table_region(*old(table)),
        previous is Some <==> table_contents(*old(table)).contains_key(key),
        previous is Some ==> previous->Some_0@ == table_contents(*old(table))[key],
{
    table.map.insert(key, value)
}

/// Trusted: `BTreeMap::remove`. The map then lacks `key` and is otherwise
/// unchanged, its region too; the result is the value that `key` had before,
/// if any.
#[verifier::external_body]
pub(crate) fn table_remove(table: &mut RecordTable, key: u64) -> (previous: Option<Vec<u8>>)
    ensures
        table_contents(*final(table)) == table_contents(*old(table)).remove(key),
        table_region(*final(table)) == table_region(*old(table)),
        previous is Some <==> table_contents(*old(table)).contains_key(key),
        previous is Some ==> previous->Some_0@ == table_contents(*old(table))[key],
{
    table.map.remove(&key)
}

/// Trusted: `BTreeMap::iter`, collected. The result holds every entry of the
/// map once, in ascending order of the keys.
#[verifier::external_body]
pub(crate) fn table_entries(table: &RecordTable) -> (entries: Vec<(u64, Vec<u8>)>)
    ensures
        lists_keys(entry_keys(entries@), table_contents(*table)),
        forall|i: int| 0 <= i < entries@.len() ==> (#[trigger] entries@[i]).1@ == table_contents(*table)[entries@[i].0],
{
    table.map.iter().map(|entry| entry.into_pair()).collect()
}

} // verus!
