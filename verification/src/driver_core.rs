//! A fixed-capacity registry of drivers.
//!
//! Bus drivers (I2C, SPI, UART) are registered on their own; device drivers
//! name the bus driver they depend on, which must already be registered.
//! The registry keeps its entries in `N` slots; a new entry takes the first
//! free slot.
use vstd::prelude::*;

use crate::text::str_eq;

verus! {

/// The class of a driver.
#[derive(Copy, Clone, Debug, Eq, PartialEq, Structural)]
pub enum DriverKind {
    I2c,
    Spi,
    Uart,
    Device,
}

impl DriverKind {
    /// A primary driver is a bus driver (I2C, SPI or UART); devices are not.
    #[verifier::allow_in_spec]
    pub fn is_primary(self) -> bool
        returns
            !(self is Device),
    {
        match self {
            DriverKind::I2c | DriverKind::Spi | DriverKind::Uart => true,
            DriverKind::Device => false,
        }
    }
}

/// The life-cycle state of a registered driver.
#[derive(Copy, Clone, Debug, Eq, PartialEq, Structural)]
pub enum DriverState {
    Uninitialized,
    Ready,
    Fault,
}

/// A registry entry.
#[derive(Copy, Clone, Debug, Eq, PartialEq)]
pub struct DriverInfo {
    pub name: &'static str,
    pub kind: DriverKind,
    pub state: DriverState,
    pub dependency: Option<&'static str>,
}

/// Why the registry refused a request.
#[derive(Copy, Clone, Debug, Eq, PartialEq, Structural)]
pub enum DriverError {
    Full,
    Duplicate,
    NotFound,
    MissingDependency,
    InvalidDependency,
}

// ---------------------------------------------------------------------------
// The model: a sequence of slots, each empty or holding one entry.
// ---------------------------------------------------------------------------

/// The slot holds an entry with the given name.
pub open spec fn holds_name(slot: Option<DriverInfo>, name: Seq<char>) -> bool {
    slot matches Some(d) && d.name@ == name
}

/// Some slot holds an entry with the given name.
pub open spec fn name_present(slots: Seq<Option<DriverInfo>>, name: Seq<char>) -> bool {
    exists|i: int| 0 <= i < slots.len() && #[trigger] holds_name(slots[i], name)
}

/// The index of the slot that holds `name` (meaningful where `name_present`).
pub open spec fn slot_of(slots: Seq<Option<DriverInfo>>, name: Seq<char>) -> int {
    choose|i: int| 0 <= i < slots.len() && #[trigger] holds_name(slots[i], name)
}

/// The entry registered under `name`, if any.
pub open spec fn lookup(slots: Seq<Option<DriverInfo>>, name: Seq<char>) -> Option<DriverInfo> {
    if name_present(slots, name) {
        slots[slot_of(slots, name)]
    } else {
        None
    }
}

/// Some slot is empty.
pub open spec fn has_free_slot(slots: Seq<Option<DriverInfo>>) -> bool {
    exists|i: int| 0 <= i < slots.len() && #[trigger] slots[i] is None
}

/// `i` is the lowest empty slot.
pub open spec fn is_first_free(slots: Seq<Option<DriverInfo>>, i: int) -> bool {
    &&& 0 <= i < slots.len()
    &&& slots[i] is None
    &&& forall|j: int| 0 <= j < i ==> #[trigger] slots[j] is Some
}

/// The lowest empty slot (meaningful where `has_free_slot`).
pub open spec fn first_free(slots: Seq<Option<DriverInfo>>) -> int {
    choose|i: int| is_first_free(slots, i)
}

/// The registered entries, in slot order.
pub open spec fn registered(slots: Seq<Option<DriverInfo>>) -> Seq<DriverInfo>
    decreases slots.len(),
{
    if slots.len() == 0 {
        Seq::empty()
    } else {
        let rest = registered(slots.drop_last());
        match slots.last() {
            Some(d) => rest.push(d),
            None => rest,
        }
    }
}

/// No two registered entries share a name.
pub open spec fn names_unique(slots: Seq<Option<DriverInfo>>) -> bool {
    forall|i: int, j: int|
        #![trigger slots[i], slots[j]]
        0 <= i < slots.len() && 0 <= j < slots.len() && i != j && slots[i] is Some
            && slots[j] is Some ==> slots[i]->0.name@ != slots[j]->0.name@
}

/// Some registered primary driver carries the given name.
pub open spec fn primary_present(slots: Seq<Option<DriverInfo>>, name: Seq<char>) -> bool {
    exists|k: int|
        0 <= k < slots.len() && #[trigger] holds_name(slots[k], name) && slots[k]->0.kind.is_primary()
}

/// A primary entry has no dependency; a device entry depends on a registered
/// primary driver.
pub open spec fn entry_linked(slots: Seq<Option<DriverInfo>>, d: DriverInfo) -> bool {
    if d.kind.is_primary() {
        d.dependency is None
    } else {
        d.dependency matches Some(dep) && primary_present(slots, dep@)
    }
}

/// Every registered entry is linked.
pub open spec fn links_valid(slots: Seq<Option<DriverInfo>>) -> bool {
    forall|i: int| 0 <= i < slots.len() && #[trigger] slots[i] is Some ==> entry_linked(slots, slots[i]->0)
}

/// Occupied slots come first: no free slot precedes an occupied one.
pub open spec fn occupied_prefix(slots: Seq<Option<DriverInfo>>) -> bool {
    forall|i: int, j: int|
        #![trigger slots[i], slots[j]]
        0 <= i < j < slots.len() && slots[j] is Some ==> slots[i] is Some
}

/// The invariants every table reached through the registry satisfies.
pub open spec fn table_ok(slots: Seq<Option<DriverInfo>>) -> bool {
    &&& names_unique(slots)
    &&& links_valid(slots)
    &&& occupied_prefix(slots)
}

/// The names of a sequence of entries, in order.
pub open spec fn names(entries: Seq<DriverInfo>) -> Seq<Seq<char>> {
    entries.map_values(|d: DriverInfo| d.name@)
}

/// The checks that `register` makes before it looks for a slot.
pub open spec fn register_check(slots: Seq<Option<DriverInfo>>, d: DriverInfo) -> Result<(), DriverError> {
    match d.kind {
        DriverKind::Device => match d.dependency {
            None => Err(DriverError::MissingDependency),
            Some(dep) => match lookup(slots, dep@) {
                None => Err(DriverError::MissingDependency),
                Some(p) => if p.kind.is_primary() {
                    Ok(())
                } else {
                    Err(DriverError::InvalidDependency)
                },
            },
        },
        _ => if d.dependency is Some {
            Err(DriverError::InvalidDependency)
        } else {
            Ok(())
        },
    }
}

/// What inserting `d` answers: a duplicate name first, then a full table.
pub open spec fn insert_result(slots: Seq<Option<DriverInfo>>, d: DriverInfo) -> Result<(), DriverError> {
    if name_present(slots, d.name@) {
        Err(DriverError::Duplicate)
    } else if !has_free_slot(slots) {
        Err(DriverError::Full)
    } else {
        Ok(())
    }
}

/// The slots after inserting `d`: the lowest free slot takes it, if the
/// insertion is accepted.
pub open spec fn insert_slots(slots: Seq<Option<DriverInfo>>, d: DriverInfo) -> Seq<Option<DriverInfo>> {
    if insert_result(slots, d) is Ok {
        slots.update(first_free(slots), Some(d))
    } else {
        slots
    }
}

/// What `register` answers for `d`.
pub open spec fn register_result(slots: Seq<Option<DriverInfo>>, d: DriverInfo) -> Result<(), DriverError> {
    match register_check(slots, d) {
        Err(e) => Err(e),
        Ok(()) => insert_result(slots, d),
    }
}

/// The slots after `register` of `d`.
pub open spec fn register_slots(slots: Seq<Option<DriverInfo>>, d: DriverInfo) -> Seq<Option<DriverInfo>> {
    if register_check(slots, d) is Ok {
        insert_slots(slots, d)
    } else {
        slots
    }
}

/// The entry that `register_primary` builds.
pub open spec fn primary_info(name: &'static str, kind: DriverKind) -> DriverInfo {
    DriverInfo { name, kind, state: DriverState::Ready, dependency: None }
}

/// The entry that `register_device` builds.
pub open spec fn device_info(name: &'static str, dependency: &'static str) -> DriverInfo {
    DriverInfo {
        name,
        kind: DriverKind::Device,
        state: DriverState::Uninitialized,
        dependency: Some(dependency),
    }
}

/// `d` with its state replaced.
pub open spec fn with_state(d: DriverInfo, state: DriverState) -> DriverInfo {
    DriverInfo { name: d.name, kind: d.kind, state, dependency: d.dependency }
}

/// The slots after setting the state of the entry named `name`.
pub open spec fn set_state_slots(
    slots: Seq<Option<DriverInfo>>,
    name: Seq<char>,
    state: DriverState,
) -> Seq<Option<DriverInfo>> {
    if name_present(slots, name) {
        slots.update(slot_of(slots, name), Some(with_state(slots[slot_of(slots, name)]->0, state)))
    } else {
        slots
    }
}

// ---------------------------------------------------------------------------
// Lemmas on the model.
// ---------------------------------------------------------------------------

/// With unique names, any slot that holds `name` is the one `slot_of` picks.
proof fn lemma_slot_of_unique(slots: Seq<Option<DriverInfo>>, name: Seq<char>, i: int)
    requires
        names_unique(slots),
        0 <= i < slots.len(),
        holds_name(slots[i], name),
    ensures
        name_present(slots, name),
        slot_of(slots, name) == i,
        lookup(slots, name) == slots[i],
{
    assert(name_present(slots, name));
    let k = slot_of(slots, name);
    assert(holds_name(slots[k], name));
    if k != i {
        assert(slots[i]->0.name@ != slots[k]->0.name@);
    }
}

/// There is only one lowest free slot.
proof fn lemma_first_free_unique(slots: Seq<Option<DriverInfo>>, i: int)
    requires
        is_first_free(slots, i),
    ensures
        first_free(slots) == i,
        has_free_slot(slots),
{
    assert(slots[i] is None);
    let k = first_free(slots);
    assert(is_first_free(slots, k));
    if k < i {
        assert(slots[k] is Some);
    }
    if i < k {
        assert(slots[i] is Some);
    }
}

/// How many entries `registered` lists after one slot changes.
proof fn lemma_registered_update(slots: Seq<Option<DriverInfo>>, i: int, x: Option<DriverInfo>)
    requires
        0 <= i < slots.len(),
    ensures
        registered(slots.update(i, x)).len() + (if slots[i] is Some { 1int } else { 0int })
            == registered(slots).len() + (if x is Some { 1int } else { 0int }),
    decreases slots.len(),
{
    let s2 = slots.update(i, x);
    if i == slots.len() - 1 {
        assert(s2.drop_last() =~= slots.drop_last());
    } else {
        assert(s2.drop_last() =~= slots.drop_last().update(i, x));
        lemma_registered_update(slots.drop_last(), i, x);
    }
}

/// `registered` lists at most one entry per slot, and fewer where a slot is
/// free.
proof fn lemma_registered_len(slots: Seq<Option<DriverInfo>>)
    ensures
        registered(slots).len() <= slots.len(),
        has_free_slot(slots) ==> registered(slots).len() < slots.len(),
    decreases slots.len(),
{
    if slots.len() > 0 {
        let rest = slots.drop_last();
        lemma_registered_len(rest);
        if has_free_slot(slots) {
            let i = choose|i: int| 0 <= i < slots.len() && #[trigger] slots[i] is None;
            if i < slots.len() - 1 {
                assert(rest[i] is None);
                assert(has_free_slot(rest));
            }
        }
    }
}

/// A table of empty slots lists nothing.
proof fn lemma_registered_empty(slots: Seq<Option<DriverInfo>>)
    requires
        forall|i: int| 0 <= i < slots.len() ==> #[trigger] slots[i] is None,
    ensures
        registered(slots) =~= Seq::<DriverInfo>::empty(),
    decreases slots.len(),
{
    if slots.len() > 0 {
        lemma_registered_empty(slots.drop_last());
    }
}


/// Where some slot is free, a lowest free slot exists.
proof fn lemma_first_free_exists(slots: Seq<Option<DriverInfo>>, w: int)
    requires
        0 <= w < slots.len(),
        slots[w] is None,
    ensures
        is_first_free(slots, first_free(slots)),
    decreases w,
{
    if forall|j: int| 0 <= j < w ==> #[trigger] slots[j] is Some {
        assert(is_first_free(slots, w));
    } else {
        let v = choose|j: int| 0 <= j < w && !(#[trigger] slots[j] is Some);
        lemma_first_free_exists(slots, v);
    }
}

/// Inserting under a fresh name keeps names unique.
proof fn lemma_fresh_insert_unique(slots: Seq<Option<DriverInfo>>, i: int, d: DriverInfo)
    requires
        names_unique(slots),
        0 <= i < slots.len(),
        !name_present(slots, d.name@),
    ensures
        names_unique(slots.update(i, Some(d))),
{
    let s2 = slots.update(i, Some(d));
    assert forall|a: int, b: int|
        #![trigger s2[a], s2[b]]
        0 <= a < s2.len() && 0 <= b < s2.len() && a != b && s2[a] is Some && s2[b] is Some
            implies s2[a]->0.name@ != s2[b]->0.name@ by {
        if a == i {
            assert(holds_name(slots[b], slots[b]->0.name@));
        } else if b == i {
            assert(holds_name(slots[a], slots[a]->0.name@));
        } else {
            assert(slots[a] == s2[a] && slots[b] == s2[b]);
        }
    }
}

/// Changing the state of one entry keeps names unique.
proof fn lemma_set_state_keeps_table_unique(slots: Seq<Option<DriverInfo>>, i: int, state: DriverState)
    requires
        names_unique(slots),
        0 <= i < slots.len(),
        slots[i] is Some,
    ensures
        names_unique(slots.update(i, Some(with_state(slots[i]->0, state)))),
{
    let s2 = slots.update(i, Some(with_state(slots[i]->0, state)));
    assert forall|a: int, b: int|
        #![trigger s2[a], s2[b]]
        0 <= a < s2.len() && 0 <= b < s2.len() && a != b && s2[a] is Some && s2[b] is Some
            implies s2[a]->0.name@ != s2[b]->0.name@ by {
        assert(slots[a] is Some && slots[b] is Some);
        assert(slots[a]->0.name@ != slots[b]->0.name@);
    }
}

/// With occupied slots first, the first `registered(slots).len()` slots are
/// exactly the occupied ones, and `registered` lists their entries in slot
/// order.
proof fn lemma_prefix_shape(slots: Seq<Option<DriverInfo>>)
    requires
        occupied_prefix(slots),
    ensures
        registered(slots).len() <= slots.len(),
        forall|i: int| 0 <= i < slots.len() ==> (#[trigger] slots[i] is Some <==> i < registered(slots).len()),
        forall|i: int| 0 <= i < registered(slots).len() ==> #[trigger] registered(slots)[i] == slots[i]->0,
    decreases slots.len(),
{
    if slots.len() > 0 {
        let rest = slots.drop_last();
        assert(occupied_prefix(rest)) by {
            assert forall|i: int, j: int|
                #![trigger rest[i], rest[j]]
                0 <= i < j < rest.len() && rest[j] is Some implies rest[i] is Some by {
                assert(slots[i] == rest[i] && slots[j] == rest[j]);
            }
        }
        lemma_prefix_shape(rest);
        let last = slots.len() - 1;
        if slots[last] is Some {
            assert forall|i: int| 0 <= i < last implies #[trigger] rest[i] is Some by {
                assert(slots[i] == rest[i]);
                assert(slots[i] is Some);
            }
            if registered(rest).len() < last {
                let i = registered(rest).len() as int;
                assert(rest[i] is Some);
            }
            assert(registered(slots) == registered(rest).push(slots[last]->0));
        } else {
            assert(registered(slots) == registered(rest));
        }
        assert forall|i: int| 0 <= i < slots.len() implies (#[trigger] slots[i] is Some <==> i
            < registered(slots).len()) by {
            if i < last {
                assert(slots[i] == rest[i]);
            }
        }
        assert forall|i: int| 0 <= i < registered(slots).len() implies #[trigger] registered(slots)[i]
            == slots[i]->0 by {
            if i < last {
                assert(slots[i] == rest[i]);
            }
        }
    }
}

/// Accepting an insertion into a table whose occupied slots come first puts
/// the entry right after the last occupied slot; the table keeps its shape
/// and lists the new entry last.
proof fn lemma_insert_appends(slots: Seq<Option<DriverInfo>>, d: DriverInfo)
    requires
        occupied_prefix(slots),
        insert_result(slots, d) is Ok,
    ensures
        first_free(slots) == registered(slots).len(),
        occupied_prefix(insert_slots(slots, d)),
        registered(insert_slots(slots, d)) == registered(slots).push(d),
{
    lemma_prefix_shape(slots);
    let k = registered(slots).len() as int;
    let w = choose|i: int| 0 <= i < slots.len() && #[trigger] slots[i] is None;
    assert(k <= w);
    assert(is_first_free(slots, k));
    lemma_first_free_unique(slots, k);
    let s2 = slots.update(k, Some(d));
    assert(s2 == insert_slots(slots, d));
    assert(occupied_prefix(s2)) by {
        assert forall|i: int, j: int|
            #![trigger s2[i], s2[j]]
            0 <= i < j < s2.len() && s2[j] is Some implies s2[i] is Some by {
            if j != k {
                assert(slots[j] is Some);
            }
        }
    }
    lemma_registered_update(slots, k, Some(d));
    lemma_prefix_shape(s2);
    assert(registered(s2) =~= registered(slots).push(d)) by {
        assert forall|i: int| 0 <= i < registered(s2).len() implies #[trigger] registered(s2)[i]
            == registered(slots).push(d)[i] by {
            if i < k {
                assert(registered(slots)[i] == slots[i]->0);
            }
        }
    }
}

/// What passes `register`'s checks is linked in the table it joins.
proof fn lemma_check_links(slots: Seq<Option<DriverInfo>>, d: DriverInfo)
    requires
        register_check(slots, d) is Ok,
    ensures
        entry_linked(slots, d),
{
    if !d.kind.is_primary() {
        let dep = d.dependency->0;
        let k = slot_of(slots, dep@);
        assert(holds_name(slots[k], dep@));
    }
}

/// Setting a state keeps the shape of the table, and `registered` changes
/// only in the state of the entry with that name.
proof fn lemma_set_state_shape(slots: Seq<Option<DriverInfo>>, name: Seq<char>, state: DriverState)
    requires
        table_ok(slots),
        name_present(slots, name),
    ensures
        table_ok(set_state_slots(slots, name, state)),
        registered(set_state_slots(slots, name, state)).len() == registered(slots).len(),
        forall|j: int|
            0 <= j < registered(slots).len() ==> #[trigger] registered(set_state_slots(slots, name, state))[j]
                == if registered(slots)[j].name@ == name {
                with_state(registered(slots)[j], state)
            } else {
                registered(slots)[j]
            },
{
    let i = slot_of(slots, name);
    assert(holds_name(slots[i], name));
    let s2 = slots.update(i, Some(with_state(slots[i]->0, state)));
    assert(s2 == set_state_slots(slots, name, state));
    lemma_set_state_keeps_table(slots, i, state);
    assert(occupied_prefix(s2)) by {
        assert forall|a: int, b: int|
            #![trigger s2[a], s2[b]]
            0 <= a < b < s2.len() && s2[b] is Some implies s2[a] is Some by {
            assert(slots[b] is Some);
        }
    }
    lemma_registered_update(slots, i, Some(with_state(slots[i]->0, state)));
    lemma_prefix_shape(slots);
    lemma_prefix_shape(s2);
    assert forall|j: int| 0 <= j < registered(slots).len() implies #[trigger] registered(s2)[j]
        == if registered(slots)[j].name@ == name {
        with_state(registered(slots)[j], state)
    } else {
        registered(slots)[j]
    } by {
        assert(registered(slots)[j] == slots[j]->0);
        assert(registered(s2)[j] == s2[j]->0);
        if j != i && slots[j]->0.name@ == name {
            assert(slots[j] is Some);
            assert(slots[i]->0.name@ != slots[j]->0.name@);
        }
    }
}

/// Inserting an entry under a fresh name into a free slot keeps names unique
/// and keeps every entry linked, provided the new entry is linked.
proof fn lemma_insert_keeps_table(slots: Seq<Option<DriverInfo>>, i: int, d: DriverInfo)
    requires
        names_unique(slots),
        links_valid(slots),
        0 <= i < slots.len(),
        slots[i] is None,
        !name_present(slots, d.name@),
        entry_linked(slots, d),
    ensures
        names_unique(slots.update(i, Some(d))),
        links_valid(slots.update(i, Some(d))),
{
    let s2 = slots.update(i, Some(d));
    lemma_fresh_insert_unique(slots, i, d);
    assert forall|a: int| 0 <= a < s2.len() && #[trigger] s2[a] is Some implies entry_linked(
        s2,
        s2[a]->0,
    ) by {
        let e = s2[a]->0;
        if a != i {
            assert(slots[a] is Some);
            assert(entry_linked(slots, e));
        }
        if !e.kind.is_primary() {
            let dep = e.dependency->0;
            let k = choose|k: int|
                0 <= k < slots.len() && #[trigger] holds_name(slots[k], dep@)
                    && slots[k]->0.kind.is_primary();
            assert(k != i);
            assert(s2[k] == slots[k]);
            assert(holds_name(s2[k], dep@));
        }
    }
}

/// Changing the state of one entry keeps names unique and entries linked.
proof fn lemma_set_state_keeps_table(slots: Seq<Option<DriverInfo>>, i: int, state: DriverState)
    requires
        names_unique(slots),
        links_valid(slots),
        0 <= i < slots.len(),
        slots[i] is Some,
    ensures
        names_unique(slots.update(i, Some(with_state(slots[i]->0, state)))),
        links_valid(slots.update(i, Some(with_state(slots[i]->0, state)))),
{
    let s2 = slots.update(i, Some(with_state(slots[i]->0, state)));
    lemma_set_state_keeps_table_unique(slots, i, state);
    assert forall|a: int| 0 <= a < s2.len() && #[trigger] s2[a] is Some implies entry_linked(
        s2,
        s2[a]->0,
    ) by {
        assert(slots[a] is Some);
        assert(entry_linked(slots, slots[a]->0));
        let e = s2[a]->0;
        if !e.kind.is_primary() {
            let dep = e.dependency->0;
            let k = choose|k: int|
                0 <= k < slots.len() && #[trigger] holds_name(slots[k], dep@)
                    && slots[k]->0.kind.is_primary();
            assert(holds_name(s2[k], dep@));
        }
    }
}


// ---------------------------------------------------------------------------
// Laws of the registry.
// ---------------------------------------------------------------------------

/// An accepted registration keeps the table invariants and lists the new
/// entry after all earlier ones: `list` follows the order of registration.
pub proof fn law_register_appends(slots: Seq<Option<DriverInfo>>, d: DriverInfo)
    requires
        table_ok(slots),
        register_result(slots, d) is Ok,
    ensures
        table_ok(register_slots(slots, d)),
        registered(register_slots(slots, d)) == registered(slots).push(d),
{
    lemma_check_links(slots, d);
    lemma_insert_appends(slots, d);
    let k = first_free(slots);
    lemma_prefix_shape(slots);
    assert(slots[k] is None);
    lemma_insert_keeps_table(slots, k, d);
}

/// Setting a state keeps the table invariants and the listed names in their
/// order; only the entry with that name changes, and only in its state. An
/// unknown name changes nothing.
pub proof fn law_set_state_keeps_order(slots: Seq<Option<DriverInfo>>, name: Seq<char>, state: DriverState)
    requires
        table_ok(slots),
    ensures
        table_ok(set_state_slots(slots, name, state)),
        names(registered(set_state_slots(slots, name, state))) == names(registered(slots)),
        registered(set_state_slots(slots, name, state)).len() == registered(slots).len(),
        forall|j: int|
            0 <= j < registered(slots).len() ==> #[trigger] registered(set_state_slots(slots, name, state))[j]
                == if registered(slots)[j].name@ == name {
                with_state(registered(slots)[j], state)
            } else {
                registered(slots)[j]
            },
{
    if name_present(slots, name) {
        lemma_set_state_shape(slots, name, state);
        let s2 = set_state_slots(slots, name, state);
        assert(names(registered(s2)) =~= names(registered(slots))) by {
            assert forall|j: int| 0 <= j < registered(slots).len() implies #[trigger] names(
                registered(s2),
            )[j] == names(registered(slots))[j] by {
                assert(registered(s2)[j] == if registered(slots)[j].name@ == name {
                    with_state(registered(slots)[j], state)
                } else {
                    registered(slots)[j]
                });
            }
        }
    } else {
        assert forall|j: int| 0 <= j < registered(slots).len() implies registered(slots)[j].name@ != name by {
            lemma_prefix_shape(slots);
            assert(slots[j] is Some);
            assert(!holds_name(slots[j], name));
        }
    }
}

/// Two tables with occupied slots first, as many slots, and the same listed
/// entries are the same table; so every registry request gets the same
/// answer from both and leaves the same list. In particular, on such tables
/// `register` of an entry built as `register_primary` (bus kinds) or
/// `register_device` builds it agrees with those calls.
pub proof fn law_equal_lists_behave_alike(
    s1: Seq<Option<DriverInfo>>,
    s2: Seq<Option<DriverInfo>>,
    d: DriverInfo,
    name: &'static str,
    kind: DriverKind,
    dependency: &'static str,
)
    requires
        occupied_prefix(s1),
        occupied_prefix(s2),
        s1.len() == s2.len(),
        registered(s1) == registered(s2),
    ensures
        s1 == s2,
        register_result(s1, d) == register_result(s2, d),
        registered(register_slots(s1, d)) == registered(register_slots(s2, d)),
        kind.is_primary() ==> register_result(s1, primary_info(name, kind)) == insert_result(
            s2,
            primary_info(name, kind),
        ),
        registered(register_slots(s1, primary_info(name, kind))) == registered(
            register_slots(s2, primary_info(name, kind)),
        ),
        register_result(s1, device_info(name, dependency)) == register_result(
            s2,
            device_info(name, dependency),
        ),
        registered(register_slots(s1, device_info(name, dependency))) == registered(
            register_slots(s2, device_info(name, dependency)),
        ),
{
    lemma_prefix_shape(s1);
    lemma_prefix_shape(s2);
    assert forall|i: int| 0 <= i < s1.len() implies #[trigger] s1[i] == s2[i] by {
        if s1[i] is Some {
            assert(registered(s1)[i] == s1[i]->0);
            assert(registered(s2)[i] == s2[i]->0);
        }
    }
    assert(s1 =~= s2);
}

/// A registry request, as far as the table is concerned: registering an
/// entry (`register`, and `register_primary` / `register_device` with the
/// entry they build), or setting the state of a name.
pub enum RegistryOp {
    Register(DriverInfo),
    SetState(Seq<char>, DriverState),
}

/// The table after one request.
pub open spec fn apply_op(slots: Seq<Option<DriverInfo>>, op: RegistryOp) -> Seq<Option<DriverInfo>> {
    match op {
        RegistryOp::Register(d) => register_slots(slots, d),
        RegistryOp::SetState(name, state) => set_state_slots(slots, name, state),
    }
}

/// The table after a sequence of requests, in order.
pub open spec fn replay(slots: Seq<Option<DriverInfo>>, ops: Seq<RegistryOp>) -> Seq<Option<DriverInfo>>
    decreases ops.len(),
{
    if ops.len() == 0 {
        slots
    } else {
        replay(apply_op(slots, ops[0]), ops.drop_first())
    }
}

/// The names of the registrations accepted along a sequence of requests, in
/// the order they were accepted.
pub open spec fn accepted_names(slots: Seq<Option<DriverInfo>>, ops: Seq<RegistryOp>) -> Seq<Seq<char>>
    decreases ops.len(),
{
    if ops.len() == 0 {
        Seq::empty()
    } else {
        let head = match ops[0] {
            RegistryOp::Register(d) => if register_result(slots, d) is Ok {
                seq![d.name@]
            } else {
                Seq::empty()
            },
            RegistryOp::SetState(_, _) => Seq::empty(),
        };
        head + accepted_names(apply_op(slots, ops[0]), ops.drop_first())
    }
}

/// Along any sequence of requests, the table keeps its invariants, and the
/// listed names are those listed before followed by the names of the
/// accepted registrations in the order they were accepted. So from an empty
/// registry, `list` yields one entry per accepted registration, in order,
/// with distinct names, and `len` counts the accepted registrations and
/// never exceeds the capacity.
pub proof fn law_replay_lists_accepted(slots: Seq<Option<DriverInfo>>, ops: Seq<RegistryOp>)
    requires
        table_ok(slots),
    ensures
        table_ok(replay(slots, ops)),
        replay(slots, ops).len() == slots.len(),
        names(registered(replay(slots, ops))) == names(registered(slots)) + accepted_names(slots, ops),
        registered(replay(slots, ops)).len() == registered(slots).len() + accepted_names(slots, ops).len(),
        registered(replay(slots, ops)).len() <= slots.len(),
    decreases ops.len(),
{
    if ops.len() > 0 {
        let s1 = apply_op(slots, ops[0]);
        match ops[0] {
            RegistryOp::Register(d) => {
                if register_result(slots, d) is Ok {
                    law_register_appends(slots, d);
                    let w = choose|i: int| 0 <= i < slots.len() && #[trigger] slots[i] is None;
                    lemma_first_free_exists(slots, w);
                    assert(names(registered(s1)) =~= names(registered(slots)) + seq![d.name@]);
                } else {
                    assert(s1 == slots);
                }
            },
            RegistryOp::SetState(name, state) => {
                law_set_state_keeps_order(slots, name, state);
                if name_present(slots, name) {
                    assert(holds_name(slots[slot_of(slots, name)], name));
                }
            },
        }
        assert(s1.len() == slots.len());
        law_replay_lists_accepted(s1, ops.drop_first());
        assert(names(registered(replay(slots, ops))) =~= names(registered(slots)) + accepted_names(
            slots,
            ops,
        ));
    } else {
        assert(names(registered(slots)) + accepted_names(slots, ops) =~= names(registered(slots)));
    }
    assert(names(registered(replay(slots, ops))).len() == registered(replay(slots, ops)).len());
    assert(names(registered(slots)).len() == registered(slots).len());
    lemma_registered_len(replay(slots, ops));
}

/// Some listed entry carries `name`.
pub open spec fn list_has(list: Seq<DriverInfo>, name: Seq<char>) -> bool {
    exists|i: int| 0 <= i < list.len() && #[trigger] list[i].name@ == name
}

/// The listed entry that carries `name`, if any.
pub open spec fn list_lookup(list: Seq<DriverInfo>, name: Seq<char>) -> Option<DriverInfo> {
    if list_has(list, name) {
        Some(list[choose|i: int| 0 <= i < list.len() && #[trigger] list[i].name@ == name])
    } else {
        None
    }
}

/// `register`'s answer computed from the listed entries alone and the
/// capacity: the dependency checks, then a taken name, then a full list.
pub open spec fn list_register_result(list: Seq<DriverInfo>, capacity: nat, d: DriverInfo) -> Result<(), DriverError> {
    let check = match d.kind {
        DriverKind::Device => match d.dependency {
            None => Err(DriverError::MissingDependency),
            Some(dep) => match list_lookup(list, dep@) {
                None => Err(DriverError::MissingDependency),
                Some(p) => if p.kind.is_primary() {
                    Ok(())
                } else {
                    Err(DriverError::InvalidDependency)
                },
            },
        },
        _ => if d.dependency is Some {
            Err(DriverError::InvalidDependency)
        } else {
            Ok(())
        },
    };
    match check {
        Err(e) => Err(e),
        Ok(()) => if list_has(list, d.name@) {
            Err(DriverError::Duplicate)
        } else if list.len() >= capacity {
            Err(DriverError::Full)
        } else {
            Ok(())
        },
    }
}

/// The listed entries after one request, computed from the list alone: an
/// accepted registration is appended; a state change applies to the entry
/// with that name.
pub open spec fn list_apply(list: Seq<DriverInfo>, capacity: nat, op: RegistryOp) -> Seq<DriverInfo> {
    match op {
        RegistryOp::Register(d) => if list_register_result(list, capacity, d) is Ok {
            list.push(d)
        } else {
            list
        },
        RegistryOp::SetState(name, state) => list.map_values(
            |e: DriverInfo| if e.name@ == name {
                with_state(e, state)
            } else {
                e
            },
        ),
    }
}

/// The listed entries after a sequence of requests, computed from the list
/// alone.
pub open spec fn list_replay(list: Seq<DriverInfo>, capacity: nat, ops: Seq<RegistryOp>) -> Seq<DriverInfo>
    decreases ops.len(),
{
    if ops.len() == 0 {
        list
    } else {
        list_replay(list_apply(list, capacity, ops[0]), capacity, ops.drop_first())
    }
}

/// In a table that satisfies its invariants, looking up a name in the slots
/// and in the list agree.
proof fn lemma_lookup_in_list(slots: Seq<Option<DriverInfo>>, name: Seq<char>)
    requires
        table_ok(slots),
    ensures
        name_present(slots, name) == list_has(registered(slots), name),
        lookup(slots, name) == list_lookup(registered(slots), name),
{
    lemma_prefix_shape(slots);
    let list = registered(slots);
    if name_present(slots, name) {
        let i = slot_of(slots, name);
        assert(holds_name(slots[i], name));
        assert(list[i] == slots[i]->0);
        assert(list_has(list, name));
        let j = choose|j: int| 0 <= j < list.len() && #[trigger] list[j].name@ == name;
        assert(list[j] == slots[j]->0);
        assert(holds_name(slots[j], name));
        lemma_slot_of_unique(slots, name, j);
    } else {
        if list_has(list, name) {
            let j = choose|j: int| 0 <= j < list.len() && #[trigger] list[j].name@ == name;
            assert(list[j] == slots[j]->0);
            assert(holds_name(slots[j], name));
        }
    }
}

/// `register`'s answer depends only on the listed entries and the capacity:
/// it is `list_register_result`. Likewise a state change finds its name
/// exactly when the list holds it.
pub proof fn law_register_result_from_list(slots: Seq<Option<DriverInfo>>, d: DriverInfo, name: Seq<char>)
    requires
        table_ok(slots),
    ensures
        register_result(slots, d) == list_register_result(registered(slots), slots.len(), d),
        name_present(slots, name) == list_has(registered(slots), name),
{
    lemma_lookup_in_list(slots, d.name@);
    lemma_lookup_in_list(slots, name);
    if let Some(dep) = d.dependency {
        lemma_lookup_in_list(slots, dep@);
    }
    law_free_slot_iff_room(slots);
}

/// Along any sequence of requests from a table that satisfies its
/// invariants, the listed entries are those that `list_replay` computes
/// from the list alone: each accepted registration appends its whole entry
/// (name, kind, state, dependency), in the order accepted, and each state
/// change sets the state of the entry with that name. So from an empty
/// registry, `list` yields exactly the accepted registrations, in order,
/// each with the state of its last state change (else its registered
/// state), under distinct names.
pub proof fn law_replay_is_list_replay(slots: Seq<Option<DriverInfo>>, ops: Seq<RegistryOp>)
    requires
        table_ok(slots),
    ensures
        table_ok(replay(slots, ops)),
        replay(slots, ops).len() == slots.len(),
        registered(replay(slots, ops)) == list_replay(registered(slots), slots.len(), ops),
    decreases ops.len(),
{
    if ops.len() > 0 {
        let s1 = apply_op(slots, ops[0]);
        let list = registered(slots);
        match ops[0] {
            RegistryOp::Register(d) => {
                law_register_result_from_list(slots, d, d.name@);
                if register_result(slots, d) is Ok {
                    law_register_appends(slots, d);
                    let w = choose|i: int| 0 <= i < slots.len() && #[trigger] slots[i] is None;
                    lemma_first_free_exists(slots, w);
                } else {
                    assert(s1 == slots);
                }
            },
            RegistryOp::SetState(name, state) => {
                law_set_state_keeps_order(slots, name, state);
                if name_present(slots, name) {
                    assert(holds_name(slots[slot_of(slots, name)], name));
                }
                assert(registered(s1) =~= list_apply(list, slots.len(), ops[0]));
            },
        }
        assert(s1.len() == slots.len());
        assert(registered(s1) == list_apply(list, slots.len(), ops[0]));
        law_replay_is_list_replay(s1, ops.drop_first());
    }
}

/// A refused registration leaves the table as it was.
pub proof fn law_refused_register_changes_nothing(slots: Seq<Option<DriverInfo>>, d: DriverInfo)
    requires
        register_result(slots, d) is Err,
    ensures
        register_slots(slots, d) == slots,
{
}

/// After a registration is accepted, looking up its name gives back the
/// entry, one more entry is listed, and every name registered before still
/// gives back what it gave.
pub proof fn law_register_then_lookup(slots: Seq<Option<DriverInfo>>, d: DriverInfo, name: Seq<char>)
    requires
        names_unique(slots),
        register_result(slots, d) is Ok,
    ensures
        names_unique(register_slots(slots, d)),
        lookup(register_slots(slots, d), d.name@) == Some(d),
        registered(register_slots(slots, d)).len() == registered(slots).len() + 1,
        name != d.name@ ==> lookup(register_slots(slots, d), name) == lookup(slots, name),
{
    let i = first_free(slots);
    assert(has_free_slot(slots));
    let w = choose|w: int| 0 <= w < slots.len() && #[trigger] slots[w] is None;
    lemma_first_free_exists(slots, w);
    let s2 = slots.update(i, Some(d));
    assert(s2 == register_slots(slots, d));
    lemma_registered_update(slots, i, Some(d));
    lemma_fresh_insert_unique(slots, i, d);
    lemma_slot_of_unique(s2, d.name@, i);
    if name != d.name@ {
        if name_present(slots, name) {
            let k = slot_of(slots, name);
            assert(holds_name(slots[k], name));
            assert(k != i);
            assert(holds_name(s2[k], name));
            lemma_slot_of_unique(s2, name, k);
        } else {
            if name_present(s2, name) {
                let k = slot_of(s2, name);
                assert(holds_name(s2[k], name));
                assert(k != i);
                assert(holds_name(slots[k], name));
            }
        }
    }
}

/// Setting the state of a registered driver changes that entry's state and
/// nothing else: its name, kind and dependency stay, other names give back
/// what they gave, and the number of entries stays.
pub proof fn law_set_state_then_lookup(
    slots: Seq<Option<DriverInfo>>,
    name: Seq<char>,
    state: DriverState,
    other: Seq<char>,
)
    requires
        names_unique(slots),
        name_present(slots, name),
    ensures
        names_unique(set_state_slots(slots, name, state)),
        lookup(set_state_slots(slots, name, state), name) == Some(
            with_state(lookup(slots, name)->0, state),
        ),
        registered(set_state_slots(slots, name, state)).len() == registered(slots).len(),
        other != name ==> lookup(set_state_slots(slots, name, state), other) == lookup(slots, other),
{
    let i = slot_of(slots, name);
    assert(holds_name(slots[i], name));
    let s2 = slots.update(i, Some(with_state(slots[i]->0, state)));
    assert(s2 == set_state_slots(slots, name, state));
    lemma_registered_update(slots, i, Some(with_state(slots[i]->0, state)));
    lemma_set_state_keeps_table_unique(slots, i, state);
    assert(holds_name(s2[i], name));
    lemma_slot_of_unique(s2, name, i);
    if other != name {
        if name_present(slots, other) {
            let k = slot_of(slots, other);
            assert(holds_name(slots[k], other));
            assert(k != i);
            assert(holds_name(s2[k], other));
            lemma_slot_of_unique(s2, other, k);
        } else {
            if name_present(s2, other) {
                let k = slot_of(s2, other);
                assert(holds_name(s2[k], other));
                assert(holds_name(slots[k], other));
            }
        }
    }
}

/// A state change takes effect whatever the entry's state was: afterwards
/// the entry under that name carries exactly the new state, with its name,
/// kind and dependency unchanged; and of two state changes of the same name
/// the later one wins.
pub proof fn law_set_state_sets_state(
    slots: Seq<Option<DriverInfo>>,
    name: Seq<char>,
    first: DriverState,
    state: DriverState,
)
    requires
        names_unique(slots),
        name_present(slots, name),
    ensures
        lookup(set_state_slots(slots, name, state), name) == Some(
            DriverInfo {
                name: lookup(slots, name)->0.name,
                kind: lookup(slots, name)->0.kind,
                state: state,
                dependency: lookup(slots, name)->0.dependency,
            },
        ),
        set_state_slots(set_state_slots(slots, name, first), name, state) == set_state_slots(
            slots,
            name,
            state,
        ),
{
    law_set_state_then_lookup(slots, name, state, name);
    law_set_state_then_lookup(slots, name, first, name);
    let i = slot_of(slots, name);
    assert(holds_name(slots[i], name));
    let s1 = set_state_slots(slots, name, first);
    assert(s1 == slots.update(i, Some(with_state(slots[i]->0, first))));
    assert(holds_name(s1[i], name));
    lemma_slot_of_unique(s1, name, i);
    assert(set_state_slots(s1, name, state) =~= set_state_slots(slots, name, state));
}

/// A device entry is accepted exactly when its dependency names a
/// registered bus driver (I2C, SPI or UART), its own name is not yet taken
/// and fewer entries are registered than there are slots; it is then listed
/// last and found under its name as given, `Uninitialized`. A dependency
/// that is not registered is answered `MissingDependency`, one that is
/// itself a device `InvalidDependency`.
pub proof fn law_device_accepted_iff(
    slots: Seq<Option<DriverInfo>>,
    name: &'static str,
    dependency: &'static str,
)
    requires
        table_ok(slots),
    ensures
        register_result(slots, device_info(name, dependency)) is Ok <==> (
        lookup(slots, dependency@) is Some && (lookup(slots, dependency@)->0.kind == DriverKind::I2c
            || lookup(slots, dependency@)->0.kind == DriverKind::Spi || lookup(
            slots,
            dependency@,
        )->0.kind == DriverKind::Uart) && !name_present(slots, name@) && registered(slots).len()
            < slots.len()),
        lookup(slots, dependency@) is None ==> register_result(slots, device_info(name, dependency))
            == Err::<(), DriverError>(DriverError::MissingDependency),
        lookup(slots, dependency@) matches Some(p) && p.kind == DriverKind::Device ==> register_result(
            slots,
            device_info(name, dependency),
        ) == Err::<(), DriverError>(DriverError::InvalidDependency),
        register_result(slots, device_info(name, dependency)) is Ok ==> {
            &&& lookup(register_slots(slots, device_info(name, dependency)), name@) == Some(
                DriverInfo {
                    name: name,
                    kind: DriverKind::Device,
                    state: DriverState::Uninitialized,
                    dependency: Some(dependency),
                },
            )
            &&& registered(register_slots(slots, device_info(name, dependency))).last() == DriverInfo {
                name: name,
                kind: DriverKind::Device,
                state: DriverState::Uninitialized,
                dependency: Some(dependency),
            }
        },
{
    law_free_slot_iff_room(slots);
    let d = device_info(name, dependency);
    if register_result(slots, d) is Ok {
        law_register_then_lookup(slots, d, name@);
        law_register_appends(slots, d);
    }
}

/// Any entry is accepted exactly when: a device names a registered bus
/// driver (any kind but a device) as its dependency, a bus driver names
/// none; its name is not yet taken; and fewer entries are registered than
/// there are slots. An accepted entry is then found under its name as given
/// and listed last.
pub proof fn law_register_accepted_iff(slots: Seq<Option<DriverInfo>>, d: DriverInfo)
    requires
        table_ok(slots),
    ensures
        register_result(slots, d) is Ok <==> ((if d.kind == DriverKind::Device {
            d.dependency matches Some(dep) && lookup(slots, dep@) is Some && lookup(slots, dep@)->0.kind
                != DriverKind::Device
        } else {
            d.dependency is None
        }) && !name_present(slots, d.name@) && registered(slots).len() < slots.len()),
        register_result(slots, d) is Ok ==> lookup(register_slots(slots, d), d.name@) == Some(d)
            && registered(register_slots(slots, d)).last() == d,
{
    law_free_slot_iff_room(slots);
    if register_result(slots, d) is Ok {
        law_register_then_lookup(slots, d, d.name@);
        law_register_appends(slots, d);
    }
}


/// A table has a free slot exactly when fewer entries are registered than
/// it has slots; so registration is refused as full exactly when every slot
/// is taken.
pub proof fn law_free_slot_iff_room(slots: Seq<Option<DriverInfo>>)
    ensures
        has_free_slot(slots) <==> registered(slots).len() < slots.len(),
    decreases slots.len(),
{
    lemma_registered_len(slots);
    if slots.len() > 0 && !has_free_slot(slots) {
        let rest = slots.drop_last();
        assert(!has_free_slot(rest)) by {
            if has_free_slot(rest) {
                let i = choose|i: int| 0 <= i < rest.len() && #[trigger] rest[i] is None;
                assert(slots[i] is None);
            }
        }
        law_free_slot_iff_room(rest);
        assert(slots[slots.len() - 1] is Some);
    }
}

/// A table whose every slot is taken refuses every new name as full, once
/// the entry passes the dependency checks.
pub proof fn law_full_table_refuses(slots: Seq<Option<DriverInfo>>, d: DriverInfo)
    requires
        registered(slots).len() == slots.len(),
        register_check(slots, d) is Ok,
        !name_present(slots, d.name@),
    ensures
        register_result(slots, d) == Err::<(), DriverError>(DriverError::Full),
        register_slots(slots, d) == slots,
{
    lemma_registered_len(slots);
}

/// A registered name cannot be registered again, whatever else the entry
/// holds.
pub proof fn law_duplicate_refused(slots: Seq<Option<DriverInfo>>, d: DriverInfo)
    requires
        name_present(slots, d.name@),
        register_check(slots, d) is Ok,
    ensures
        register_result(slots, d) == Err::<(), DriverError>(DriverError::Duplicate),
        register_slots(slots, d) == slots,
{
}

/// For a bus driver kind, `register_primary` decides exactly as `register`
/// does on the entry it builds.
pub proof fn law_register_primary_is_register(
    slots: Seq<Option<DriverInfo>>,
    name: &'static str,
    kind: DriverKind,
)
    requires
        kind.is_primary(),
    ensures
        register_result(slots, primary_info(name, kind)) == insert_result(
            slots,
            primary_info(name, kind),
        ),
        register_slots(slots, primary_info(name, kind)) == insert_slots(
            slots,
            primary_info(name, kind),
        ),
{
}

// ---------------------------------------------------------------------------
// The registry.
// ---------------------------------------------------------------------------

/// A registry of at most `N` drivers.
pub struct DriverManager<const N: usize> {
    drivers: [Option<DriverInfo>; N],
    len: usize,
}

impl<const N: usize> View for DriverManager<N> {
    type V = Seq<Option<DriverInfo>>;

    /// The slots, in order.
    closed spec fn view(&self) -> Seq<Option<DriverInfo>> {
        self.drivers@
    }
}

impl<const N: usize> DriverManager<N> {
    /// The count equals the number of registered entries, names are unique,
    /// every entry is linked, and the occupied slots come first.
    pub closed spec fn wf(&self) -> bool {
        &&& self.len == registered(self.drivers@).len()
        &&& table_ok(self.drivers@)
    }

    /// A well-formed registry has `N` slots and satisfies the table
    /// invariants.
    pub proof fn law_invariants(&self)
        requires
            self.wf(),
        ensures
            self@.len() == N,
            table_ok(self@),
            registered(self@).len() <= N,
    {
        lemma_registered_len(self@);
    }

    /// An empty registry.
    pub fn new() -> (m: Self)
        ensures
            m.wf(),
            m@.len() == N,
            forall|i: int| 0 <= i < N ==> #[trigger] m@[i] is None,
            registered(m@) == Seq::<DriverInfo>::empty(),
    {
        let m = DriverManager { drivers: [None;N], len: 0 };
        proof {
            lemma_registered_empty(m@);
        }
        m
    }

    /// The slot holding `name`, if any.
    fn find(&self, name: &str) -> (r: Option<usize>)
        requires
            self.wf(),
        ensures
            r matches Some(i) ==> i < N && holds_name(self@[i as int], name@) && slot_of(self@, name@) == i
                && lookup(self@, name@) == self@[i as int],
            r is None <==> !name_present(self@, name@),
            r is None ==> lookup(self@, name@) is None,
    {
        let mut i: usize = 0;
        while i < N
            invariant
                i <= N,
                self.wf(),
                self.drivers@.len() == N,
                forall|j: int| 0 <= j < i ==> !#[trigger] holds_name(self.drivers@[j], name@),
            decreases N - i,
        {
            match self.drivers[i] {
                Some(d) => {
                    if str_eq(d.name, name) {
                        proof {
                            lemma_slot_of_unique(self@, name@, i as int);
                        }
                        return Some(i);
                    }
                },
                None => {},
            }
            i = i + 1;
        }
        None
    }

    /// The lowest free slot, if any.
    fn free_slot(&self) -> (r: Option<usize>)
        ensures
            r matches Some(i) ==> is_first_free(self@, i as int) && first_free(self@) == i,
            r is None <==> !has_free_slot(self@),
    {
        let mut i: usize = 0;
        while i < N
            invariant
                i <= N,
                self.drivers@.len() == N,
                forall|j: int| 0 <= j < i ==> #[trigger] self.drivers@[j] is Some,
            decreases N - i,
        {
            if self.drivers[i].is_none() {
                proof {
                    lemma_first_free_unique(self@, i as int);
                }
                return Some(i);
            }
            i = i + 1;
        }
        None
    }

    /// Registers a bus driver under `name`; it starts `Ready`, with no
    /// dependency.
    pub fn register_primary(&mut self, name: &'static str, kind: DriverKind) -> (r: Result<
        (),
        DriverError,
    >)
        requires
            old(self).wf(),
        ensures
            final(self).wf(),
            !kind.is_primary() ==> r == Err::<(), DriverError>(DriverError::InvalidDependency)
                && final(self)@ == old(self)@,
            kind.is_primary() ==> r == insert_result(old(self)@, primary_info(name, kind))
                && final(self)@ == insert_slots(old(self)@, primary_info(name, kind)),
            kind.is_primary() ==> r == register_result(old(self)@, primary_info(name, kind)),
            r is Ok <==> register_result(old(self)@, primary_info(name, kind)) is Ok,
            final(self)@ == register_slots(old(self)@, primary_info(name, kind)),
    {
        if !kind.is_primary() {
            return Err(DriverError::InvalidDependency);
        }
        self.insert(DriverInfo { name, kind, state: DriverState::Ready, dependency: None })
    }

    /// Registers a device driver under `name` that depends on the primary
    /// driver `dependency`; it starts `Uninitialized`.
    pub fn register_device(&mut self, name: &'static str, dependency: &'static str) -> (r: Result<
        (),
        DriverError,
    >)
        requires
            old(self).wf(),
        ensures
            final(self).wf(),
            r == register_result(old(self)@, device_info(name, dependency)),
            final(self)@ == register_slots(old(self)@, device_info(name, dependency)),
    {
        let dependency_info = match self.get(dependency) {
            Some(d) => d,
            None => return Err(DriverError::MissingDependency),
        };
        if !dependency_info.kind.is_primary() {
            return Err(DriverError::InvalidDependency);
        }
        self.insert(
            DriverInfo {
                name,
                kind: DriverKind::Device,
                state: DriverState::Uninitialized,
                dependency: Some(dependency),
            },
        )
    }

    /// Registers a complete entry: a device must name a registered primary
    /// driver, a primary driver must name none.
    pub fn register(&mut self, driver: DriverInfo) -> (r: Result<(), DriverError>)
        requires
            old(self).wf(),
        ensures
            final(self).wf(),
            r == register_result(old(self)@, driver),
            final(self)@ == register_slots(old(self)@, driver),
    {
        match driver.kind {
            DriverKind::Device => {
                let dependency = match driver.dependency {
                    Some(dep) => dep,
                    None => return Err(DriverError::MissingDependency),
                };
                let dependency_info = match self.get(dependency) {
                    Some(d) => d,
                    None => return Err(DriverError::MissingDependency),
                };
                if !dependency_info.kind.is_primary() {
                    return Err(DriverError::InvalidDependency);
                }
            },
            DriverKind::I2c | DriverKind::Spi | DriverKind::Uart => {
                if driver.dependency.is_some() {
                    return Err(DriverError::InvalidDependency);
                }
            },
        }
        self.insert(driver)
    }

    /// Sets the state of the entry named `name`.
    pub fn set_state(&mut self, name: &str, state: DriverState) -> (r: Result<(), DriverError>)
        requires
            old(self).wf(),
        ensures
            final(self).wf(),
            name_present(old(self)@, name@) ==> r == Ok::<(), DriverError>(()),
            !name_present(old(self)@, name@) ==> r == Err::<(), DriverError>(DriverError::NotFound),
            final(self)@ == set_state_slots(old(self)@, name@, state),
    {
        let i = match self.find(name) {
            Some(i) => i,
            None => return Err(DriverError::NotFound),
        };
        let d = match self.drivers[i] {
            Some(d) => d,
            None => return Err(DriverError::NotFound),
        };
        proof {
            lemma_set_state_shape(self@, name@, state);
            lemma_registered_update(self@, i as int, Some(with_state(d, state)));
        }
        self.drivers[i] = Some(
            DriverInfo { name: d.name, kind: d.kind, state, dependency: d.dependency },
        );
        Ok(())
    }

    /// The entry registered under `name`, if any.
    pub fn get(&self, name: &str) -> (r: Option<&DriverInfo>)
        requires
            self.wf(),
        ensures
            match r {
                Some(d) => lookup(self@, name@) == Some(*d),
                None => lookup(self@, name@) is None,
            },
    {
        match self.find(name) {
            Some(i) => match &self.drivers[i] {
                Some(d) => Some(d),
                None => None,
            },
            None => None,
        }
    }

    /// The registered entries, in slot order.
    pub fn list(&self) -> (r: Vec<DriverInfo>)
        ensures
            r@ == registered(self@),
    {
        let mut out: Vec<DriverInfo> = Vec::new();
        let mut i: usize = 0;
        while i < N
            invariant
                i <= N,
                self.drivers@.len() == N,
                out@ == registered(self.drivers@.take(i as int)),
            decreases N - i,
        {
            proof {
                assert(self.drivers@.take(i + 1).drop_last() =~= self.drivers@.take(i as int));
            }
            match self.drivers[i] {
                Some(d) => out.push(d),
                None => {},
            }
            i = i + 1;
        }
        proof {
            assert(self.drivers@.take(N as int) =~= self.drivers@);
        }
        out
    }

    /// The number of registered entries.
    pub fn len(&self) -> (r: usize)
        requires
            self.wf(),
        ensures
            r == registered(self@).len(),
    {
        self.len
    }

    /// Whether nothing is registered.
    pub fn is_empty(&self) -> (r: bool)
        requires
            self.wf(),
        ensures
            r == (registered(self@).len() == 0),
    {
        self.len == 0
    }

    /// Stores `driver` in the lowest free slot, unless its name is taken or
    /// the table is full.
    fn insert(&mut self, driver: DriverInfo) -> (r: Result<(), DriverError>)
        requires
            old(self).wf(),
        ensures
            r == insert_result(old(self)@, driver),
            final(self)@ == insert_slots(old(self)@, driver),
            final(self).len == registered(final(self)@).len(),
            final(self).len <= N,
            names_unique(final(self)@),
            occupied_prefix(final(self)@),
            entry_linked(old(self)@, driver) ==> final(self).wf(),
    {
        proof {
            lemma_registered_len(self@);
        }
        if self.get(driver.name).is_some() {
            return Err(DriverError::Duplicate);
        }
        let slot = match self.free_slot() {
            Some(i) => i,
            None => return Err(DriverError::Full),
        };
        proof {
            lemma_registered_len(self@);
            lemma_registered_update(self@, slot as int, Some(driver));
            lemma_fresh_insert_unique(self@, slot as int, driver);
            lemma_insert_appends(self@, driver);
            lemma_registered_len(insert_slots(self@, driver));
            if entry_linked(self@, driver) {
                lemma_insert_keeps_table(self@, slot as int, driver);
            }
        }
        self.drivers[slot] = Some(driver);
        self.len = self.len + 1;
        Ok(())
    }
}

impl<const N: usize> Default for DriverManager<N> {
    fn default() -> (m: Self)
        ensures
            m.wf(),
            forall|i: int| 0 <= i < N ==> #[trigger] m@[i] is None,
    {
        Self::new()
    }
}

} // verus!
