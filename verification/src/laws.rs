//! Laws of the registry, proved over [`RegistryModel`].
//!
//! Each executable operation of [`crate::registry::Registry`] promises in
//! its `ensures` that the registry's model steps by the matching model
//! transition (`store_t`, `shared_acquired`, ...). The proof functions here
//! state what chains of those transitions observe, so each law holds of
//! every call sequence of the executable operations.

use vstd::prelude::*;
use crate::cell::TypeKey;
use crate::registry::RegistryModel;

verus! {

/// Storing a value and then acquiring a read guard observes that value:
/// after `store(key, value)`, `get(key)` hands out a guard on the current
/// cell, and reading through it yields `value`.
pub proof fn law_store_then_get<V>(m: RegistryModel<V>, key: TypeKey, value: V)
    requires
        m.inv(),
        m.cells.len() < usize::MAX,
    ensures
        ({
            let s = m.store_t(key, value);
            let a = s.shared_acquired(key);
            &&& s.has(key)
            &&& s.can_read(key)
            &&& s.current_value(key) == value
            &&& a.value_at(s.slot_of(key)) == value
        }),
{
}

/// Overwrite: a second `store` under the same key wins; a later lookup
/// observes the second value, not the first.
pub proof fn law_overwrite<V>(m: RegistryModel<V>, key: TypeKey, v1: V, v2: V)
    requires
        m.inv(),
        m.cells.len() + 1 < usize::MAX,
    ensures
        ({
            let s = m.store_t(key, v1).store_t(key, v2);
            &&& s.has(key)
            &&& s.current_value(key) == v2
        }),
{
}

/// Old-generation validity: a guard acquired after `store(key, v1)` keeps
/// reading `v1` across a later `store(key, v2)`, while a fresh guard
/// acquired after the second store reads `v2` from a distinct cell.
pub proof fn law_old_generation<V>(m: RegistryModel<V>, key: TypeKey, v1: V, v2: V)
    requires
        m.inv(),
        m.cells.len() + 1 < usize::MAX,
    ensures
        ({
            let s1 = m.store_t(key, v1);
            let i = s1.slot_of(key);
            let a = s1.shared_acquired(key);
            let s2 = a.store_t(key, v2);
            &&& s2.value_at(i) == v1
            &&& s2.slot_of(key) != i
            &&& s2.can_read(key)
            &&& s2.current_value(key) == v2
            &&& s2.shared_acquired(key).value_at(s2.slot_of(key)) == v2
        }),
{
}

/// Shared concurrency: while one read guard is live, another shared
/// acquisition for the same key is still admitted, and both guards observe
/// the same content.
pub proof fn law_shared_concurrency<V>(m: RegistryModel<V>, key: TypeKey)
    requires
        m.inv(),
        m.has(key),
        m.can_read(key),
        m.borrow_of(key).shared_count() + 1 < usize::MAX,
    ensures
        ({
            let i = m.slot_of(key);
            let a1 = m.shared_acquired(key);
            let a2 = a1.shared_acquired(key);
            &&& a1.can_read(key)
            &&& a1.value_at(i) == m.current_value(key)
            &&& a2.value_at(i) == m.current_value(key)
        }),
{
}

/// Exclusivity: while an exclusive guard is live, neither a shared nor an
/// exclusive acquisition for the same key is admitted; releasing the guard
/// admits both again.
pub proof fn law_exclusivity<V>(m: RegistryModel<V>, key: TypeKey)
    requires
        m.inv(),
        m.has(key),
        m.can_write(key),
    ensures
        ({
            let e = m.exclusive_acquired(key);
            let r = e.exclusive_released(e.slot_of(key));
            &&& e.borrow_of(key) is Exclusive
            &&& !e.can_read(key)
            &&& !e.can_write(key)
            &&& r.can_read(key)
            &&& r.can_write(key)
        }),
{
}

/// Mutation visibility: a value written through an exclusive guard is,
/// after the guard's release, what every later acquisition for the key
/// observes.
pub proof fn law_mutation_visibility<V>(m: RegistryModel<V>, key: TypeKey, value: V)
    requires
        m.inv(),
        m.has(key),
        m.can_write(key),
    ensures
        ({
            let i = m.slot_of(key);
            let r = m.exclusive_acquired(key).written(i, value).exclusive_released(i);
            &&& r.has(key)
            &&& r.slot_of(key) == i
            &&& r.current_value(key) == value
            &&& r.can_read(key)
            &&& r.shared_acquired(key).value_at(i) == value
        }),
{
}

} // verus!
