use storage::Registry;
use storage::TypeKey;

const FLAG: TypeKey = TypeKey(1);
const COUNTER: TypeKey = TypeKey(2);
const UNREGISTERED: TypeKey = TypeKey(99);

#[derive(Clone, Copy, PartialEq, Eq, Debug)]
struct Flag(bool);

#[derive(Clone, Copy, PartialEq, Eq, Debug)]
struct Counter {
    n: i32,
}

#[test]
fn store_then_get_observes_value() {
    let mut r: Registry<i32> = Registry::new();
    r.store(FLAG, 23);
    let g = r.get(FLAG);
    assert_eq!(*r.read(&g), 23);
    r.release(g);
}

#[test]
fn overwrite_takes_latest() {
    let mut r: Registry<i32> = Registry::new();
    r.store(FLAG, 1);
    r.store(FLAG, 2);
    let g = r.get(FLAG);
    assert_eq!(*r.read(&g), 2);
    r.release(g);
}

#[test]
fn old_generation_guard_keeps_first_value() {
    let mut r: Registry<i32> = Registry::new();
    r.store(FLAG, 10);
    let g_old = r.get(FLAG);
    r.store(FLAG, 20);
    assert_eq!(*r.read(&g_old), 10);
    let g_new = r.get(FLAG);
    assert_eq!(*r.read(&g_new), 20);
    r.release(g_new);
    r.release(g_old);
}

#[test]
fn absent_key_try_get_is_none() {
    let mut r: Registry<i32> = Registry::new();
    assert!(r.try_get(UNREGISTERED).is_none());
    assert!(r.try_get_mut(UNREGISTERED).is_none());
}

#[test]
fn present_key_try_get_is_some() {
    let mut r: Registry<i32> = Registry::new();
    r.store(FLAG, 5);
    let g = r.try_get(FLAG);
    assert!(g.is_some());
    let g = g.unwrap();
    assert_eq!(*r.read(&g), 5);
    r.release(g);
    let gm = r.try_get_mut(FLAG);
    assert!(gm.is_some());
    r.release_mut(gm.unwrap());
}

#[test]
fn shared_guards_coexist_and_agree() {
    let mut r: Registry<i32> = Registry::new();
    r.store(FLAG, 7);
    let g1 = r.get(FLAG);
    let g2 = r.get(FLAG);
    let g3 = r.get(FLAG);
    assert_eq!(*r.read(&g1), 7);
    assert_eq!(*r.read(&g2), 7);
    assert_eq!(*r.read(&g3), 7);
    r.release(g2);
    assert_eq!(*r.read(&g1), 7);
    r.release(g1);
    r.release(g3);
}

#[test]
fn exclusive_release_permits_reacquisition() {
    let mut r: Registry<i32> = Registry::new();
    r.store(FLAG, 3);
    let gm = r.get_mut(FLAG);
    r.release_mut(gm);
    let gm2 = r.get_mut(FLAG);
    r.release_mut(gm2);
    let g = r.get(FLAG);
    assert_eq!(*r.read(&g), 3);
    r.release(g);
}

#[test]
fn mutation_is_visible_after_release() {
    let mut r: Registry<i32> = Registry::new();
    r.store(FLAG, 40);
    let gm = r.get_mut(FLAG);
    r.write(&gm, 41);
    assert_eq!(*r.read_mut(&gm), 41);
    r.release_mut(gm);
    let g = r.get(FLAG);
    assert_eq!(*r.read(&g), 41);
    r.release(g);
}

#[test]
fn counter_increment_scenario() {
    let mut r: Registry<Counter> = Registry::new();
    r.store(COUNTER, Counter { n: 0 });
    let gm = r.get_mut(COUNTER);
    let n = r.read_mut(&gm).n;
    r.write(&gm, Counter { n: n + 1 });
    r.release_mut(gm);
    let g = r.get(COUNTER);
    assert_eq!(r.read(&g).n, 1);
    r.release(g);
}

#[test]
fn flag_overwrite_scenario() {
    let mut r: Registry<Flag> = Registry::new();
    r.store(FLAG, Flag(true));
    r.store(FLAG, Flag(false));
    let g = r.get(FLAG);
    assert_eq!(r.read(&g).0, false);
    r.release(g);
}

#[test]
fn unregistered_key_before_any_store() {
    let mut r: Registry<Flag> = Registry::new();
    assert_eq!(r.try_get(UNREGISTERED).is_none(), true);
}

#[test]
fn distinct_keys_hold_distinct_values() {
    let mut r: Registry<i32> = Registry::new();
    r.store(FLAG, 100);
    r.store(COUNTER, 200);
    let g1 = r.get(FLAG);
    let g2 = r.get(COUNTER);
    assert_eq!(*r.read(&g1), 100);
    assert_eq!(*r.read(&g2), 200);
    r.release(g1);
    r.release(g2);
    r.store(FLAG, 101);
    let g3 = r.get(FLAG);
    let g4 = r.get(COUNTER);
    assert_eq!(*r.read(&g3), 101);
    assert_eq!(*r.read(&g4), 200);
    r.release(g3);
    r.release(g4);
}

#[test]
fn overwritten_generation_can_be_released_late() {
    let mut r: Registry<i32> = Registry::new();
    r.store(FLAG, 1);
    let g_old = r.get(FLAG);
    r.store(FLAG, 2);
    r.store(FLAG, 3);
    assert_eq!(*r.read(&g_old), 1);
    r.release(g_old);
    let g = r.get(FLAG);
    assert_eq!(*r.read(&g), 3);
    r.release(g);
}

#[test]
fn mutation_through_guard_stays_in_its_generation() {
    let mut r: Registry<i32> = Registry::new();
    r.store(FLAG, 1);
    let gm = r.get_mut(FLAG);
    r.store(FLAG, 2);
    r.write(&gm, 5);
    assert_eq!(*r.read_mut(&gm), 5);
    r.release_mut(gm);
    let g = r.get(FLAG);
    assert_eq!(*r.read(&g), 2);
    r.release(g);
}
