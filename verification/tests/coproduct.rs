use coproduct::{inject, At, Coproduct, CopyableCoproduct, Count, Embed, Here, Split, There,
    VariantSet};
use std::rc::Rc;

const KEY_U8: u64 = 1;
const KEY_U16: u64 = 2;
const KEY_U32: u64 = 3;
const KEY_U64: u64 = 4;
const KEY_STRING: u64 = 5;
const KEY_BOX_U16: u64 = 6;

fn pair_set() -> VariantSet {
    VariantSet::empty().append(KEY_U8).append(KEY_U16)
}

fn wide_set() -> VariantSet {
    pair_set().append(KEY_U32).append(KEY_U64)
}

#[test]
fn coproduct_inject_uninject() {
    let set = VariantSet::empty().append(KEY_U8);
    let c: Coproduct<u8> = Coproduct::inject(set, KEY_U8, 47);
    assert_eq!(c.uninject(KEY_U8), Ok(47));
}

#[test]
fn leak_check() {
    let set = VariantSet::empty().append(KEY_STRING);
    let _: Coproduct<String> = Coproduct::inject(set, KEY_STRING, "hello".into());
}

#[test]
fn coproduct_embed_split() {
    let c: Coproduct<u64> = Coproduct::inject(pair_set(), KEY_U16, 42);
    let widened: Coproduct<u64> = c.clone().embed(&wide_set());
    assert_eq!(Ok(c), widened.split(&pair_set()));
}

#[test]
fn double_free() {
    let set = VariantSet::empty().append(KEY_U8).append(KEY_BOX_U16);
    let c: Coproduct<Box<u16>> = Coproduct::inject(set, KEY_BOX_U16, Box::new(42u16));
    let _d = match c.uninject(KEY_U8) {
        Ok(_) => unreachable!(),
        Err(d) => d,
    };
}

#[test]
fn narrowing_scenario() {
    let c: Coproduct<u64> = Coproduct::inject(pair_set(), KEY_U16, 42);
    assert_eq!(c.tag(), 1);
    let rem = match c.uninject(KEY_U8) {
        Ok(_) => unreachable!(),
        Err(r) => r,
    };
    assert_eq!(rem.variants().len(), 1);
    assert!(rem.variants().contains_key(KEY_U16));
    assert_eq!(rem.tag(), 0);
    assert_eq!(rem.key(), KEY_U16);
    assert_eq!(rem.uninject(KEY_U16), Ok(42));
}

#[test]
fn singleton_extraction_always_succeeds() {
    let set = VariantSet::empty().append(KEY_U8);
    let c: Coproduct<u8> = Coproduct::inject(set, KEY_U8, 9);
    assert!(c.uninject(KEY_U8).is_ok());
}

#[test]
fn single_construction_and_destruction() {
    let probe = Rc::new(0u8);
    let c: Coproduct<Rc<u8>> = Coproduct::inject(pair_set(), KEY_U16, probe.clone());
    assert_eq!(Rc::strong_count(&probe), 2);
    let rem = match c.uninject(KEY_U8) {
        Ok(_) => unreachable!(),
        Err(r) => r,
    };
    assert_eq!(Rc::strong_count(&probe), 2);
    let v = match rem.uninject(KEY_U16) {
        Ok(v) => v,
        Err(_) => unreachable!(),
    };
    assert_eq!(Rc::strong_count(&probe), 2);
    drop(v);
    assert_eq!(Rc::strong_count(&probe), 1);
    let d: Coproduct<Rc<u8>> = Coproduct::inject(pair_set(), KEY_U8, probe.clone());
    assert_eq!(Rc::strong_count(&probe), 2);
    drop(d);
    assert_eq!(Rc::strong_count(&probe), 1);
}

#[test]
fn embed_repositions_tag() {
    let small = VariantSet::empty().append(7).append(9);
    let wide = VariantSet::empty().append(9).append(8).append(7);
    let c: Coproduct<u32> = Coproduct::inject(small, 7, 11);
    assert_eq!(c.tag(), 0);
    let w = c.embed(&wide);
    assert_eq!(w.tag(), 2);
    assert_eq!(w.key(), 7);
    assert_eq!(w.uninject(7), Ok(11));
}

#[test]
fn split_remainder() {
    let set = VariantSet::empty().append(1).append(2).append(3);
    let sub = VariantSet::empty().append(1);
    let c: Coproduct<u8> = Coproduct::inject(set, 3, 30);
    let rem = match c.split(&sub) {
        Ok(_) => unreachable!(),
        Err(r) => r,
    };
    assert_eq!(rem.variants().len(), 2);
    assert!(rem.variants().contains_key(2) && rem.variants().contains_key(3));
    assert_eq!(rem.tag(), 1);
    assert_eq!(rem.uninject(3), Ok(30));
}

#[test]
fn take_head_steps() {
    let c: Coproduct<u64> = Coproduct::inject(pair_set(), KEY_U16, 5);
    let rem = match c.take_head() {
        Ok(_) => unreachable!(),
        Err(r) => r,
    };
    assert_eq!(rem.take_head(), Ok(5));
}

#[test]
fn copyable_round_trip() {
    let c: CopyableCoproduct<u16> = CopyableCoproduct::inject(pair_set(), KEY_U16, 42);
    let d = c.clone();
    assert_eq!(d.tag(), 1);
    assert_eq!(c.uninject(KEY_U16), Ok(42));
    let rem = match d.uninject(KEY_U8) {
        Ok(_) => unreachable!(),
        Err(r) => r,
    };
    assert_eq!(rem.uninject(KEY_U16), Ok(42));
}

#[test]
fn free_inject() {
    let c: Coproduct<u8> = inject(pair_set(), KEY_U8, 3);
    assert_eq!(c.key(), KEY_U8);
}

#[test]
fn positional_extraction() {
    assert_eq!(Here.count(), 0);
    assert_eq!(There(There(Here)).count(), 2);
    let c: Coproduct<u64> = Coproduct::inject(pair_set(), KEY_U16, 42);
    assert_eq!(c.uninject_at(&There(Here)), Ok(42));
    let c2: Coproduct<u64> = Coproduct::inject(pair_set(), KEY_U16, 42);
    let rem = match c2.uninject_at(&Here) {
        Ok(_) => unreachable!(),
        Err(r) => r,
    };
    assert_eq!(rem.uninject(KEY_U16), Ok(42));
}
