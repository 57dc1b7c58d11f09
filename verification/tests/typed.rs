use coproduct::{At, Coproduct, Embed, Split, Typed, VariantSet};

const KEY_U8: u64 = 1;
const KEY_U16: u64 = 2;
const KEY_U32: u64 = 3;
const KEY_U64: u64 = 4;

fn small_set() -> VariantSet {
    VariantSet::empty().append(KEY_U8).append(KEY_U16)
}

fn wide_set() -> VariantSet {
    small_set().append(KEY_U32).append(KEY_U64)
}

#[test]
fn typed_any_inject_uninject() {
    let set = VariantSet::empty().append(KEY_U8);
    let storage = Typed::new(&set, KEY_U8, 47u8);
    assert_eq!(storage.uninject(KEY_U8), Ok(&47));
}

#[test]
fn typed_any_embed_split() {
    let small = small_set();
    let wide = wide_set();
    let storage = Typed::new(&small, KEY_U16, 42u16);
    let widened = storage.embed(&small, &wide);
    assert_eq!(Ok(&storage), widened.split(&wide, &small));
}

#[test]
fn typed_mismatch_stays_typed() {
    let set = small_set();
    let storage = Typed::new(&set, KEY_U16, 42u16);
    assert_eq!(storage.key(), KEY_U16);
    let same = match storage.uninject(KEY_U8) {
        Ok(_) => unreachable!(),
        Err(t) => t,
    };
    assert_eq!(same.uninject(KEY_U16), Ok(&42));
}

#[test]
fn typed_split_remainder_side() {
    let from = wide_set();
    let sub = VariantSet::empty().append(KEY_U8);
    let storage = Typed::new(&from, KEY_U64, 9u64);
    let rem = match storage.split(&from, &sub) {
        Ok(_) => unreachable!(),
        Err(t) => t,
    };
    assert_eq!(rem.key(), KEY_U64);
}

#[test]
fn inject_uninject_box() {
    let set = VariantSet::empty().append(KEY_U8);
    let c: Coproduct<Box<u8>> = Coproduct::inject(set, KEY_U8, Box::new(47u8));
    assert_eq!(c.uninject(KEY_U8), Ok(Box::new(47u8)));
}

#[test]
fn embed_split_box() {
    let make = || {
        let c: Coproduct<Box<u16>> = Coproduct::inject(small_set(), KEY_U16, Box::new(42u16));
        c
    };
    let widened = make().embed(&wide_set());
    assert_eq!(Ok(make()), widened.split(&small_set()));
}
