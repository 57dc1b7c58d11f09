use coproduct::{inject, At, Coproduct, Embed, Merge, VariantSet, Without};

const KEY_A: u64 = 0xA;
const KEY_B: u64 = 0xB;

#[test]
fn append() {
    let extended = VariantSet::empty().append(KEY_A).append(KEY_B);
    let _c: Coproduct<u8> = inject(extended.clone(), KEY_A, 0);
    let unchanged = extended.append(KEY_B);
    assert_eq!(unchanged.len(), 2);
    let _c: Coproduct<u8> = inject(unchanged, KEY_A, 0);
}

#[test]
fn mergetest() {
    let sa = VariantSet::empty().append(KEY_A);
    let sb = VariantSet::empty().append(KEY_B);
    let a: Coproduct<u8> = inject(sa.clone(), KEY_A, 1);
    let b: Coproduct<u8> = inject(sb.clone(), KEY_B, 2);
    let m = sa.merge(&sb);
    let _ab_ab = (a.embed(&m), b.embed(&m));
}

#[test]
fn mergetest2() {
    let sa = VariantSet::empty().append(KEY_A).append(KEY_B);
    let sb = VariantSet::empty().append(KEY_B);
    let a: Coproduct<u8> = inject(sa.clone(), KEY_A, 1);
    let b: Coproduct<u8> = inject(sb.clone(), KEY_B, 2);
    let m = sa.merge(&sb);
    let _ab_ab = (a.embed(&m), b.embed(&m));
}

#[test]
fn testy() {
    let s = VariantSet::empty().append(KEY_A).append(KEY_B);
    assert!(s.contains_key(KEY_A) && s.contains_key(KEY_B));
    assert_eq!(s.len(), 2);
}

#[test]
fn merge_overlap_each_key_once() {
    let a = VariantSet::empty().append(1).append(2);
    let b = VariantSet::empty().append(2).append(3);
    let m = a.merge(&b);
    assert_eq!(m.len(), 3);
    assert!(m.contains_key(1) && m.contains_key(2) && m.contains_key(3));
    assert_eq!(m.key_at(0), 1);
    assert_eq!(m.key_at(1), 2);
    assert_eq!(m.key_at(2), 3);
}

#[test]
fn without_drops_position() {
    let s = VariantSet::empty().append(1).append(2).append(3);
    let t = s.without(1);
    assert_eq!(t.len(), 2);
    assert_eq!(t.key_at(0), 1);
    assert_eq!(t.key_at(1), 3);
}

#[test]
fn difference_keeps_order() {
    let s = VariantSet::empty().append(1).append(2).append(3).append(4);
    let sub = VariantSet::empty().append(3).append(1);
    let d = s.difference(&sub);
    assert_eq!(d.len(), 2);
    assert_eq!(d.key_at(0), 2);
    assert_eq!(d.key_at(1), 4);
}
