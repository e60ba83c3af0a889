use rspsx::console::r3000::R3000;
use rspsx::console::DelayedWrite;
use rspsx::console::MaybeSet;
use rspsx::console::Name;
use std::collections::VecDeque;

#[test]
fn initial_values() {
    let r3000 = R3000::new();
    assert_eq!(r3000.pc(), 0xbfc0_0000);
}

#[test]
fn set_register() {
    let mut r3000 = R3000::new();
    *r3000.pc_mut() = 2;
    assert_eq!(r3000.pc(), 2);
}

#[test]
fn general_registers() {
    let mut r3000 = R3000::new();
    for i in 1..=31 {
        r3000.nth_reg_mut(i).maybe_set(i + 31);
    }
    for i in 1..=31 {
        assert_eq!(r3000.nth_reg(i), (31 + i) as u32);
    }
}

#[test]
fn flush_cache() {
    let mut cache = VecDeque::new();
    cache.push_back(DelayedWrite::new(Name::Rn(1), 4));
    cache.push_back(DelayedWrite::new(Name::Rn(3), 6));
    cache.push_back(DelayedWrite::new(Name::Rn(2), 5));
    let mut r3000 = R3000::new();
    r3000.flush_write_cache(&mut cache, &mut None);
    assert_eq!(cache.len(), 2);
    assert_eq!(cache[0].value, 6);
    assert_eq!(cache[1].value, 5);
}

#[test]
fn delayed_load_priority() {
    let mut cache = VecDeque::new();
    let mut r3000 = R3000::new();

    cache.push_back(DelayedWrite::new(Name::Rn(4), 10));
    r3000.nth_reg_mut(4).maybe_set(20);
    let mut modified = Some(Name::Rn(4));
    r3000.flush_write_cache(&mut cache, &mut modified);
    assert_eq!(r3000.nth_reg(4), 20);

    cache.push_back(DelayedWrite::new(Name::Rn(4), 30));
    modified = Some(Name::Rn(3));
    r3000.flush_write_cache(&mut cache, &mut modified);
    assert_eq!(r3000.nth_reg(4), 30);

    cache.push_back(DelayedWrite::new(Name::Rn(4), 40));
    modified = None;
    r3000.flush_write_cache(&mut cache, &mut modified);
    assert_eq!(r3000.nth_reg(4), 40);
}

#[test]
fn r0_reads_zero_and_has_no_handle() {
    let mut r3000 = R3000::new();
    assert!(r3000.nth_reg_mut(0).is_none());
    assert_eq!(r3000.nth_reg_mut(0).maybe_set(7), None);
    assert_eq!(r3000.nth_reg(0), 0);
}

#[test]
fn flush_of_empty_queue_clears_modified_register() {
    let mut cache: VecDeque<DelayedWrite> = VecDeque::new();
    let mut r3000 = R3000::new();
    let mut modified = Some(Name::Rn(5));
    r3000.flush_write_cache(&mut cache, &mut modified);
    assert_eq!(modified, None);
    assert_eq!(r3000.pc(), 0xbfc0_0000);
}

#[test]
fn hi_lo_delayed_writes() {
    let mut cache = VecDeque::new();
    cache.push_back(DelayedWrite::new(Name::Hi, 0x1234));
    cache.push_back(DelayedWrite::new(Name::Lo, 0x5678));
    let mut r3000 = R3000::new();
    r3000.flush_write_cache(&mut cache, &mut None);
    r3000.flush_write_cache(&mut cache, &mut None);
    assert_eq!(r3000.hi(), 0x1234);
    assert_eq!(r3000.lo(), 0x5678);
    *r3000.hi_mut() = 1;
    *r3000.lo_mut() = 2;
    assert_eq!((r3000.hi(), r3000.lo()), (1, 2));
    assert_eq!(r3000.ra_mut().maybe_set(9), Some(Name::Rn(31)));
    assert_eq!(r3000.nth_reg(31), 9);
}

#[test]
fn registers_read_the_last_value_stored() {
    let mut r3000 = R3000::new();
    let mut cache = VecDeque::new();
    r3000.nth_reg_mut(5).maybe_set(1);
    r3000.nth_reg_mut(6).maybe_set(2);
    cache.push_back(DelayedWrite::new(Name::Rn(5), 3));
    cache.push_back(DelayedWrite::new(Name::Rn(0), 9));
    cache.push_back(DelayedWrite::new(Name::Hi, 7));
    r3000.flush_write_cache(&mut cache, &mut None);
    r3000.flush_write_cache(&mut cache, &mut None);
    r3000.flush_write_cache(&mut cache, &mut None);
    r3000.ra_mut().maybe_set(8);
    *r3000.lo_mut() = 11;
    assert_eq!(r3000.nth_reg(0), 0);
    assert_eq!(r3000.nth_reg(5), 3);
    assert_eq!(r3000.nth_reg(6), 2);
    assert_eq!(r3000.nth_reg(31), 8);
    assert_eq!(r3000.nth_reg(7), 0);
    assert_eq!(r3000.hi(), 7);
    assert_eq!(r3000.lo(), 11);
}

#[test]
fn a_write_to_the_register_just_written_is_skipped_even_when_out_of_range() {
    let mut r3000 = R3000::new();
    let mut cache = VecDeque::new();
    cache.push_back(DelayedWrite::new(Name::Rn(40), 1));
    let mut modified = Some(Name::Rn(40));
    r3000.flush_write_cache(&mut cache, &mut modified);
    assert!(cache.is_empty());
    assert_eq!(modified, None);
    assert_eq!(r3000.pc(), 0xbfc0_0000);
}
