use zos_server::monster::{chunk_size, TruncatedMonster};

#[test]
fn fifteen_prime_power_components() {
    let m = TruncatedMonster::new();
    assert_eq!(m.component_count(), 15);
    let first = m.component(0);
    assert_eq!((first.prime, first.power, first.gpu_chunk_id), (2, 46, 0));
    let last = m.component(14);
    assert_eq!((last.prime, last.power, last.gpu_chunk_id), (71, 1, 14));
    // The order of the Monster group is
    // 808017424794512875886459904961710757005754368000000000
    // = 2^46 * 3^20 * 3293182746777604312211658203125.
    assert_eq!((m.component(1).prime, m.component(1).power), (3, 20));
    let mut rest: u128 = 1;
    for i in 2..15 {
        let c = m.component(i);
        rest *= (c.prime as u128).pow(c.power);
    }
    assert_eq!(rest, 3293182746777604312211658203125);
}

#[test]
fn chunks_are_capped_at_1024() {
    let m = TruncatedMonster::new();
    assert_eq!(chunk_size(&m.component(0)), 2);
    assert_eq!(chunk_size(&m.component(14)), 71);
}

#[test]
fn compositions_are_numbered_in_order() {
    let mut m = TruncatedMonster::new();
    assert_eq!(m.record_composition(&[0, 1, 2]), 0);
    assert_eq!(m.record_composition(&[12, 13, 14]), 1);
    assert_eq!(m.composition_count(), 2);
    assert_eq!(m.composition_primes(0), vec![2, 3, 5]);
    assert_eq!(m.composition_primes(1), vec![47, 59, 71]);
}
