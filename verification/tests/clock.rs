use zos_server::clock::unix_timestamp;

#[test]
fn system_clock_reads_after_the_epoch() {
    let t = unix_timestamp().unwrap();
    assert!(t > 1_600_000_000);
}
