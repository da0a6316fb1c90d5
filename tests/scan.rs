use minecraft_scanner::checker::License;
use minecraft_scanner::scan::{get_random_ip, refresh_chunks, scan_target, MINECRAFT_PORT, QUEUE_CAPACITY};

#[test]
fn closed_port_never_reaches_workers() {
    assert_eq!(scan_target([1, 2, 3, 4], false), None);
    assert_eq!(scan_target([1, 2, 3, 4], true), Some(([1, 2, 3, 4], 25565)));
    assert_eq!(MINECRAFT_PORT, 25565);
    assert_eq!(QUEUE_CAPACITY, 256);
}

#[test]
fn refresh_chunks_cover_every_record_once() {
    assert_eq!(refresh_chunks(0), vec![]);
    assert_eq!(refresh_chunks(1), vec![(0, 1)]);
    assert_eq!(refresh_chunks(100), vec![(0, 100)]);
    assert_eq!(refresh_chunks(101), vec![(0, 100), (100, 101)]);
    assert_eq!(refresh_chunks(250), vec![(0, 100), (100, 200), (200, 250)]);
}

#[test]
fn random_addresses_vary() {
    let first = get_random_ip();
    let mut differs = false;
    for _ in 0..32 {
        if get_random_ip() != first {
            differs = true;
        }
    }
    assert!(differs);
}

#[test]
fn license_markers_and_codes() {
    assert_eq!(License::Licensed.marker(), '/');
    assert_eq!(License::Unlicensed.marker(), '+');
    assert_eq!(License::Unknown.marker(), '-');
    assert_eq!(License::from_outcome(Some(true)), License::Licensed);
    assert_eq!(License::from_outcome(Some(false)), License::Unlicensed);
    assert_eq!(License::from_outcome(None), License::Unknown);
    assert_eq!(License::Licensed.code(), 1);
    assert_eq!(License::Unlicensed.code(), 0);
    assert_eq!(License::Unknown.code(), -1);
}
