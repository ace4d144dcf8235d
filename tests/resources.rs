use spare::resources::{LocalResources, OrchestratorError};

#[test]
fn reserve_and_release_balance() {
    let mut r = LocalResources::with_cpus(4);
    assert_eq!(r.acquire_cpus(3), Ok(()));
    assert_eq!(r.get_available_cpus(), 1);
    assert_eq!(r.acquire_cpus(2), Err(OrchestratorError::InsufficientResources));
    assert_eq!(r.get_available_cpus(), 1);
    assert_eq!(r.release_cpus(3), Ok(()));
    assert_eq!(r.get_available_cpus(), 4);
    assert_eq!(r.release_cpus(1), Err(OrchestratorError::Overflow));
    assert_eq!(r.get_available_cpus(), 4);
    assert_eq!(r.get_total_cpus(), 4);
}

#[test]
fn interleavings_stay_in_range() {
    let mut r = LocalResources::with_cpus(3);
    let mut held: usize = 0;
    let ops: [(bool, usize); 8] = [(true, 2), (true, 2), (false, 1), (true, 2), (false, 5), (false, 3), (true, 0), (true, 3)];
    for (reserve, k) in ops {
        if reserve {
            if r.acquire_cpus(k).is_ok() {
                held += k;
            }
        } else if r.release_cpus(k).is_ok() {
            held -= k;
        }
        assert!(r.get_available_cpus() <= 3);
        assert_eq!(r.get_available_cpus(), 3 - held);
    }
}

#[test]
fn host_accountant_starts_full() {
    let r = LocalResources::new();
    assert_eq!(r.get_available_cpus(), r.get_total_cpus());
}
