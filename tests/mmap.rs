use wasmer_core::mmap::{
    round_up_to_page_size, Mmap, RegionOp, Reserve, ReserveStage, ReserveStep, MAP_FAILED,
};

#[test]
fn test_round_up_to_page_size() {
    assert_eq!(round_up_to_page_size(0, 4096), 0);
    assert_eq!(round_up_to_page_size(1, 4096), 4096);
    assert_eq!(round_up_to_page_size(4096, 4096), 4096);
    assert_eq!(round_up_to_page_size(4097, 4096), 8192);
}

#[test]
fn round_up_other_page_sizes() {
    assert_eq!(round_up_to_page_size(1, 1), 1);
    assert_eq!(round_up_to_page_size(65535, 65536), 65536);
    assert_eq!(round_up_to_page_size(65537, 65536), 131072);
}

fn ready_zygote(accessible: usize, mapping: usize, addr: usize) -> Mmap {
    let mut res: Reserve = Mmap::accessible_reserved(accessible, mapping, 4096, None);
    assert!(matches!(res.begin(), ReserveStep::Perform(RegionOp::CreateMemfd)));
    match res.memfd_created(Ok(7)) {
        ReserveStep::Perform(op) => assert_eq!(op, RegionOp::Resize { memfd: 7, size: mapping }),
        other => panic!("unexpected step {:?}", other),
    }
    match res.resized(Ok(())) {
        ReserveStep::Perform(op) => {
            assert_eq!(op, RegionOp::MapFd { memfd: 7, size: mapping, shared: true })
        }
        other => panic!("unexpected step {:?}", other),
    }
    match res.mapped(addr, String::new()) {
        ReserveStep::Ready(m) => m,
        ReserveStep::Perform(op) => {
            assert_eq!(op, RegionOp::Protect { addr, len: accessible });
            match res.committed(Ok(())) {
                ReserveStep::Ready(m) => m,
                other => panic!("unexpected step {:?}", other),
            }
        }
        other => panic!("unexpected step {:?}", other),
    }
}

#[test]
fn empty_region_needs_no_mapping() {
    let mut res = Mmap::accessible_reserved(0, 0, 4096, None);
    match res.begin() {
        ReserveStep::Ready(m) => {
            assert!(m.is_empty());
            assert!(!m.is_zygote());
            assert_eq!(m.as_ptr(), 1);
            assert!(m.release().is_empty());
        }
        other => panic!("unexpected step {:?}", other),
    }
    assert_eq!(res.stage, ReserveStage::Done);
}

#[test]
fn reserve_with_given_memfd_skips_creation() {
    let mut res = Mmap::accessible_reserved(4096, 4096, 4096, Some(3));
    match res.begin() {
        ReserveStep::Perform(op) => assert_eq!(op, RegionOp::Resize { memfd: 3, size: 4096 }),
        other => panic!("unexpected step {:?}", other),
    }
}

#[test]
fn reserve_commits_accessible_prefix() {
    let m = ready_zygote(4096, 16384, 0x10000);
    assert_eq!(m.len(), 16384);
    assert_eq!(m.accessible_len(), 4096);
    assert!(m.is_zygote());
    assert_eq!(
        m.release(),
        vec![RegionOp::Unmap { addr: 0x10000, len: 16384 }, RegionOp::Close { memfd: 7 }]
    );
}

#[test]
fn reserve_fully_accessible_is_ready_after_mapping() {
    let m = ready_zygote(8192, 8192, 0x20000);
    assert_eq!(m.accessible_len(), 8192);
    assert_eq!(m.into_memfd(), Some(7));
}

#[test]
fn reserve_reports_failures() {
    let mut res = Mmap::accessible_reserved(4096, 8192, 4096, None);
    res.begin();
    match res.memfd_created(Err("no memfd".to_string())) {
        ReserveStep::Failed(e, ops) => {
            assert_eq!(e, "no memfd");
            assert!(ops.is_empty());
        }
        other => panic!("unexpected step {:?}", other),
    }

    let mut res = Mmap::accessible_reserved(4096, 8192, 4096, Some(4));
    res.begin();
    res.resized(Ok(()));
    match res.mapped(MAP_FAILED, "out of memory".to_string()) {
        ReserveStep::Failed(e, _) => assert_eq!(e, "out of memory"),
        other => panic!("unexpected step {:?}", other),
    }

    let mut res = Mmap::accessible_reserved(4096, 8192, 4096, Some(4));
    res.begin();
    res.resized(Ok(()));
    res.mapped(0x4000, String::new());
    match res.committed(Err("denied".to_string())) {
        ReserveStep::Failed(e, ops) => {
            assert_eq!(e, "denied");
            assert_eq!(
                ops,
                vec![RegionOp::Unmap { addr: 0x4000, len: 8192 }, RegionOp::Close { memfd: 4 }]
            );
        }
        other => panic!("unexpected step {:?}", other),
    }
}

#[test]
fn with_at_least_rounds_to_pages() {
    let res = Mmap::with_at_least_page(5000, 4096).unwrap();
    assert_eq!(res.mapping_size, 8192);
    assert_eq!(res.accessible_size, 8192);
    assert!(res.memfd.is_none());
    assert!(Mmap::with_at_least_page(5000, 3000).is_err());
    assert!(Mmap::with_at_least_page(usize::MAX, 4096).is_err());
    let res = Mmap::with_at_least(1).unwrap();
    assert!(res.mapping_size >= 1);
}

#[test]
fn make_accessible_grows_prefix() {
    let mut m = ready_zygote(4096, 16384, 0x30000);
    assert_eq!(
        m.make_accessible(4096, 8192, 4096),
        RegionOp::Protect { addr: 0x31000, len: 8192 }
    );
    assert_eq!(m.made_accessible(4096, 8192, Ok(())), Ok(()));
    assert_eq!(m.accessible_len(), 12288);
    assert_eq!(m.made_accessible(12288, 4096, Err("no".to_string())), Err("no".to_string()));
    assert_eq!(m.accessible_len(), 12288);
}

#[test]
fn duplicate_needs_zygote() {
    let plain = Mmap::new();
    assert_eq!(plain.duplicate(), Err("Not a Zygote".to_string()));

    let zygote = ready_zygote(8192, 8192, 0x40000);
    assert_eq!(
        zygote.duplicate(),
        Ok(RegionOp::MapFd { memfd: 7, size: 8192, shared: false })
    );
    let copy = zygote.duplicated(0x80000, String::new()).unwrap();
    assert_eq!(copy.as_ptr(), 0x80000);
    assert_eq!(copy.len(), 8192);
    assert!(!copy.is_zygote());
    assert!(copy.duplicate().is_err());
    assert_eq!(copy.release(), vec![RegionOp::Unmap { addr: 0x80000, len: 8192 }]);
    assert_eq!(
        zygote.duplicated(MAP_FAILED, "mapping failed".to_string()).unwrap_err(),
        "mapping failed"
    );
}
