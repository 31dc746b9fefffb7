use banshee::ssr::{banshee_ssr_next, banshee_ssr_read_cfg, banshee_ssr_write_cfg, SsrState};

fn cfg(reg: u32) -> u32 {
    reg * 8
}

#[test]
fn ssr_single_dimension_no_repeat() {
    let p: u32 = 0x1000;
    let mut s = SsrState::new();
    banshee_ssr_write_cfg(&mut s, cfg(2), 2);
    banshee_ssr_write_cfg(&mut s, cfg(6), 4);
    banshee_ssr_write_cfg(&mut s, cfg(24), p);
    assert_eq!(s.dims(), 0);
    assert_eq!(s.repeat_bound(), 0);
    assert_eq!(banshee_ssr_next(&mut s), p);
    assert!(!s.done());
    assert_eq!(banshee_ssr_next(&mut s), p + 4);
    assert!(!s.done());
    assert_eq!(s.index(0), 2);
    assert_eq!(banshee_ssr_next(&mut s), p + 8);
    // The index reached its bound: it carries back to 0 and the stream is done.
    assert_eq!(s.index(0), 0);
    assert!(s.done());
    // The pointer moves by the stride of the dimension where the scan stopped.
    assert_eq!(s.ptr(), p + 12);
    assert_eq!(banshee_ssr_next(&mut s), p + 12);
    assert_eq!(s.index(0), 1);
    assert!(!s.done());
}

#[test]
fn ssr_repeat() {
    let p: u32 = 0x2000;
    let mut s = SsrState::new();
    s.set_repeat_bound(2);
    banshee_ssr_write_cfg(&mut s, cfg(2), 5);
    banshee_ssr_write_cfg(&mut s, cfg(6), 8);
    banshee_ssr_write_cfg(&mut s, cfg(24), p);
    assert_eq!(s.repeat_count(), 0);
    assert_eq!(banshee_ssr_next(&mut s), p);
    assert_eq!(s.repeat_count(), 1);
    assert_eq!(banshee_ssr_next(&mut s), p);
    assert_eq!(s.repeat_count(), 2);
    assert_eq!(banshee_ssr_next(&mut s), p);
    assert_eq!(s.repeat_count(), 0);
    assert_eq!(banshee_ssr_next(&mut s), p + 8);
    assert_eq!(s.repeat_count(), 1);
}

#[test]
fn ssr_multi_dimension_carry() {
    let p: u32 = 0x3000;
    let mut s = SsrState::new();
    banshee_ssr_write_cfg(&mut s, cfg(2), 1);
    banshee_ssr_write_cfg(&mut s, cfg(3), 1);
    banshee_ssr_write_cfg(&mut s, cfg(6), 4);
    banshee_ssr_write_cfg(&mut s, cfg(7), 100);
    banshee_ssr_write_cfg(&mut s, cfg(25), p);
    assert_eq!(s.dims(), 1);
    assert_eq!(banshee_ssr_next(&mut s), p);
    assert_eq!((s.index(0), s.index(1)), (1, 0));
    assert_eq!(banshee_ssr_next(&mut s), p + 4);
    // Dimension 0 reached its bound and carried into dimension 1.
    assert_eq!((s.index(0), s.index(1)), (0, 1));
    assert_eq!(banshee_ssr_next(&mut s), p + 4 + 100);
    assert_eq!((s.index(0), s.index(1)), (1, 1));
    assert_eq!(banshee_ssr_next(&mut s), p + 4 + 100 + 4);
    // Both dimensions carried: the stream is done.
    assert_eq!((s.index(0), s.index(1)), (0, 0));
    assert!(s.done());
    assert_eq!(s.ptr(), p + 4 + 100 + 4 + 100);
}

#[test]
fn ssr_pointer_wraps() {
    let mut s = SsrState::new();
    banshee_ssr_write_cfg(&mut s, cfg(2), 10);
    banshee_ssr_write_cfg(&mut s, cfg(6), 8);
    banshee_ssr_write_cfg(&mut s, cfg(24), 0xFFFF_FFFC);
    assert_eq!(banshee_ssr_next(&mut s), 0xFFFF_FFFC);
    assert_eq!(banshee_ssr_next(&mut s), 4);
}

#[test]
fn ssr_status_register_decode() {
    let mut s = SsrState::new();
    banshee_ssr_write_cfg(&mut s, cfg(0), 0xB123_4567);
    assert_eq!(s.ptr(), 0x0123_4567);
    assert!(s.done());
    assert!(!s.write());
    assert_eq!(s.dims(), 3);
    assert_eq!(banshee_ssr_read_cfg(&mut s, cfg(0)), 0xB123_4567);
    banshee_ssr_write_cfg(&mut s, cfg(0), 0x4000_0010);
    assert_eq!(s.ptr(), 0x10);
    assert!(!s.done());
    assert!(s.write());
    assert_eq!(s.dims(), 0);
}

#[test]
fn ssr_start_streams() {
    let mut s = SsrState::new();
    banshee_ssr_write_cfg(&mut s, cfg(0), 0x8000_0000);
    assert!(s.done());
    banshee_ssr_write_cfg(&mut s, cfg(26), 0xDEAD_BEEF);
    assert_eq!(s.ptr(), 0xDEAD_BEEF);
    assert!(!s.done());
    assert!(!s.write());
    assert_eq!(s.dims(), 2);
    banshee_ssr_write_cfg(&mut s, cfg(31), 0x100);
    assert_eq!(s.ptr(), 0x100);
    assert!(s.write());
    assert_eq!(s.dims(), 3);
}

#[test]
fn ssr_repeat_count_register() {
    let mut s = SsrState::new();
    banshee_ssr_write_cfg(&mut s, cfg(1), 0x0001_0003);
    assert_eq!(s.repeat_count(), 3);
    assert_eq!(s.repeat_bound(), 0);
    assert_eq!(banshee_ssr_read_cfg(&mut s, cfg(1)), 3);
}

#[test]
fn ssr_bound_and_stride_registers() {
    let mut s = SsrState::new();
    for i in 0..4u32 {
        banshee_ssr_write_cfg(&mut s, cfg(2 + i), 10 + i);
        banshee_ssr_write_cfg(&mut s, cfg(6 + i), 20 + i);
    }
    for i in 0..4u32 {
        assert_eq!(s.bound(i as usize), 10 + i);
        assert_eq!(s.stride(i as usize), 20 + i);
        assert_eq!(banshee_ssr_read_cfg(&mut s, cfg(2 + i)), 10 + i);
        assert_eq!(banshee_ssr_read_cfg(&mut s, cfg(6 + i)), 20 + i);
    }
    // Byte offsets inside one register select that register.
    assert_eq!(banshee_ssr_read_cfg(&mut s, cfg(3) + 7), 11);
}

#[test]
fn ssr_reserved_registers() {
    let mut s = SsrState::new();
    banshee_ssr_write_cfg(&mut s, cfg(2), 7);
    banshee_ssr_write_cfg(&mut s, cfg(10), 99);
    banshee_ssr_write_cfg(&mut s, cfg(23), 99);
    banshee_ssr_write_cfg(&mut s, cfg(32), 99);
    assert_eq!(s.bound(2 - 2), 7);
    assert_eq!(s.ptr(), 0);
    assert_eq!(banshee_ssr_read_cfg(&mut s, cfg(10)), 0);
    assert_eq!(banshee_ssr_read_cfg(&mut s, cfg(24)), 0);
    assert_eq!(banshee_ssr_read_cfg(&mut s, cfg(31)), 0);
}

#[test]
fn ssr_read_cfg_idempotent() {
    let mut s = SsrState::new();
    banshee_ssr_write_cfg(&mut s, cfg(0), 0x5234_5678);
    banshee_ssr_write_cfg(&mut s, cfg(1), 9);
    for reg in 2..10u32 {
        banshee_ssr_write_cfg(&mut s, cfg(reg), reg * 3);
    }
    for reg in 0..40u32 {
        let a = banshee_ssr_read_cfg(&mut s, cfg(reg));
        let b = banshee_ssr_read_cfg(&mut s, cfg(reg));
        assert_eq!(a, b);
    }
}

#[test]
fn ssr_default_is_reset() {
    let s = SsrState::default();
    assert_eq!(s.ptr(), 0);
    assert_eq!(s.dims(), 0);
    assert!(!s.done());
    assert!(!s.write());
    for i in 0..4 {
        assert_eq!(s.index(i), 0);
        assert_eq!(s.bound(i), 0);
        assert_eq!(s.stride(i), 0);
    }
}
