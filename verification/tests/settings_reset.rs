use ergohaven::settings_reset::{
    erase_page, erase_settings, is_ready, nvmc_wait, settings_reset, system_reset, RegOp,
};

const READY: u32 = 0x4001_E400;
const CONFIG: u32 = 0x4001_E504;
const ERASEPAGE: u32 = 0x4001_E508;

fn write(reg: u32, value: u32) -> RegOp {
    RegOp::Write { reg, value }
}

/// All accesses of a run, in order.
fn all(next: fn(u32) -> Option<RegOp>) -> Vec<RegOp> {
    let mut ops = Vec::new();
    while let Some(op) = next(ops.len() as u32) {
        ops.push(op);
    }
    ops
}

#[test]
fn page_is_unlocked_erased_and_locked() {
    let wait = RegOp::Wait { reg: READY };
    assert_eq!(nvmc_wait(), wait);
    assert_eq!(
        erase_page(0x61000),
        [wait, write(CONFIG, 2), wait, write(ERASEPAGE, 0x61000), wait, write(CONFIG, 0), wait]
    );
}

#[test]
fn flash_controller_is_ready_unless_zero() {
    assert!(!is_ready(0));
    assert!(is_ready(1));
    assert!(is_ready(0x8000_0000));
}

#[test]
fn reset_request_carries_the_key() {
    assert_eq!(system_reset(), write(0xE000_ED0C, 0x05FA_0004));
}

#[test]
fn settings_pages_are_erased_and_no_others() {
    let mut pages = Vec::new();
    for op in all(erase_settings) {
        if let RegOp::Write { reg: ERASEPAGE, value } = op {
            pages.push(value);
        }
    }
    assert_eq!(pages.len(), 148);
    assert_eq!(pages[0], 0x60000);
    assert_eq!(pages[147], 0xF3000);
    for (i, page) in pages.iter().enumerate() {
        assert_eq!(*page, 0x60000 + 0x1000 * i as u32);
    }
}

#[test]
fn every_write_to_the_flash_controller_follows_a_wait() {
    let ops = all(erase_settings);
    let mut config = 0;
    for i in 0..ops.len() {
        if let RegOp::Write { reg, value } = ops[i] {
            assert_eq!(ops[i - 1], RegOp::Wait { reg: READY });
            if reg == CONFIG {
                config = value;
            } else {
                assert_eq!((reg, config), (ERASEPAGE, 2));
            }
        }
    }
    assert_eq!(config, 0);
}

#[test]
fn chip_is_reset_in_the_end() {
    let ops = all(settings_reset);
    assert_eq!(ops.len(), 148 * 7 + 1);
    assert_eq!(ops[..148 * 7], all(erase_settings)[..]);
    assert_eq!(ops[148 * 7], system_reset());
    assert_eq!(settings_reset(148 * 7 + 1), None);
    assert_eq!(settings_reset(u32::MAX), None);
}
