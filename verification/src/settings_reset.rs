//! Erasing all stored settings: key maps, Bluetooth bonds, layout options.
//!
//! The flash pages from [`ERASE_START`] up to the bootloader are erased through the
//! registers of the flash controller (NVMC) of the nRF52840, then the chip is reset.

use vstd::prelude::*;

verus! {

/// The registers of the flash controller start here.
pub const NVMC_BASE: u32 = 0x4001_E000;

/// Reads as 0 while the flash controller is busy.
pub const NVMC_READY: u32 = NVMC_BASE + 0x400;

/// Switches between reading and erasing.
pub const NVMC_CONFIG: u32 = NVMC_BASE + 0x504;

/// Takes the address of a page to erase.
pub const NVMC_ERASEPAGE: u32 = NVMC_BASE + 0x508;

/// [`NVMC_CONFIG`]: read only.
pub const NVMC_CONFIG_REN: u32 = 0;

/// [`NVMC_CONFIG`]: erase enabled.
pub const NVMC_CONFIG_EEN: u32 = 2;

/// The first page that holds settings.
pub const ERASE_START: u32 = 0x60000;

/// The bootloader starts here.
pub const ERASE_END: u32 = 0xF4000;

pub const PAGE_SIZE: u32 = 4096;

pub const PAGE_COUNT: u32 = (ERASE_END - ERASE_START) / PAGE_SIZE;

/// The control register for a system reset.
pub const SCB_AIRCR: u32 = 0xE000_ED0C;

/// Without this key a write to [`SCB_AIRCR`] is ignored.
pub const AIRCR_VECTKEY: u32 = 0x05FA_0000;

pub const AIRCR_SYSRESETREQ: u32 = 1 << 2;

/// One access to a register.
#[derive(Clone, Copy, Debug, PartialEq, Eq, Structural)]
pub enum RegOp {
    /// Read the register until it is ready, as [`is_ready`] tells.
    Wait { reg: u32 },
    /// Write the register.
    Write { reg: u32, value: u32 },
}

/// How many pages are erased.
pub open spec fn page_count() -> nat {
    ((ERASE_END - ERASE_START) / PAGE_SIZE as int) as nat
}

/// The address of the `i`-th page that is erased.
pub open spec fn page_addr(i: int) -> int {
    ERASE_START + i * PAGE_SIZE
}

/// Waiting for the flash controller.
pub open spec fn wait_op() -> RegOp {
    RegOp::Wait { reg: NVMC_READY }
}

/// The accesses that erase one page: unlock, erase, lock, with a wait around each.
pub open spec fn erase_page_ops(addr: u32) -> Seq<RegOp> {
    seq![
        wait_op(),
        RegOp::Write { reg: NVMC_CONFIG, value: NVMC_CONFIG_EEN },
        wait_op(),
        RegOp::Write { reg: NVMC_ERASEPAGE, value: addr },
        wait_op(),
        RegOp::Write { reg: NVMC_CONFIG, value: NVMC_CONFIG_REN },
        wait_op(),
    ]
}

/// The accesses that erase the first `pages` pages, in ascending order.
pub open spec fn erase_ops(pages: nat) -> Seq<RegOp>
    decreases pages,
{
    if pages == 0 {
        Seq::empty()
    } else {
        erase_ops((pages - 1) as nat) + erase_page_ops(page_addr(pages - 1) as u32)
    }
}

/// The access that resets the chip.
pub open spec fn reset_op() -> RegOp {
    RegOp::Write { reg: SCB_AIRCR, value: 0x05FA_0004 }
}

/// Whether the value read from [`NVMC_READY`] ends a wait.
pub fn is_ready(value: u32) -> (ready: bool)
    ensures
        ready == (value != 0),
{
    value != 0
}

/// The wait for the flash controller.
pub fn nvmc_wait() -> (op: RegOp)
    ensures
        op == wait_op(),
{
    RegOp::Wait { reg: NVMC_READY }
}

/// The accesses that erase the page at `addr`.
pub fn erase_page(addr: u32) -> (ops: [RegOp; 7])
    ensures
        ops@ == erase_page_ops(addr),
{
    [
        nvmc_wait(),
        RegOp::Write { reg: NVMC_CONFIG, value: NVMC_CONFIG_EEN },
        nvmc_wait(),
        RegOp::Write { reg: NVMC_ERASEPAGE, value: addr },
        nvmc_wait(),
        RegOp::Write { reg: NVMC_CONFIG, value: NVMC_CONFIG_REN },
        nvmc_wait(),
    ]
}

/// The access that resets the chip.
pub fn system_reset() -> (op: RegOp)
    ensures
        op == reset_op(),
{
    assert(0x05FA_0000u32 | (1u32 << 2) == 0x05FA_0004u32) by (bit_vector);
    RegOp::Write { reg: SCB_AIRCR, value: AIRCR_VECTKEY | AIRCR_SYSRESETREQ }
}

proof fn lemma_erase_op(pages: nat, i: int)
    ensures
        erase_ops(pages).len() == 7 * pages,
        0 <= i < 7 * pages ==> erase_ops(pages)[i] == erase_page_ops(page_addr(i / 7) as u32)[i
            % 7],
    decreases pages,
{
    if pages > 0 {
        lemma_erase_op((pages - 1) as nat, i);
    }
}

/// The access that erasing the settings goes on with once `done` accesses have been made;
/// `None` after the last one.
pub fn erase_settings(done: u32) -> (next: Option<RegOp>)
    ensures
        next == if done < erase_ops(page_count()).len() {
            Some(erase_ops(page_count())[done as int])
        } else {
            None
        },
{
    proof {
        lemma_erase_op(page_count(), done as int);
    }
    if done < PAGE_COUNT * 7 {
        let page: [RegOp; 7] = erase_page(ERASE_START + done / 7 * PAGE_SIZE);
        Some(page[(done % 7) as usize])
    } else {
        None
    }
}

/// The access that the settings reset goes on with once `done` accesses have been made:
/// first the settings are erased, then the chip is reset. `None` after the last one.
pub fn settings_reset(done: u32) -> (next: Option<RegOp>)
    ensures
        ({
            let ops = erase_ops(page_count()).push(reset_op());
            next == if done < ops.len() {
                Some(ops[done as int])
            } else {
                None
            }
        }),
{
    proof {
        lemma_erase_op(page_count(), done as int);
    }
    if done == PAGE_COUNT * 7 {
        Some(system_reset())
    } else {
        erase_settings(done)
    }
}

/// The addresses of the pages that a series of accesses erases, in order.
pub open spec fn erased_pages(ops: Seq<RegOp>) -> Seq<u32>
    decreases ops.len(),
{
    if ops.len() == 0 {
        Seq::empty()
    } else {
        let before = erased_pages(ops.drop_last());
        match ops.last() {
            RegOp::Write { reg, value } if reg == NVMC_ERASEPAGE => before.push(value),
            _ => before,
        }
    }
}

proof fn lemma_erased_concat(a: Seq<RegOp>, b: Seq<RegOp>)
    ensures
        erased_pages(a + b) == erased_pages(a) + erased_pages(b),
    decreases b.len(),
{
    if b.len() == 0 {
        assert(a + b =~= a);
        assert(erased_pages(a) + erased_pages(b) =~= erased_pages(a));
    } else {
        lemma_erased_concat(a, b.drop_last());
        assert((a + b).drop_last() =~= a + b.drop_last());
        assert(erased_pages(a + b) =~= erased_pages(a) + erased_pages(b));
    }
}

proof fn lemma_erased(pages: nat)
    requires
        pages <= page_count(),
    ensures
        erased_pages(erase_ops(pages)) == Seq::new(pages, |i: int| page_addr(i) as u32),
    decreases pages,
{
    if pages == 0 {
        assert(erased_pages(erase_ops(pages)) =~= Seq::new(pages, |i: int| page_addr(i) as u32));
    } else {
        let last = page_addr(pages - 1) as u32;
        let page = erase_page_ops(last);
        lemma_erased((pages - 1) as nat);
        lemma_erased_concat(erase_ops((pages - 1) as nat), page);
        assert(erased_pages(page) =~= seq![last]) by {
            reveal_with_fuel(erased_pages, 8);
            let p6 = page.drop_last();
            let p5 = p6.drop_last();
            let p4 = p5.drop_last();
            let p3 = p4.drop_last();
            let p2 = p3.drop_last();
            let p1 = p2.drop_last();
            assert(p1.drop_last() =~= Seq::<RegOp>::empty());
        }
        assert(erased_pages(erase_ops(pages)) =~= Seq::new(pages, |i: int| page_addr(i) as u32));
    }
}

/// The settings reset erases the flash from [`ERASE_START`] to [`ERASE_END`] and nothing
/// else: page after page, each one once, so that a byte of the flash is erased exactly
/// if its address lies in that range.
pub proof fn law_erases_the_settings_only(addr: int)
    ensures
        ({
            let erased = erased_pages(erase_ops(page_count()).push(reset_op()));
            &&& erased == Seq::new(page_count(), |i: int| page_addr(i) as u32)
            &&& (ERASE_START <= addr < ERASE_END) <==> exists|i: int|
                0 <= i < erased.len() && #[trigger] erased[i] <= addr < erased[i] + PAGE_SIZE
        }),
{
    lemma_erased(page_count());
    let ops = erase_ops(page_count()).push(reset_op());
    assert(ops.drop_last() =~= erase_ops(page_count()));
    let erased = erased_pages(ops);
    if ERASE_START <= addr < ERASE_END {
        let i = (addr - ERASE_START) / 4096;
        assert(erased[i] <= addr < erased[i] + PAGE_SIZE);
    }
}

/// The bootloader and everything below the application area stay as they are: every page
/// that is erased lies between 0x26000 and 0xF4000 and starts at a multiple of the page
/// size.
pub proof fn law_bootloader_is_safe(i: int)
    requires
        0 <= i < page_count(),
    ensures
        0x26000 <= page_addr(i),
        page_addr(i) + PAGE_SIZE <= 0xF4000,
        page_addr(i) % PAGE_SIZE as int == 0,
{
}

/// Is the access at `i` allowed where it stands? The flash controller is written only
/// right after a wait, and a page is erased only while erasing is enabled.
pub open spec fn access_ok(ops: Seq<RegOp>, i: int) -> bool {
    match ops[i] {
        RegOp::Wait { reg } => reg == NVMC_READY,
        RegOp::Write { reg, value } => {
            &&& i >= 1
            &&& ops[i - 1] == wait_op()
            &&& reg == NVMC_ERASEPAGE ==> i >= 2 && ops[i - 2] == (RegOp::Write {
                reg: NVMC_CONFIG,
                value: NVMC_CONFIG_EEN,
            })
        },
    }
}

/// The flash controller is always used as it demands: it is written only after a wait,
/// pages are erased only while erasing is enabled, and in the end the flash is read only
/// and the controller at rest.
pub proof fn law_flash_controller_protocol(pages: nat)
    ensures
        forall|i: int| 0 <= i < erase_ops(pages).len() ==> access_ok(erase_ops(pages), i),
        pages > 0 ==> {
            let ops = erase_ops(pages);
            &&& ops.len() >= 2
            &&& ops[ops.len() - 2] == (RegOp::Write { reg: NVMC_CONFIG, value: NVMC_CONFIG_REN })
            &&& ops[ops.len() - 1] == wait_op()
        },
    decreases pages,
{
    if pages > 0 {
        let before = erase_ops((pages - 1) as nat);
        let page = erase_page_ops(page_addr(pages - 1) as u32);
        let ops = erase_ops(pages);
        law_flash_controller_protocol((pages - 1) as nat);
        assert forall|i: int| 0 <= i < ops.len() implies access_ok(ops, i) by {
            if i < before.len() {
                assert(access_ok(before, i));
                assert(ops[i] == before[i]);
                if i >= 1 {
                    assert(ops[i - 1] == before[i - 1]);
                }
                if i >= 2 {
                    assert(ops[i - 2] == before[i - 2]);
                }
            } else {
                let k = i - before.len();
                assert(ops[i] == page[k]);
                if k >= 1 {
                    assert(ops[i - 1] == page[k - 1]);
                }
                if k >= 2 {
                    assert(ops[i - 2] == page[k - 2]);
                }
            }
        }
    }
}

/// The chip is reset once, and that is the very last access: the reset request, with its key.
pub proof fn law_reset_comes_last(i: int)
    ensures
        ({
            let ops = erase_ops(page_count()).push(reset_op());
            &&& ops.last() == (RegOp::Write { reg: 0xE000_ED0C, value: 0x05FA_0004 })
            &&& 0 <= i < ops.len() - 1 ==> (ops[i] matches RegOp::Write { reg, .. } ==> reg
                == 0x4001_E504 || reg == 0x4001_E508)
            &&& 0 <= i < ops.len() - 1 ==> (ops[i] matches RegOp::Wait { reg } ==> reg
                == 0x4001_E400)
        }),
{
    lemma_erase_op(page_count(), i);
}

} // verus!
