//! The async ring under splice/unsplice sequences: circular, rooted at the
//! permanent head, the head never removed.

use crabefi::ehci_hw::EhciHw;

fn link_of(slot: u32) -> u32 {
    0x1000 + 0x40 * slot + 2
}

#[test]
fn head_installs_self_referential() {
    let mut hw = EhciHw::new(Vec::new(), 8, 0, true, Vec::new());
    hw.install_async_head();
    // circular from the start: the head links to itself, tagged as a QH
    assert_eq!(hw.qhs[0].horiz_link_ptr, link_of(0));
    // head-of-reclamation-list flag, overlay terminated
    assert_eq!(hw.qhs[0].ep_chars & 0x8000, 0x8000);
    assert_eq!(hw.qhs[0].overlay.next_qtd, 1);
}

#[test]
fn splice_and_unsplice_keep_the_ring_circular() {
    let mut hw = EhciHw::new(Vec::new(), 8, 0, true, Vec::new());
    hw.install_async_head();

    // splice three QHs in after the head, one at a time
    hw.ring_insert_after_head(1);
    assert_eq!(hw.qhs[0].horiz_link_ptr, link_of(1));
    assert_eq!(hw.qhs[1].horiz_link_ptr, link_of(0));

    hw.ring_insert_after_head(2);
    assert_eq!(hw.qhs[0].horiz_link_ptr, link_of(2));
    assert_eq!(hw.qhs[2].horiz_link_ptr, link_of(1));
    assert_eq!(hw.qhs[1].horiz_link_ptr, link_of(0));

    hw.ring_insert_after_head(3);
    // walk the ring by link pointers: it must return to the head, visiting
    // every member once
    let mut seen = vec![0u32];
    let mut cur = hw.qhs[0].horiz_link_ptr;
    for _ in 0..8 {
        let slot = (cur - 2 - 0x1000) / 0x40;
        if slot == 0 {
            break;
        }
        seen.push(slot);
        cur = hw.qhs[slot as usize].horiz_link_ptr;
    }
    assert_eq!(seen, vec![0, 3, 2, 1]);
    assert_eq!(cur, link_of(0));

    // unsplice them all again; the head is never the one removed
    hw.ring_remove_after_head(3);
    assert_eq!(hw.qhs[0].horiz_link_ptr, link_of(2));
    hw.ring_remove_after_head(2);
    assert_eq!(hw.qhs[0].horiz_link_ptr, link_of(1));
    hw.ring_remove_after_head(1);
    assert_eq!(hw.qhs[0].horiz_link_ptr, link_of(0));
    assert_eq!(hw.qhs[0].ep_chars & 0x8000, 0x8000);
}

#[test]
fn repeated_transfer_splices_leave_only_the_head() {
    let mut hw = EhciHw::new(Vec::new(), 8, 0, true, Vec::new());
    hw.install_async_head();
    for _ in 0..5 {
        hw.ring_insert_after_head(1);
        hw.ring_remove_after_head(1);
        assert_eq!(hw.qhs[0].horiz_link_ptr, link_of(0));
    }
}
