use hadron_kernel::dev::drivers::qemu::vga::{VgaAction, VgaEvent, VgaInitState};

#[test]
fn known_card_is_brought_up_in_order() {
    let steps = [
        (VgaEvent::Ready, VgaAction::ReadId),
        (VgaEvent::Id(0xB0C5), VgaAction::ReadEndianness),
        (VgaEvent::Endianness(0x1e1e1e1e), VgaAction::WriteEnable(0)),
        (VgaEvent::Written, VgaAction::WriteResolution(800, 600, 32)),
        (VgaEvent::Written, VgaAction::WriteEnable(0x41)),
        (VgaEvent::Written, VgaAction::ReadResolution),
        (VgaEvent::Resolution(800, 600, 32), VgaAction::ReadVirtualSize),
        // 800 * 600 * 4 bytes = 1_920_000 bytes = 469 pages (rounded up)
        (VgaEvent::VirtualSize(800, 600), VgaAction::MapFramebuffer(469)),
        (VgaEvent::Mapped, VgaAction::Finish(true)),
    ];
    let mut state = VgaInitState::Start;
    for (event, action) in steps {
        let (next, got) = state.step(event);
        assert_eq!(got, action);
        state = next;
    }
    assert_eq!(state, VgaInitState::Done);
}

#[test]
fn unknown_card_fails_before_any_write() {
    let (state, action) = VgaInitState::Start.step(VgaEvent::Ready);
    assert_eq!(action, VgaAction::ReadId);
    let (state, action) = state.step(VgaEvent::Id(0xB0C0));
    assert_eq!(action, VgaAction::Finish(false));
    assert_eq!(state, VgaInitState::Failed);
    assert_eq!(state.step(VgaEvent::Mapped), (VgaInitState::Failed, VgaAction::Finish(false)));
}

#[test]
fn out_of_order_event_fails() {
    assert_eq!(
        VgaInitState::Disabling.step(VgaEvent::Mapped),
        (VgaInitState::Failed, VgaAction::Finish(false))
    );
    assert_eq!(
        VgaInitState::Done.step(VgaEvent::Ready),
        (VgaInitState::Failed, VgaAction::Finish(false))
    );
}

#[test]
fn framebuffer_pages_follow_the_reported_depth() {
    let (state, _) = VgaInitState::ReadingResolution.step(VgaEvent::Resolution(640, 480, 16));
    assert_eq!(state, VgaInitState::ReadingVirtualSize { bpp: 16 });
    // 1024 * 768 * 2 bytes = 1_572_864 bytes = exactly 384 pages
    assert_eq!(state.step(VgaEvent::VirtualSize(1024, 768)).1, VgaAction::MapFramebuffer(384));
}
