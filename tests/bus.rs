use lpc55_usbhs::{
    EndpointAddress, EndpointType, PollResult, UsbDirection, UsbError, UsbHS, UsbHSBus,
    EP_MEM_ADDR, NUM_ENDPOINTS,
};

fn addr(index: usize, direction: UsbDirection) -> EndpointAddress {
    EndpointAddress { index, direction }
}

fn out(index: usize) -> EndpointAddress {
    addr(index, UsbDirection::Out)
}

fn inn(index: usize) -> EndpointAddress {
    addr(index, UsbDirection::In)
}

/// A bus with a control endpoint (64 bytes) and a bulk pair on endpoint 1
/// and endpoint 2, enabled.
fn enabled_bus() -> UsbHSBus {
    let mut bus = UsbHSBus::new(UsbHS::new());
    assert_eq!(
        bus.alloc_ep(UsbDirection::Out, Some(out(0)), EndpointType::Control, 64, 0),
        Ok(out(0))
    );
    assert_eq!(
        bus.alloc_ep(UsbDirection::In, Some(inn(0)), EndpointType::Control, 64, 0),
        Ok(inn(0))
    );
    assert_eq!(bus.alloc_ep(UsbDirection::Out, None, EndpointType::Bulk, 64, 0), Ok(out(1)));
    assert_eq!(bus.alloc_ep(UsbDirection::In, None, EndpointType::Bulk, 64, 0), Ok(inn(1)));
    assert_eq!(bus.alloc_ep(UsbDirection::Out, None, EndpointType::Interrupt, 8, 0), Ok(out(2)));
    bus.enable();
    bus
}

#[test]
fn unaddressed_allocation_starts_at_one() {
    let mut bus = UsbHSBus::new(UsbHS::new());
    assert_eq!(bus.alloc_ep(UsbDirection::In, None, EndpointType::Bulk, 64, 0), Ok(inn(1)));
    // Same type, other direction: shares endpoint 1.
    assert_eq!(bus.alloc_ep(UsbDirection::Out, None, EndpointType::Bulk, 64, 0), Ok(out(1)));
    // Endpoint 1 is full in this direction, so the next one goes to 2.
    assert_eq!(bus.alloc_ep(UsbDirection::Out, None, EndpointType::Bulk, 64, 0), Ok(out(2)));
}

#[test]
fn fixed_address_of_other_type_is_invalid() {
    let mut bus = UsbHSBus::new(UsbHS::new());
    assert_eq!(
        bus.alloc_ep(UsbDirection::In, Some(inn(3)), EndpointType::Bulk, 64, 0),
        Ok(inn(3))
    );
    assert_eq!(
        bus.alloc_ep(UsbDirection::Out, Some(out(3)), EndpointType::Interrupt, 64, 0),
        Err(UsbError::InvalidEndpoint)
    );
    // The same direction twice is refused too.
    assert_eq!(
        bus.alloc_ep(UsbDirection::In, Some(inn(3)), EndpointType::Bulk, 64, 0),
        Err(UsbError::InvalidEndpoint)
    );
}

#[test]
fn address_out_of_range_is_invalid() {
    let mut bus = UsbHSBus::new(UsbHS::new());
    assert_eq!(
        bus.alloc_ep(UsbDirection::In, Some(inn(NUM_ENDPOINTS)), EndpointType::Bulk, 64, 0),
        Err(UsbError::InvalidEndpoint)
    );
}

#[test]
fn all_slots_of_other_type_overflow() {
    let mut bus = UsbHSBus::new(UsbHS::new());
    for i in 1..NUM_ENDPOINTS {
        assert_eq!(bus.alloc_ep(UsbDirection::In, None, EndpointType::Bulk, 16, 0), Ok(inn(i)));
    }
    assert_eq!(
        bus.alloc_ep(UsbDirection::Out, None, EndpointType::Interrupt, 16, 0),
        Err(UsbError::EndpointOverflow)
    );
    // Bulk OUT still fits next to the bulk IN buffers.
    assert_eq!(bus.alloc_ep(UsbDirection::Out, None, EndpointType::Bulk, 16, 0), Ok(out(1)));
}

#[test]
fn too_large_buffer_overflows_memory_and_changes_nothing() {
    let mut bus = UsbHSBus::new(UsbHS::new());
    assert_eq!(
        bus.alloc_ep(UsbDirection::In, None, EndpointType::Bulk, u16::MAX, 0),
        Err(UsbError::EndpointMemoryOverflow)
    );
    // Endpoint 1 is still free, also for another type.
    assert_eq!(bus.alloc_ep(UsbDirection::In, None, EndpointType::Interrupt, 8, 0), Ok(inn(1)));
}

#[test]
fn control_endpoint_gets_out_setup_and_in_buffers() {
    let bus = enabled_bus();
    let regs = &bus.usb_regs;
    // OUT buffer of 65 bytes at 128, setup buffer of 8 at 256, IN buffer at 320.
    assert!(regs.ep_out[0].active);
    assert_eq!(regs.ep_out[0].nbytes, 65);
    assert_eq!(regs.ep_out[0].addr, (EP_MEM_ADDR + 128) as u32);
    assert_eq!(regs.setup_desc.addr, (EP_MEM_ADDR + 256) as u32);
    assert!(!regs.ep_in[0].active);
    assert_eq!(regs.ep_in[0].addr, (EP_MEM_ADDR + 320) as u32);
}

#[test]
fn enable_programs_device_registers() {
    let bus = enabled_bus();
    let regs = &bus.usb_regs;
    assert!(regs.dev_en && regs.dcon);
    assert!(!regs.phy_clkgate);
    assert_eq!(regs.databufstart, 0x4010_0000);
    assert_eq!(regs.epliststart, 0x40_1000);
    assert_eq!(regs.inten, 0x8000_0fff);
    // Endpoints past the last allocated one stay unprogrammed.
    assert_eq!(regs.ep_out[3].addr, 0);
}

#[test]
fn reset_has_priority_over_suspend() {
    let mut bus = enabled_bus();
    bus.usb_regs.dres_c = true;
    bus.usb_regs.dsus_c = true;
    assert_eq!(bus.poll(), PollResult::Reset);
    assert!(!bus.usb_regs.dres_c);
    assert_eq!(bus.poll(), PollResult::Suspend);
    // Suspend stays reported.
    assert_eq!(bus.poll(), PollResult::Suspend);
}

#[test]
fn poll_reports_out_and_in_complete_masks() {
    let mut bus = enabled_bus();
    // OUT packet of 5 bytes received on endpoint 2; IN done on endpoint 0.
    bus.usb_regs.ep_out[2].active = false;
    bus.usb_regs.ep_out[2].nbytes = 5;
    bus.usb_regs.ep_in[0].active = true;
    bus.usb_regs.intstat = (1 << 4) | (1 << 1) | (1 << 31);
    assert_eq!(
        bus.poll(),
        PollResult::Data { ep_out: 0b100, ep_in_complete: 0b1, ep_setup: 0 }
    );
    assert!(!bus.usb_regs.ep_in[0].active);
    // Every reported event and the device interrupt are acknowledged.
    assert_eq!(bus.usb_regs.intstat, 0);
    assert_eq!(bus.poll(), PollResult::Idle);
    // The packet itself is still there to be read.
    let mut buf = [0u8; 8];
    assert_eq!(bus.read(out(2), &mut buf), Ok(5));
    assert_eq!(bus.poll(), PollResult::Idle);
}

#[test]
fn poll_without_events_is_idle() {
    let mut bus = enabled_bus();
    assert_eq!(bus.poll(), PollResult::Idle);
}

#[test]
fn poll_reports_setup_on_control_endpoint() {
    let mut bus = enabled_bus();
    bus.usb_regs.setup = true;
    bus.usb_regs.intstat = 1;
    assert_eq!(
        bus.poll(),
        PollResult::Data { ep_out: 0, ep_in_complete: 0, ep_setup: 1 }
    );
    let mut buf = [0u8; 8];
    assert_eq!(bus.read(out(0), &mut buf), Ok(8));
    assert!(!bus.usb_regs.setup);
    assert_eq!(bus.poll(), PollResult::Idle);
}

#[test]
fn poll_ignores_in_interrupt_while_active() {
    let mut bus = enabled_bus();
    bus.usb_regs.ep_in[1].active = true;
    bus.usb_regs.intstat = 1 << 3;
    assert_eq!(bus.poll(), PollResult::Idle);
    assert_eq!(bus.usb_regs.intstat, 1 << 3);
    bus.usb_regs.ep_in[1].active = false;
    assert_eq!(
        bus.poll(),
        PollResult::Data { ep_out: 0, ep_in_complete: 0b10, ep_setup: 0 }
    );
    assert_eq!(bus.usb_regs.intstat, 0);
}

#[test]
fn poll_ignores_endpoints_past_the_last_allocated() {
    let mut bus = enabled_bus();
    bus.usb_regs.intstat = 1 << 6;
    assert_eq!(bus.poll(), PollResult::Idle);
}

#[test]
fn stall_twice_is_stall_once() {
    let mut bus = enabled_bus();
    assert!(!bus.is_stalled(inn(1)));
    assert!(bus.set_stalled(inn(1), true));
    let once = bus.usb_regs.ep_in[1];
    assert!(bus.set_stalled(inn(1), true));
    assert_eq!(bus.usb_regs.ep_in[1], once);
    assert!(bus.is_stalled(inn(1)));
    assert!(bus.set_stalled(inn(1), false));
    assert!(!bus.is_stalled(inn(1)));
}

#[test]
fn stall_waits_for_active_transfer() {
    let mut bus = enabled_bus();
    // OUT endpoint 1 is armed after enable.
    assert!(bus.usb_regs.ep_out[1].active);
    assert!(!bus.set_stalled(out(1), true));
    assert!(!bus.is_stalled(out(1)));
    bus.usb_regs.ep_out[1].active = false;
    assert!(bus.set_stalled(out(1), true));
    assert!(bus.is_stalled(out(1)));
    // The control endpoint does not wait.
    assert!(bus.usb_regs.ep_out[0].active);
    assert!(bus.set_stalled(out(0), true));
    assert!(bus.is_stalled(out(0)));
}

#[test]
fn write_arms_in_transfer() {
    let mut bus = enabled_bus();
    assert_eq!(bus.write(inn(1), &[1, 2, 3]), Ok(3));
    assert!(bus.usb_regs.ep_in[1].active);
    assert_eq!(bus.usb_regs.ep_in[1].nbytes, 3);
    assert_eq!(bus.write(inn(1), &[4]), Err(UsbError::WouldBlock));
    bus.usb_regs.ep_in[1].active = false;
    assert_eq!(bus.write(inn(1), &[0u8; 65]), Err(UsbError::BufferOverflow));
    assert_eq!(bus.write(out(1), &[1]), Err(UsbError::InvalidEndpoint));
    assert_eq!(bus.write(inn(2), &[1]), Err(UsbError::InvalidEndpoint));
}

#[test]
fn read_validates_direction_and_pending_data() {
    let mut bus = enabled_bus();
    let mut buf = [0u8; 64];
    assert_eq!(bus.read(inn(1), &mut buf), Err(UsbError::InvalidEndpoint));
    assert_eq!(bus.read(out(NUM_ENDPOINTS), &mut buf), Err(UsbError::InvalidEndpoint));
    assert_eq!(bus.read(out(1), &mut buf), Err(UsbError::WouldBlock));
    bus.usb_regs.ep_out[1].active = false;
    bus.usb_regs.ep_out[1].nbytes = 10;
    let mut small = [0u8; 4];
    assert_eq!(bus.read(out(1), &mut small), Err(UsbError::BufferOverflow));
    let mut buf = [0xaau8; 64];
    assert_eq!(bus.read(out(1), &mut buf), Ok(10));
    // Exactly the received bytes are copied.
    assert_eq!(buf[..10], [0u8; 10]);
    assert_eq!(buf[10..], [0xaau8; 54]);
    // Re-armed for the next packet.
    assert!(bus.usb_regs.ep_out[1].active);
    assert_eq!(bus.usb_regs.ep_out[1].nbytes, 64);
}

#[test]
fn reset_clears_address_and_interrupts() {
    let mut bus = enabled_bus();
    bus.set_device_address(42);
    assert_eq!(bus.usb_regs.dev_addr, 42);
    bus.usb_regs.intstat = 0xffff_ffff;
    assert!(bus.set_stalled(inn(1), true));
    bus.reset();
    assert_eq!(bus.usb_regs.dev_addr, 0);
    assert_eq!(bus.usb_regs.intstat, 0);
    assert!(!bus.is_stalled(inn(1)));
    assert!(bus.usb_regs.ep_out[1].active);
}

#[test]
fn resume_clears_suspend_bits() {
    let mut bus = enabled_bus();
    bus.usb_regs.dsus = true;
    bus.usb_regs.lpm_sus = true;
    bus.resume();
    assert!(!bus.usb_regs.dsus);
    assert!(bus.usb_regs.lpm_sus);
    bus.usb_regs.lpm_rewp = true;
    bus.resume();
    assert!(!bus.usb_regs.lpm_sus);
    bus.suspend();
}

#[test]
fn control_out_allocated_once() {
    let mut bus = enabled_bus();
    let setup_addr = bus.usb_regs.setup_desc.addr;
    assert_eq!(
        bus.alloc_ep(UsbDirection::Out, Some(out(0)), EndpointType::Control, 64, 0),
        Err(UsbError::InvalidEndpoint)
    );
    bus.enable();
    assert_eq!(bus.usb_regs.setup_desc.addr, setup_addr);
}

#[test]
fn enable_turns_on_endpoint_five_in_interrupt() {
    let bus = enabled_bus();
    assert_ne!(bus.usb_regs.inten & (1 << 11), 0);
}
