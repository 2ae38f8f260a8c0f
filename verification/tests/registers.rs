use laranja_kernel::usb::ConfigRegister;
use laranja_kernel::usb::Doorbell;
use laranja_kernel::usb::HccParams1;
use laranja_kernel::usb::HscParam1;
use laranja_kernel::usb::HscParam2;
use laranja_kernel::usb::UsbCmd;
use laranja_kernel::usb::UsbSts;
use laranja_kernel::volatile::Volatile;

#[test]
fn structural_parameters_1_fields() {
    let params = HscParam1::new(0x0800_0420);
    assert_eq!(params.max_device_slots(), 0x20);
    assert_eq!(params.max_ports(), 0x08);
    assert_eq!(params.raw(), 0x0800_0420);
    assert_eq!(HscParam1::new(0xffff_ffff).max_device_slots(), 0xff);
    assert_eq!(HscParam1::new(0x00ff_ff00).max_ports(), 0);
}

#[test]
fn scratchpad_count_joins_high_and_low_bits() {
    assert_eq!(HscParam2::new(0).max_scratchpad_buf(), 0);
    assert_eq!(HscParam2::new(1 << 27).max_scratchpad_buf(), 1);
    assert_eq!(HscParam2::new(0x1f << 27).max_scratchpad_buf(), 31);
    assert_eq!(HscParam2::new(1 << 21).max_scratchpad_buf(), 32);
    assert_eq!(HscParam2::new(0x1f << 21).max_scratchpad_buf(), 31 << 5);
    assert_eq!(HscParam2::new(0xffff_ffff).max_scratchpad_buf(), 1023);
    assert_eq!(HscParam2::new(0x001f_ffff).max_scratchpad_buf(), 0);
    assert_eq!(HscParam2::new(2 << 21 | 3 << 27).max_scratchpad_buf(), 67);
}

#[test]
fn capability_parameters_1_fields() {
    let params = HccParams1::new(0x0200_ef05);
    assert_eq!(params.xecp(), 0x0200);
    assert!(params.context_size());
    assert!(!HccParams1::new(0xffff_fffb).context_size());
    assert_eq!(HccParams1::new(0xffff_fffb).xecp(), 0xffff);
}

#[test]
fn command_bits_are_where_the_controller_expects_them() {
    let mut cmd = UsbCmd::new(0);
    cmd.set_run_stop(true);
    assert_eq!(cmd.raw(), 1 << 0);
    cmd.set_host_controller_reset(true);
    assert_eq!(cmd.raw(), 0b11);
    cmd.set_interrupt_enable(true);
    assert_eq!(cmd.raw(), 0b111);
    cmd.set_host_system_error_enable(true);
    assert_eq!(cmd.raw(), 0b1111);
    cmd.set_enable_wrap_event(true);
    assert_eq!(cmd.raw(), 0b100_0000_1111);
    assert!(cmd.run_stop());
    assert!(cmd.host_controller_reset());
    assert!(cmd.interrupt_enable());
    assert!(cmd.host_system_error_enable());
    assert!(cmd.enable_wrap_event());
    cmd.set_interrupt_enable(false);
    assert_eq!(cmd.raw(), 0b100_0000_1011);
    assert!(!cmd.interrupt_enable());
}

#[test]
fn command_setters_leave_other_bits() {
    let mut cmd = UsbCmd::new(0xffff_ffff);
    cmd.set_run_stop(false);
    assert_eq!(cmd.raw(), 0xffff_fffe);
    cmd.set_enable_wrap_event(false);
    assert_eq!(cmd.raw(), 0xffff_fbfe);
    cmd.set_host_system_error_enable(false);
    assert_eq!(cmd.raw(), 0xffff_fbf6);
    cmd.set_host_controller_reset(false);
    assert_eq!(cmd.raw(), 0xffff_fbf4);
    cmd.set_host_controller_reset(false);
    assert_eq!(cmd.raw(), 0xffff_fbf4);
    assert!(!cmd.run_stop());
    assert!(cmd.interrupt_enable());
}

#[test]
fn status_bits() {
    assert!(UsbSts::new(1).hc_halted());
    assert!(!UsbSts::new(0xffff_fffe).hc_halted());
    assert!(UsbSts::new(1 << 11).controller_not_ready());
    assert!(!UsbSts::new(!(1u32 << 11)).controller_not_ready());
    assert_eq!(UsbSts::new(0x801).raw(), 0x801);
}

#[test]
fn config_ors_the_slot_count() {
    let mut config = ConfigRegister::new(0);
    config.set_max_device_slots_enabled(0x20);
    assert_eq!(config.raw(), 0x20);
    assert_eq!(config.max_device_slots_enabled(), 0x20);
    let mut config = ConfigRegister::new(0x0000_0305);
    config.set_max_device_slots_enabled(0x40);
    assert_eq!(config.raw(), 0x0000_0345);
    assert_eq!(config.max_device_slots_enabled(), 0x45);
}

#[test]
fn doorbell_target_replaces_low_byte() {
    let mut doorbell = Doorbell::new(0);
    doorbell.set_db_target(0x1f);
    assert_eq!(doorbell.raw(), 0x1f);
    let mut doorbell = Doorbell::new(0xabcd_12ff);
    doorbell.set_db_target(0x01);
    assert_eq!(doorbell.raw(), 0xabcd_1201);
}

#[test]
fn doorbell_stream_id_replaces_high_half() {
    let mut doorbell = Doorbell::new(0);
    doorbell.set_db_stream_id(0xbeef);
    assert_eq!(doorbell.raw(), 0xbeef_0000);
    let mut doorbell = Doorbell::new(0xffff_1234);
    doorbell.set_db_stream_id(0x0001);
    assert_eq!(doorbell.raw(), 0x0001_1234);
    doorbell.set_db_target(0);
    assert_eq!(doorbell.raw(), 0x0001_1200);
}

#[test]
fn register_reads_back_what_was_written() {
    let mut register = Volatile::new(7u16);
    assert_eq!(register.read(), 7);
    register.write(9);
    assert_eq!(register.read(), 9);
}

#[test]
fn modify_is_read_change_write() {
    let mut register = Volatile::new(UsbCmd::new(0xffff_ffff));
    register.modify(|usbcmd| {
        usbcmd.set_interrupt_enable(false);
        usbcmd.set_host_system_error_enable(false);
        usbcmd.set_enable_wrap_event(false);
    });
    assert_eq!(register.read().raw(), 0xffff_fbf3);
    let mut plain = Volatile::new(5u32);
    plain.modify(|value| *value += 1);
    assert_eq!(plain.read(), 6);
}
