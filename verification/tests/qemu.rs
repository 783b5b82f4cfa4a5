use vm_runner::net_device::NetDevice;
use vm_runner::qemu::{
    QemuInstance, CPU_MODEL, DEBUG_CONSOLE_PORT, GPU_DEVICE, IOMMU_DEVICE, MACHINE_PROFILE,
    MONITOR_PROGRAM, RTC_CLOCK, SERIAL_CONSOLE, TPM_BACKEND, TPM_DEVICE, VGA_ADAPTER,
};

fn argv_of(tokens: &[&str]) -> Vec<String> {
    tokens.iter().map(|t| t.to_string()).collect()
}

fn fresh() -> QemuInstance {
    QemuInstance::new("/vm/current", "Mike-0003")
}

const IDENTITY: [&str; 2] = ["-smbios", "type=1,serial=Mike-0003"];

fn with_identity(tokens: &[&str]) -> Vec<String> {
    let mut all = argv_of(tokens);
    all.extend(argv_of(&IDENTITY));
    all
}

#[test]
fn empty_configuration_is_the_identity_alone() {
    assert_eq!(fresh().finalize(), argv_of(&["-smbios", "type=1,serial=Mike-0003"]));
}

#[test]
fn profiles_are_the_documented_ones() {
    assert_eq!(MONITOR_PROGRAM, "qemu-system-x86_64");
    assert_eq!(
        MACHINE_PROFILE,
        "q35,accel=kvm,smm=on,usb=off,dump-guest-core=off,kernel-irqchip=split"
    );
    assert_eq!(CPU_MODEL, "host");
    assert_eq!(IOMMU_DEVICE, "intel-iommu,intremap=on,caching-mode=on,aw-bits=48");
    assert_eq!(SERIAL_CONSOLE, "mon:stdio");
    assert_eq!(RTC_CLOCK, "base=utc,clock=rt");
    assert_eq!(TPM_BACKEND, "emulator,id=tpm0,chardev=chrtpm");
    assert_eq!(TPM_DEVICE, "tpm-tis,tpmdev=tpm0");
    assert_eq!(VGA_ADAPTER, "std");
    assert_eq!(GPU_DEVICE, "virtio-gpu-pci");
    assert_eq!(DEBUG_CONSOLE_PORT, "isa-debugcon.iobase=0x402");
}

#[test]
fn machine_adds_the_profile() {
    assert_eq!(
        fresh().machine().finalize(),
        with_identity(&[
            "-machine",
            "q35,accel=kvm,smm=on,usb=off,dump-guest-core=off,kernel-irqchip=split",
        ])
    );
}

#[test]
fn cpu_adds_the_host_model() {
    assert_eq!(fresh().cpu().finalize(), with_identity(&["-cpu", "host"]));
}

#[test]
fn iommu_adds_the_device() {
    assert_eq!(
        fresh().iommu().finalize(),
        with_identity(&["-device", "intel-iommu,intremap=on,caching-mode=on,aw-bits=48"])
    );
}

#[test]
fn serial_adds_the_console() {
    assert_eq!(fresh().serial().finalize(), with_identity(&["-serial", "mon:stdio"]));
}

#[test]
fn video_adds_the_display() {
    assert_eq!(fresh().video("sdl").finalize(), with_identity(&["-display", "sdl"]));
}

#[test]
fn ram_adds_the_size_in_decimal() {
    assert_eq!(fresh().ram(512).finalize(), with_identity(&["-m", "512"]));
    assert_eq!(fresh().ram(4096).finalize(), with_identity(&["-m", "4096"]));
    assert_eq!(fresh().ram(0).finalize(), with_identity(&["-m", "0"]));
}

#[test]
fn rtc_adds_the_clock() {
    assert_eq!(fresh().rtc().finalize(), with_identity(&["-rtc", "base=utc,clock=rt"]));
}

#[test]
fn firmware_code_drive_resolves_under_the_base_path() {
    assert_eq!(
        fresh().bios_file("OVMF_CODE.fd", 0).finalize(),
        with_identity(&[
            "-drive",
            "if=pflash,format=raw,unit=0,readonly=on,file=/vm/current/installer/firmware/OVMF_CODE.fd",
        ])
    );
}

#[test]
fn firmware_variable_store_takes_the_second_unit() {
    assert_eq!(
        fresh().bios_file("OVMF_VARS.fd", 1).finalize(),
        with_identity(&[
            "-drive",
            "if=pflash,format=raw,unit=1,readonly=on,file=/vm/current/installer/firmware/OVMF_VARS.fd",
        ])
    );
}

#[test]
fn disk_drive_resolves_under_the_base_path() {
    assert_eq!(
        fresh().drive("live.qcow2").finalize(),
        with_identity(&["-drive", "file=/vm/current/live.qcow2,format=qcow2,id=uefi-disk"])
    );
}

#[test]
fn tpm_points_at_the_socket_of_the_serial_number() {
    assert_eq!(
        fresh().tpm().finalize(),
        with_identity(&[
            "-tpmdev",
            "emulator,id=tpm0,chardev=chrtpm",
            "-device",
            "tpm-tis,tpmdev=tpm0",
            "-chardev",
            "socket,id=chrtpm,path=./tpms/Mike-0003/swtpm-sock",
        ])
    );
}

#[test]
fn vga_graphical_adds_the_adapter() {
    assert_eq!(fresh().vga(true).finalize(), with_identity(&["-vga", "std"]));
}

#[test]
fn vga_headless_adds_one_flag() {
    assert_eq!(fresh().vga(false).finalize(), with_identity(&["-nographic"]));
}

#[test]
fn append_adds_the_kernel_command_line() {
    assert_eq!(
        fresh().append("console=ttyS1").finalize(),
        with_identity(&["-append", "console=ttyS1"])
    );
}

#[test]
fn virtio_gpu_adds_the_device() {
    assert_eq!(fresh().virtio_gpu().finalize(), with_identity(&["-device", "virtio-gpu-pci"]));
}

#[test]
fn gdb_adds_both_flags() {
    assert_eq!(fresh().gdb().finalize(), with_identity(&["-s", "-S"]));
}

#[test]
fn debug_log_adds_console_and_port() {
    assert_eq!(
        fresh().uefi_debug_log("debug.log").finalize(),
        with_identity(&[
            "-debugcon",
            "file:debug.log",
            "-global",
            "isa-debugcon.iobase=0x402",
        ])
    );
}

#[test]
fn serial_number_is_kept() {
    assert_eq!(fresh().machine().serial_number(), "Mike-0003");
}

#[test]
fn network_devices_come_after_all_direct_flags() {
    let argv = fresh()
        .net(NetDevice::new("eth0").mask("192.168.1.0/24"))
        .machine()
        .net(NetDevice::new("eth1"))
        .cpu()
        .finalize();
    assert_eq!(
        argv,
        with_identity(&[
            "-machine",
            "q35,accel=kvm,smm=on,usb=off,dump-guest-core=off,kernel-irqchip=split",
            "-cpu",
            "host",
            "-netdev",
            "user,id=eth0,net=192.168.1.0/24",
            "-device",
            "virtio-net-pci,netdev=eth0,romfile=",
            "-netdev",
            "user,id=eth1",
            "-device",
            "virtio-net-pci,netdev=eth1,romfile=",
        ])
    );
}

#[test]
fn direct_flags_keep_call_order() {
    let one = fresh().cpu().machine().finalize();
    let other = fresh().machine().cpu().finalize();
    assert_ne!(one, other);
    assert_eq!(one[0], "-cpu");
    assert_eq!(one[2], "-machine");
    assert_eq!(other[0], "-machine");
    assert_eq!(other[2], "-cpu");
}

#[test]
fn repeated_calls_repeat_their_flags() {
    assert_eq!(
        fresh().cpu().cpu().finalize(),
        with_identity(&["-cpu", "host", "-cpu", "host"])
    );
}

#[test]
fn example_with_ram_network_and_tpm() {
    let argv = QemuInstance::new("/vm/current", "Mike-0003")
        .ram(512)
        .net(
            NetDevice::new("eth0")
                .mask("192.168.1.0/24")
                .dhcp_start("192.168.1.10")
                .port_forward(2222, 22),
        )
        .tpm()
        .finalize();
    let n = argv.len();
    assert_eq!(n, 14);
    assert_eq!(
        argv[8..12].to_vec(),
        argv_of(&[
            "-netdev",
            "user,id=eth0,net=192.168.1.0/24,dhcpstart=192.168.1.10,hostfwd=tcp::2222-:22",
            "-device",
            "virtio-net-pci,netdev=eth0,romfile=",
        ])
    );
    assert_eq!(argv[n - 2], "-smbios");
    assert_eq!(argv[n - 1], "type=1,serial=Mike-0003");
    assert_eq!(argv[0..2].to_vec(), argv_of(&["-m", "512"]));
}

#[test]
fn whole_configuration() {
    let base = "/home/rucoder/zd/grub/eve/dist/amd64/current";
    let argv = QemuInstance::new(base, "Mike-0003")
        .machine()
        .cpu()
        .iommu()
        .ram(512)
        .rtc()
        .serial()
        .bios_file("OVMF_CODE.fd", 0)
        .bios_file("OVMF_VARS.fd", 1)
        .drive("live.qcow2")
        .net(
            NetDevice::new("eth0")
                .port_forward(2222, 22)
                .mask("192.168.1.0/24")
                .dhcp_start("192.168.1.10"),
        )
        .net(NetDevice::new("eth1").mask("192.168.2.0/24").dhcp_start("192.168.2.10"))
        .tpm()
        .vga(false)
        .uefi_debug_log("debug.log")
        .finalize();
    let code = format!(
        "if=pflash,format=raw,unit=0,readonly=on,file={}/installer/firmware/OVMF_CODE.fd",
        base
    );
    let vars = format!(
        "if=pflash,format=raw,unit=1,readonly=on,file={}/installer/firmware/OVMF_VARS.fd",
        base
    );
    let disk = format!("file={}/live.qcow2,format=qcow2,id=uefi-disk", base);
    assert_eq!(
        argv,
        argv_of(&[
            "-machine",
            "q35,accel=kvm,smm=on,usb=off,dump-guest-core=off,kernel-irqchip=split",
            "-cpu",
            "host",
            "-device",
            "intel-iommu,intremap=on,caching-mode=on,aw-bits=48",
            "-m",
            "512",
            "-rtc",
            "base=utc,clock=rt",
            "-serial",
            "mon:stdio",
            "-drive",
            &code,
            "-drive",
            &vars,
            "-drive",
            &disk,
            "-tpmdev",
            "emulator,id=tpm0,chardev=chrtpm",
            "-device",
            "tpm-tis,tpmdev=tpm0",
            "-chardev",
            "socket,id=chrtpm,path=./tpms/Mike-0003/swtpm-sock",
            "-nographic",
            "-debugcon",
            "file:debug.log",
            "-global",
            "isa-debugcon.iobase=0x402",
            "-netdev",
            "user,id=eth0,net=192.168.1.0/24,dhcpstart=192.168.1.10,hostfwd=tcp::2222-:22",
            "-device",
            "virtio-net-pci,netdev=eth0,romfile=",
            "-netdev",
            "user,id=eth1,net=192.168.2.0/24,dhcpstart=192.168.2.10",
            "-device",
            "virtio-net-pci,netdev=eth1,romfile=",
            "-smbios",
            "type=1,serial=Mike-0003",
        ])
    );
}

#[test]
fn same_calls_give_the_same_vector() {
    let build = || {
        fresh()
            .machine()
            .ram(512)
            .net(NetDevice::new("eth0").port_forward(2222, 22))
            .tpm()
            .finalize()
    };
    assert_eq!(build(), build());
}

#[test]
fn identity_is_last_whatever_was_called() {
    let argv = fresh().gdb().vga(false).net(NetDevice::new("a")).append("x").finalize();
    let n = argv.len();
    assert_eq!(argv[n - 2], "-smbios");
    assert_eq!(argv[n - 1], "type=1,serial=Mike-0003");
    let other = QemuInstance::new("", "").finalize();
    assert_eq!(other, argv_of(&["-smbios", "type=1,serial="]));
}
