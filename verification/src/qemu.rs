//! The launch configuration of one virtual machine: an append-only builder of
//! monitor arguments.

use crate::emulator::{socket_path, socket_text};
use crate::net_device::{NetDevice, NetDeviceView};
use crate::text::{decimal, decimal_string, lemma_texts_concat, lemma_texts_push, texts, Text};
use vstd::prelude::*;
use vstd::string::*;

verus! {

/// The monitor program.
pub const MONITOR_PROGRAM: &'static str = "qemu-system-x86_64";

/// The chipset and virtualization profile of the machine.
pub const MACHINE_PROFILE: &'static str =
    "q35,accel=kvm,smm=on,usb=off,dump-guest-core=off,kernel-irqchip=split";

/// The CPU model: that of the host.
pub const CPU_MODEL: &'static str = "host";

/// The emulated IOMMU.
pub const IOMMU_DEVICE: &'static str = "intel-iommu,intremap=on,caching-mode=on,aw-bits=48";

/// The serial port, joined with the monitor on the controlling terminal.
pub const SERIAL_CONSOLE: &'static str = "mon:stdio";

/// The real-time clock: UTC, driven by the host's clock.
pub const RTC_CLOCK: &'static str = "base=utc,clock=rt";

/// The TPM back end, which reaches the emulator through the character device.
pub const TPM_BACKEND: &'static str = "emulator,id=tpm0,chardev=chrtpm";

/// The TPM device that the guest sees.
pub const TPM_DEVICE: &'static str = "tpm-tis,tpmdev=tpm0";

/// The standard VGA adapter.
pub const VGA_ADAPTER: &'static str = "std";

/// The paravirtual GPU.
pub const GPU_DEVICE: &'static str = "virtio-gpu-pci";

/// The I/O port of the firmware's debug console.
pub const DEBUG_CONSOLE_PORT: &'static str = "isa-debugcon.iobase=0x402";

/// A launch configuration under construction.
#[derive(Debug)]
pub struct QemuInstance {
    cmd: Vec<String>,
    nets: Vec<NetDevice>,
    base_path: String,
    eve_serial: String,
}

/// What a `QemuInstance` holds, as mathematical values.
pub struct QemuInstanceView {
    /// The arguments added so far, network devices aside.
    pub cmd: Seq<Text>,
    /// The network devices added so far.
    pub nets: Seq<NetDeviceView>,
    /// The directory under which firmware and disk images lie.
    pub base_path: Text,
    /// The serial number of the machine.
    pub serial: Text,
}

/// One call of a builder method, as data.
pub enum Call {
    Machine,
    Cpu,
    Iommu,
    Serial,
    Video(Text),
    Ram(u32),
    Rtc,
    BiosFile(Text, u32),
    Drive(Text),
    Net(NetDeviceView),
    Tpm,
    Vga(bool),
    Append(Text),
    VirtioGpu,
    Gdb,
    UefiDebugLog(Text),
}

/// The parameter of a firmware flash drive.
pub open spec fn firmware_param(base_path: Text, file: Text, segment: u32) -> Text {
    "if=pflash,format=raw,unit="@ + decimal(segment as nat) + ",readonly=on,file="@ + base_path
        + "/installer/firmware/"@ + file
}

/// The parameter of the boot disk.
pub open spec fn disk_param(base_path: Text, image: Text) -> Text {
    "file="@ + base_path + "/"@ + image + ",format=qcow2,id=uefi-disk"@
}

/// The character device that connects the TPM to the emulator's socket.
pub open spec fn tpm_chardev_param(serial: Text) -> Text {
    "socket,id=chrtpm,path="@ + socket_text(serial)
}

/// The value of the trailing identity argument.
pub open spec fn identity_param(serial: Text) -> Text {
    "type=1,serial="@ + serial
}

impl Call {
    /// The arguments that the call adds at once. A network device adds none:
    /// it is rendered when the configuration is finalized.
    pub open spec fn tokens(self, base_path: Text, serial: Text) -> Seq<Text> {
        match self {
            Call::Machine => seq!["-machine"@, MACHINE_PROFILE@],
            Call::Cpu => seq!["-cpu"@, CPU_MODEL@],
            Call::Iommu => seq!["-device"@, IOMMU_DEVICE@],
            Call::Serial => seq!["-serial"@, SERIAL_CONSOLE@],
            Call::Video(display) => seq!["-display"@, display],
            Call::Ram(megabytes) => seq!["-m"@, decimal(megabytes as nat)],
            Call::Rtc => seq!["-rtc"@, RTC_CLOCK@],
            Call::BiosFile(file, segment) => seq![
                "-drive"@,
                firmware_param(base_path, file, segment),
            ],
            Call::Drive(image) => seq!["-drive"@, disk_param(base_path, image)],
            Call::Net(_) => Seq::empty(),
            Call::Tpm => seq![
                "-tpmdev"@,
                TPM_BACKEND@,
                "-device"@,
                TPM_DEVICE@,
                "-chardev"@,
                tpm_chardev_param(serial),
            ],
            Call::Vga(gui) => if gui {
                seq!["-vga"@, VGA_ADAPTER@]
            } else {
                seq!["-nographic"@]
            },
            Call::Append(line) => seq!["-append"@, line],
            Call::VirtioGpu => seq!["-device"@, GPU_DEVICE@],
            Call::Gdb => seq!["-s"@, "-S"@],
            Call::UefiDebugLog(path) => seq![
                "-debugcon"@,
                "file:"@ + path,
                "-global"@,
                DEBUG_CONSOLE_PORT@,
            ],
        }
    }
}

/// The arguments of the given network devices, four for each, in list order.
pub open spec fn rendered(nets: Seq<NetDeviceView>) -> Seq<Text>
    decreases nets.len(),
{
    if nets.len() == 0 {
        Seq::empty()
    } else {
        rendered(nets.drop_last()) + nets.last().render()
    }
}

impl QemuInstanceView {
    /// The configuration before any call.
    pub open spec fn initial(base_path: Text, serial: Text) -> Self {
        QemuInstanceView { cmd: Seq::empty(), nets: Seq::empty(), base_path, serial }
    }

    /// The configuration after one more call.
    pub open spec fn apply(self, call: Call) -> Self {
        match call {
            Call::Net(device) => QemuInstanceView { nets: self.nets.push(device), ..self },
            _ => QemuInstanceView {
                cmd: self.cmd + call.tokens(self.base_path, self.serial),
                ..self
            },
        }
    }

    /// The configuration after the given calls, made in order.
    pub open spec fn apply_all(self, calls: Seq<Call>) -> Self
        decreases calls.len(),
    {
        if calls.len() == 0 {
            self
        } else {
            self.apply_all(calls.drop_last()).apply(calls.last())
        }
    }

    /// The identity argument and its value.
    pub open spec fn identity(self) -> Seq<Text> {
        seq!["-smbios"@, identity_param(self.serial)]
    }

    /// The complete argument vector: the direct arguments, then the network
    /// devices, then the identity.
    pub open spec fn argv(self) -> Seq<Text> {
        self.cmd + rendered(self.nets) + self.identity()
    }
}

/// The direct arguments of `calls`: what each call adds at once, in call
/// order.
pub open spec fn direct_tokens(calls: Seq<Call>, base_path: Text, serial: Text) -> Seq<Text>
    decreases calls.len(),
{
    if calls.len() == 0 {
        Seq::empty()
    } else {
        direct_tokens(calls.drop_last(), base_path, serial) + calls.last().tokens(
            base_path,
            serial,
        )
    }
}

/// The network devices that `calls` add, in call order.
pub open spec fn devices_of(calls: Seq<Call>) -> Seq<NetDeviceView>
    decreases calls.len(),
{
    if calls.len() == 0 {
        Seq::empty()
    } else {
        match calls.last() {
            Call::Net(device) => devices_of(calls.drop_last()).push(device),
            _ => devices_of(calls.drop_last()),
        }
    }
}

/// A configuration built by `calls` holds their direct arguments and their
/// network devices, each in call order, and the base path and serial number
/// it began with.
pub proof fn lemma_apply_all(base_path: Text, serial: Text, calls: Seq<Call>)
    ensures
        QemuInstanceView::initial(base_path, serial).apply_all(calls) == (QemuInstanceView {
            cmd: direct_tokens(calls, base_path, serial),
            nets: devices_of(calls),
            base_path,
            serial,
        }),
    decreases calls.len(),
{
    if calls.len() > 0 {
        lemma_apply_all(base_path, serial, calls.drop_last());
    }
}

/// Every network device is rendered as four arguments.
pub proof fn lemma_rendered_len(nets: Seq<NetDeviceView>)
    ensures
        rendered(nets).len() == 4 * nets.len(),
    decreases nets.len(),
{
    if nets.len() > 0 {
        lemma_rendered_len(nets.drop_last());
    }
}

/// The four arguments of the device in place `i` stand in place `i` among
/// the blocks of four.
pub proof fn lemma_rendered_block(nets: Seq<NetDeviceView>, i: int)
    requires
        0 <= i < nets.len(),
    ensures
        rendered(nets).len() == 4 * nets.len(),
        rendered(nets).subrange(4 * i, 4 * i + 4) == nets[i].render(),
    decreases nets.len(),
{
    lemma_rendered_len(nets);
    lemma_rendered_len(nets.drop_last());
    if i == nets.len() - 1 {
        assert(rendered(nets).subrange(4 * i, 4 * i + 4) =~= nets[i].render());
    } else {
        lemma_rendered_block(nets.drop_last(), i);
        assert(rendered(nets).subrange(4 * i, 4 * i + 4) =~= rendered(
            nets.drop_last(),
        ).subrange(4 * i, 4 * i + 4));
    }
}

/// The direct arguments of the first `k` calls open the direct arguments of
/// all the calls.
pub proof fn lemma_direct_prefix(calls: Seq<Call>, base_path: Text, serial: Text, k: int)
    requires
        0 <= k <= calls.len(),
    ensures
        direct_tokens(calls.take(k), base_path, serial).len() <= direct_tokens(
            calls,
            base_path,
            serial,
        ).len(),
        direct_tokens(calls, base_path, serial).subrange(
            0,
            direct_tokens(calls.take(k), base_path, serial).len() as int,
        ) == direct_tokens(calls.take(k), base_path, serial),
    decreases calls.len(),
{
    let all = direct_tokens(calls, base_path, serial);
    let part = direct_tokens(calls.take(k), base_path, serial);
    if k == calls.len() {
        assert(calls.take(k) == calls);
        assert(all.subrange(0, all.len() as int) =~= all);
    } else {
        lemma_direct_prefix(calls.drop_last(), base_path, serial, k);
        assert(calls.drop_last().take(k) == calls.take(k));
        assert(all.subrange(0, part.len() as int) =~= direct_tokens(
            calls.drop_last(),
            base_path,
            serial,
        ).subrange(0, part.len() as int));
    }
}

/// Finalizing keeps the order of the calls and ends with the identity.
///
/// Whatever calls build a configuration from its base path and serial
/// number, its argument vector is made of three parts. First come the direct
/// arguments: each call's arguments stand together, behind those of all the
/// calls before it. Then come the network devices, four arguments each, in
/// the order they were added. The last two arguments are `-smbios` and the
/// identity with the serial number.
pub proof fn lemma_finalize_order(base_path: Text, serial: Text, calls: Seq<Call>)
    ensures
        ({
            let argv = QemuInstanceView::initial(base_path, serial).apply_all(calls).argv();
            let direct = direct_tokens(calls, base_path, serial);
            let nets = devices_of(calls);
            &&& argv.len() == direct.len() + 4 * nets.len() + 2
            &&& argv.subrange(0, direct.len() as int) == direct
            &&& forall|j: int|
                #![trigger calls[j]]
                0 <= j < calls.len() ==> {
                    let start = direct_tokens(calls.take(j), base_path, serial).len() as int;
                    let own = calls[j].tokens(base_path, serial);
                    &&& start + own.len() <= direct.len()
                    &&& argv.subrange(start, start + own.len()) == own
                }
            &&& forall|i: int|
                #![trigger nets[i]]
                0 <= i < nets.len() ==> argv.subrange(
                    direct.len() + 4 * i,
                    direct.len() + 4 * i + 4,
                ) == nets[i].render()
            &&& argv[argv.len() - 2] == "-smbios"@
            &&& argv[argv.len() - 1] == identity_param(serial)
        }),
{
    let built = QemuInstanceView::initial(base_path, serial).apply_all(calls);
    let argv = built.argv();
    let direct = direct_tokens(calls, base_path, serial);
    let nets = devices_of(calls);
    lemma_apply_all(base_path, serial, calls);
    lemma_rendered_len(nets);
    assert(argv.subrange(0, direct.len() as int) =~= direct);
    assert forall|j: int| #![trigger calls[j]] 0 <= j < calls.len() implies {
        let start = direct_tokens(calls.take(j), base_path, serial).len() as int;
        let own = calls[j].tokens(base_path, serial);
        &&& start + own.len() <= direct.len()
        &&& argv.subrange(start, start + own.len()) == own
    } by {
        let before = direct_tokens(calls.take(j), base_path, serial);
        let upto = direct_tokens(calls.take(j + 1), base_path, serial);
        let own = calls[j].tokens(base_path, serial);
        lemma_direct_prefix(calls, base_path, serial, j + 1);
        assert(calls.take(j + 1).drop_last() == calls.take(j));
        assert(calls.take(j + 1).last() == calls[j]);
        assert(upto == before + own);
        let start = before.len() as int;
        assert(argv.subrange(start, start + own.len()) =~= upto.subrange(
            start,
            start + own.len(),
        ));
        assert(upto.subrange(start, start + own.len()) =~= own);
    }
    assert forall|i: int| #![trigger nets[i]] 0 <= i < nets.len() implies argv.subrange(
        direct.len() + 4 * i,
        direct.len() + 4 * i + 4,
    ) == nets[i].render() by {
        lemma_rendered_block(nets, i);
        assert(argv.subrange(direct.len() + 4 * i, direct.len() + 4 * i + 4) =~= rendered(
            nets,
        ).subrange(4 * i, 4 * i + 4));
    }
}

/// The views of the given devices, in order.
pub open spec fn device_views(nets: Seq<NetDevice>) -> Seq<NetDeviceView> {
    Seq::new(nets.len(), |i: int| nets[i]@)
}

impl View for QemuInstance {
    type V = QemuInstanceView;

    closed spec fn view(&self) -> QemuInstanceView {
        QemuInstanceView {
            cmd: texts(self.cmd@),
            nets: device_views(self.nets@),
            base_path: self.base_path@,
            serial: self.eve_serial@,
        }
    }
}

impl QemuInstance {
    /// An empty configuration for the machine with the given serial number,
    /// whose images lie under `base_path`.
    pub fn new(base_path: &str, serial: &str) -> (instance: Self)
        ensures
            instance@ == QemuInstanceView::initial(base_path@, serial@),
    {
        let instance = QemuInstance {
            cmd: Vec::new(),
            nets: Vec::new(),
            base_path: String::from_str(base_path),
            eve_serial: String::from_str(serial),
        };
        assert(texts(instance.cmd@) =~= Seq::empty());
        assert(device_views(instance.nets@) =~= Seq::empty());
        instance
    }

    fn push_flag(self, flag: &str) -> (instance: Self)
        ensures
            instance@ == (QemuInstanceView { cmd: self@.cmd + seq![flag@], ..self@ }),
    {
        let mut instance = self;
        let token = String::from_str(flag);
        proof {
            lemma_texts_push(instance.cmd@, token);
        }
        instance.cmd.push(token);
        assert(instance@.cmd =~= self@.cmd + seq![flag@]);
        instance
    }

    fn push_pair(self, flag: &str, value: &str) -> (instance: Self)
        ensures
            instance@ == (QemuInstanceView { cmd: self@.cmd + seq![flag@, value@], ..self@ }),
    {
        let instance = self.push_flag(flag).push_flag(value);
        assert(self@.cmd + seq![flag@] + seq![value@] =~= self@.cmd + seq![flag@, value@]);
        instance
    }

    /// Selects the machine profile.
    pub fn machine(self) -> (instance: Self)
        ensures
            instance@ == self@.apply(Call::Machine),
    {
        self.push_pair("-machine", MACHINE_PROFILE)
    }

    /// Selects the CPU model.
    pub fn cpu(self) -> (instance: Self)
        ensures
            instance@ == self@.apply(Call::Cpu),
    {
        self.push_pair("-cpu", CPU_MODEL)
    }

    /// Adds the emulated IOMMU.
    pub fn iommu(self) -> (instance: Self)
        ensures
            instance@ == self@.apply(Call::Iommu),
    {
        self.push_pair("-device", IOMMU_DEVICE)
    }

    /// Wires the serial port to the controlling terminal.
    pub fn serial(self) -> (instance: Self)
        ensures
            instance@ == self@.apply(Call::Serial),
    {
        self.push_pair("-serial", SERIAL_CONSOLE)
    }

    /// Selects the display back end.
    pub fn video(self, t: &str) -> (instance: Self)
        ensures
            instance@ == self@.apply(Call::Video(t@)),
    {
        self.push_pair("-display", t)
    }

    /// Sets the memory size, in megabytes.
    pub fn ram(self, ram: u32) -> (instance: Self)
        ensures
            instance@ == self@.apply(Call::Ram(ram)),
    {
        let size = decimal_string(ram);
        self.push_pair("-m", size.as_str())
    }

    /// Selects the real-time clock.
    pub fn rtc(self) -> (instance: Self)
        ensures
            instance@ == self@.apply(Call::Rtc),
    {
        self.push_pair("-rtc", RTC_CLOCK)
    }

    /// Attaches the firmware image `file`, found under
    /// `<base_path>/installer/firmware/`, as a read-only flash drive at unit
    /// `segment`.
    pub fn bios_file(self, file: &str, segment: u32) -> (instance: Self)
        ensures
            instance@ == self@.apply(Call::BiosFile(file@, segment)),
    {
        let mut param = String::from_str("if=pflash,format=raw,unit=");
        param.append(decimal_string(segment).as_str());
        param.append(",readonly=on,file=");
        param.append(self.base_path.as_str());
        param.append("/installer/firmware/");
        param.append(file);
        self.push_pair("-drive", param.as_str())
    }

    /// Attaches the disk image `<base_path>/<image>` as the boot disk.
    pub fn drive(self, image: &str) -> (instance: Self)
        ensures
            instance@ == self@.apply(Call::Drive(image@)),
    {
        let mut param = String::from_str("file=");
        param.append(self.base_path.as_str());
        param.append("/");
        param.append(image);
        param.append(",format=qcow2,id=uefi-disk");
        self.push_pair("-drive", param.as_str())
    }

    /// Adds a network device after those already present. Its arguments
    /// appear when the configuration is finalized.
    pub fn net(self, net: NetDevice) -> (instance: Self)
        ensures
            instance@ == self@.apply(Call::Net(net@)),
    {
        let mut instance = self;
        instance.nets.push(net);
        assert(device_views(instance.nets@) =~= device_views(self.nets@).push(net@));
        instance
    }

    /// Wires the TPM device to the emulator's socket in the state directory
    /// of this machine. The emulator must listen there before the monitor
    /// starts.
    pub fn tpm(self) -> (instance: Self)
        ensures
            instance@ == self@.apply(Call::Tpm),
    {
        let mut chardev = String::from_str("socket,id=chrtpm,path=");
        chardev.append(socket_path(self.eve_serial.as_str()).as_str());
        let ghost before = self@;
        let instance = self.push_pair("-tpmdev", TPM_BACKEND).push_pair(
            "-device",
            TPM_DEVICE,
        ).push_pair("-chardev", chardev.as_str());
        assert(instance@.cmd =~= before.cmd + Call::Tpm.tokens(before.base_path, before.serial));
        instance
    }

    /// Selects the display mode: a standard VGA adapter when `gui` is set, no
    /// graphics otherwise.
    pub fn vga(self, gui: bool) -> (instance: Self)
        ensures
            instance@ == self@.apply(Call::Vga(gui)),
    {
        if gui {
            self.push_pair("-vga", VGA_ADAPTER)
        } else {
            self.push_flag("-nographic")
        }
    }

    /// Passes `append` to the guest kernel as its command line.
    pub fn append(self, append: &str) -> (instance: Self)
        ensures
            instance@ == self@.apply(Call::Append(append@)),
    {
        self.push_pair("-append", append)
    }

    /// Adds the paravirtual GPU.
    pub fn virtio_gpu(self) -> (instance: Self)
        ensures
            instance@ == self@.apply(Call::VirtioGpu),
    {
        self.push_pair("-device", GPU_DEVICE)
    }

    /// Opens the remote-debugging port and halts the CPU at reset.
    pub fn gdb(self) -> (instance: Self)
        ensures
            instance@ == self@.apply(Call::Gdb),
    {
        self.push_pair("-s", "-S")
    }

    /// Redirects the firmware's debug console to the file `path`.
    pub fn uefi_debug_log(self, path: &str) -> (instance: Self)
        ensures
            instance@ == self@.apply(Call::UefiDebugLog(path@)),
    {
        let mut target = String::from_str("file:");
        target.append(path);
        let ghost before = self@;
        let instance = self.push_pair("-debugcon", target.as_str()).push_pair(
            "-global",
            DEBUG_CONSOLE_PORT,
        );
        assert(instance@.cmd =~= before.cmd + Call::UefiDebugLog(path@).tokens(
            before.base_path,
            before.serial,
        ));
        instance
    }

    /// The serial number of the machine.
    pub fn serial_number(&self) -> (serial: &str)
        ensures
            serial@ == self@.serial,
    {
        self.eve_serial.as_str()
    }

    /// The complete argument vector: the direct arguments in call order, then
    /// the arguments of each network device in the order they were added,
    /// then the identity argument and its value.
    pub fn finalize(self) -> (argv: Vec<String>)
        ensures
            texts(argv@) == self@.argv(),
    {
        let ghost view = self@;
        let QemuInstance { cmd, nets, base_path, eve_serial } = self;
        let mut argv = cmd;
        let mut i: usize = 0;
        while i < nets.len()
            invariant
                i <= nets.len(),
                device_views(nets@) == view.nets,
                texts(argv@) == view.cmd + rendered(view.nets.take(i as int)),
            decreases nets.len() - i,
        {
            let mut tokens = nets[i].to_string();
            proof {
                lemma_texts_concat(argv@, tokens@);
                let next = view.nets.take(i + 1);
                assert(next.drop_last() == view.nets.take(i as int));
                assert(next.last() == nets@[i as int]@);
            }
            argv.append(&mut tokens);
            i += 1;
        }
        assert(view.nets.take(i as int) == view.nets);
        let mut identity = String::from_str("type=1,serial=");
        identity.append(eve_serial.as_str());
        let flag = String::from_str("-smbios");
        proof {
            lemma_texts_push(argv@, flag);
            lemma_texts_push(argv@.push(flag), identity);
        }
        argv.push(flag);
        argv.push(identity);
        assert(texts(argv@) =~= view.argv());
        argv
    }
}

} // verus!
