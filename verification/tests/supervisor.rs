use vm_runner::net_device::NetDevice;
use vm_runner::qemu::QemuInstance;
use vm_runner::supervisor::{
    Action, Command, Event, LaunchError, Outcome, Phase, Supervisor, Termination,
};

fn machine() -> QemuInstance {
    QemuInstance::new("/vm/current", "Mike-0003")
        .ram(512)
        .net(NetDevice::new("eth0").port_forward(2222, 22))
        .tpm()
}

fn words(tokens: &[&str]) -> Vec<String> {
    tokens.iter().map(|t| t.to_string()).collect()
}

fn emulator_command() -> Command {
    Command {
        program: "swtpm".to_string(),
        args: words(&[
            "socket",
            "--tpmstate",
            "dir=./tpms/Mike-0003",
            "--ctrl",
            "type=unixio,path=./tpms/Mike-0003/swtpm-sock",
            "--log",
            "level=20",
            "--tpm2",
            "-t",
        ]),
    }
}

fn monitor_command() -> Command {
    Command { program: "qemu-system-x86_64".to_string(), args: machine().finalize() }
}

const LISTING: &str = "\t-m 512\n\t-tpmdev emulator,id=tpm0,chardev=chrtpm\n\t-device tpm-tis,tpmdev=tpm0\n\t-chardev socket,id=chrtpm,path=./tpms/Mike-0003/swtpm-sock\n\t-netdev user,id=eth0,hostfwd=tcp::2222-:22\n\t-device virtio-net-pci,netdev=eth0,romfile=\n\t-smbios type=1,serial=Mike-0003\n";

#[test]
fn a_new_supervisor_is_idle() {
    assert_eq!(Supervisor::new(machine(), false).phase(), Phase::Idle);
    assert_eq!(Supervisor::new(machine(), true).phase(), Phase::Idle);
}

#[test]
fn full_launch_runs_in_the_fixed_order() {
    let mut s = Supervisor::new(machine(), false);
    assert_eq!(
        s.step(Event::Start),
        Action::EnsureStateDir { path: "./tpms/Mike-0003".to_string() }
    );
    assert_eq!(s.phase(), Phase::EnsuringStateDir);
    assert_eq!(
        s.step(Event::StateDirReady),
        Action::SpawnBackground { command: emulator_command() }
    );
    assert_eq!(s.phase(), Phase::StartingEmulator);
    assert_eq!(s.step(Event::Spawned), Action::Print { text: LISTING.to_string() });
    assert_eq!(s.phase(), Phase::Printing);
    assert_eq!(s.step(Event::Printed), Action::RunForeground { command: monitor_command() });
    assert_eq!(s.phase(), Phase::RunningMonitor);
    assert_eq!(
        s.step(Event::Ended(Termination::Exited(0))),
        Action::Finish { outcome: Outcome::Ended(Termination::Exited(0)) }
    );
    assert_eq!(s.phase(), Phase::Finished);
}

#[test]
fn dry_run_starts_no_program() {
    let mut s = Supervisor::new(machine(), true);
    let mut actions = Vec::new();
    actions.push(s.step(Event::Start));
    actions.push(s.step(Event::StateDirReady));
    actions.push(s.step(Event::Printed));
    assert_eq!(
        actions,
        vec![
            Action::EnsureStateDir { path: "./tpms/Mike-0003".to_string() },
            Action::Print { text: LISTING.to_string() },
            Action::Finish { outcome: Outcome::DryRun },
        ]
    );
    assert_eq!(s.phase(), Phase::Finished);
    for action in &actions {
        assert!(!matches!(action, Action::SpawnBackground { .. }));
        assert!(!matches!(action, Action::RunForeground { .. }));
    }
}

#[test]
fn dry_run_never_spawns_whatever_is_reported() {
    let events = [
        Event::Start,
        Event::StateDirReady,
        Event::StateDirFailed,
        Event::Spawned,
        Event::SpawnFailed,
        Event::Printed,
        Event::Ended(Termination::Exited(0)),
    ];
    for a in events {
        for b in events {
            for c in events {
                for d in events {
                    let mut s = Supervisor::new(machine(), true);
                    for e in [a, b, c, d] {
                        let action = s.step(e);
                        assert!(!matches!(action, Action::SpawnBackground { .. }));
                        assert!(!matches!(action, Action::RunForeground { .. }));
                    }
                }
            }
        }
    }
}

#[test]
fn monitor_is_run_only_after_the_emulator_runs() {
    let events = [
        Event::Start,
        Event::StateDirReady,
        Event::StateDirFailed,
        Event::Spawned,
        Event::SpawnFailed,
        Event::Printed,
        Event::Ended(Termination::Exited(0)),
    ];
    for a in events {
        for b in events {
            for c in events {
                for d in events {
                    let mut s = Supervisor::new(machine(), false);
                    let mut emulator_runs = false;
                    let mut asked_for_emulator = false;
                    for e in [a, b, c, d] {
                        if asked_for_emulator && e == Event::Spawned {
                            emulator_runs = true;
                        }
                        asked_for_emulator = false;
                        match s.step(e) {
                            Action::SpawnBackground { .. } => asked_for_emulator = true,
                            Action::RunForeground { .. } => assert!(emulator_runs),
                            _ => {}
                        }
                    }
                }
            }
        }
    }
}

#[test]
fn failing_state_dir_ends_the_launch_before_any_spawn() {
    let mut s = Supervisor::new(machine(), false);
    s.step(Event::Start);
    assert_eq!(
        s.step(Event::StateDirFailed),
        Action::Finish {
            outcome: Outcome::Failed(LaunchError::StateDir {
                path: "./tpms/Mike-0003".to_string()
            })
        }
    );
    assert_eq!(s.phase(), Phase::Finished);
    assert_eq!(
        s.step(Event::Spawned),
        Action::Finish { outcome: Outcome::Failed(LaunchError::OutOfOrder) }
    );
}

#[test]
fn failing_emulator_spawn_names_the_program() {
    let mut s = Supervisor::new(machine(), false);
    s.step(Event::Start);
    s.step(Event::StateDirReady);
    let action = s.step(Event::SpawnFailed);
    assert_eq!(
        action,
        Action::Finish {
            outcome: Outcome::Failed(LaunchError::Spawn { command: emulator_command() })
        }
    );
    assert_eq!(s.phase(), Phase::Finished);
    match action {
        Action::Finish { outcome: Outcome::Failed(error) } => {
            assert_eq!(
                error.message(),
                "Cannot run swtpm socket--tpmstatedir=./tpms/Mike-0003--ctrltype=unixio,path=./tpms/Mike-0003/swtpm-sock--loglevel=20--tpm2-t"
            );
            assert!(error.message().contains("swtpm"));
        }
        _ => panic!("the launch should have failed"),
    }
}

#[test]
fn nothing_follows_a_failed_spawn() {
    let mut s = Supervisor::new(machine(), false);
    s.step(Event::Start);
    s.step(Event::StateDirReady);
    s.step(Event::SpawnFailed);
    for e in [Event::Start, Event::StateDirReady, Event::Spawned, Event::Printed] {
        assert_eq!(
            s.step(e),
            Action::Finish { outcome: Outcome::Failed(LaunchError::OutOfOrder) }
        );
        assert_eq!(s.phase(), Phase::Finished);
    }
}

#[test]
fn failing_monitor_spawn_names_the_program() {
    let mut s = Supervisor::new(machine(), false);
    s.step(Event::Start);
    s.step(Event::StateDirReady);
    s.step(Event::Spawned);
    s.step(Event::Printed);
    let action = s.step(Event::SpawnFailed);
    assert_eq!(
        action,
        Action::Finish {
            outcome: Outcome::Failed(LaunchError::Spawn { command: monitor_command() })
        }
    );
    match action {
        Action::Finish { outcome: Outcome::Failed(error) } => {
            assert!(error.message().starts_with("Cannot run qemu-system-x86_64 -m512-tpmdev"));
            assert!(error.message().ends_with("-smbiostype=1,serial=Mike-0003"));
        }
        _ => panic!("the launch should have failed"),
    }
}

#[test]
fn nonzero_exit_is_reported_not_failed() {
    let mut s = Supervisor::new(machine(), false);
    s.step(Event::Start);
    s.step(Event::StateDirReady);
    s.step(Event::Spawned);
    s.step(Event::Printed);
    assert_eq!(
        s.step(Event::Ended(Termination::Exited(3))),
        Action::Finish { outcome: Outcome::Ended(Termination::Exited(3)) }
    );
}

#[test]
fn end_by_signal_is_reported() {
    let mut s = Supervisor::new(machine(), false);
    s.step(Event::Start);
    s.step(Event::StateDirReady);
    s.step(Event::Spawned);
    s.step(Event::Printed);
    assert_eq!(
        s.step(Event::Ended(Termination::Signaled(9))),
        Action::Finish { outcome: Outcome::Ended(Termination::Signaled(9)) }
    );
}

#[test]
fn an_event_out_of_order_ends_the_launch() {
    let mut s = Supervisor::new(machine(), false);
    assert_eq!(
        s.step(Event::Printed),
        Action::Finish { outcome: Outcome::Failed(LaunchError::OutOfOrder) }
    );
    assert_eq!(s.phase(), Phase::Finished);
    let mut s = Supervisor::new(machine(), true);
    s.step(Event::Start);
    assert_eq!(
        s.step(Event::Spawned),
        Action::Finish { outcome: Outcome::Failed(LaunchError::OutOfOrder) }
    );
}

#[test]
fn messages_report_what_failed() {
    assert_eq!(
        LaunchError::StateDir { path: "./tpms/x".to_string() }.message(),
        "Cannot create directory ./tpms/x"
    );
    assert_eq!(
        LaunchError::Spawn {
            command: Command { program: "dmesg".to_string(), args: Vec::new() }
        }
        .message(),
        "Cannot run dmesg "
    );
    assert_eq!(
        LaunchError::Spawn {
            command: Command { program: "p".to_string(), args: words(&["a", "b"]) }
        }
        .message(),
        "Cannot run p ab"
    );
    assert_eq!(LaunchError::OutOfOrder.message(), "Unexpected event");
}
