use vm_runner::emulator::{emulator_args, socket_path, state_dir, EMULATOR_PROGRAM};
use vm_runner::qemu::QemuInstance;

#[test]
fn emulator_program_is_swtpm() {
    assert_eq!(EMULATOR_PROGRAM, "swtpm");
}

#[test]
fn state_dir_is_named_by_the_serial_number() {
    assert_eq!(state_dir("Mike-0003"), "./tpms/Mike-0003");
    assert_eq!(state_dir(""), "./tpms/");
}

#[test]
fn socket_lies_in_the_state_dir() {
    assert_eq!(socket_path("Mike-0003"), "./tpms/Mike-0003/swtpm-sock");
}

#[test]
fn emulator_arguments_are_fixed_but_for_the_directory() {
    let args = emulator_args("./tpms/Mike-0003");
    let expected: Vec<String> = [
        "socket",
        "--tpmstate",
        "dir=./tpms/Mike-0003",
        "--ctrl",
        "type=unixio,path=./tpms/Mike-0003/swtpm-sock",
        "--log",
        "level=20",
        "--tpm2",
        "-t",
    ]
    .iter()
    .map(|t| t.to_string())
    .collect();
    assert_eq!(args, expected);
}

#[test]
fn emulator_arguments_agree_with_the_command_line_split_at_spaces() {
    let dir = state_dir("134711180099780011");
    let line = format!(
        "socket --tpmstate dir={} --ctrl type=unixio,path={}/swtpm-sock --log level=20 --tpm2 -t",
        dir, dir
    );
    let split: Vec<String> = line.split_ascii_whitespace().map(|t| t.to_string()).collect();
    assert_eq!(emulator_args(&dir), split);
}

#[test]
fn a_directory_with_a_space_stays_one_argument() {
    let args = emulator_args("./tpms/my vm");
    assert_eq!(args.len(), 9);
    assert_eq!(args[2], "dir=./tpms/my vm");
    assert_eq!(args[4], "type=unixio,path=./tpms/my vm/swtpm-sock");
}

#[test]
fn monitor_and_emulator_share_the_socket() {
    let serial = "Mike-0003";
    let argv = QemuInstance::new("/vm", serial).tpm().finalize();
    let args = emulator_args(&state_dir(serial));
    assert_eq!(argv[5], format!("socket,id=chrtpm,path={}", socket_path(serial)));
    assert_eq!(args[4], format!("type=unixio,path={}", socket_path(serial)));
}
