//! The TPM emulator that the guest's TPM device talks to.

use crate::text::{lemma_texts_push, texts, Text};
use vstd::prelude::*;
use vstd::string::*;

verus! {

/// The program that emulates the TPM.
pub const EMULATOR_PROGRAM: &'static str = "swtpm";

/// The directory that keeps the emulator's state for the machine with the
/// given serial number.
pub open spec fn state_dir_text(serial: Text) -> Text {
    "./tpms/"@ + serial
}

/// The control socket inside the state directory.
pub open spec fn socket_text(serial: Text) -> Text {
    state_dir_text(serial) + "/swtpm-sock"@
}

/// The path of the state directory for `serial`.
pub fn state_dir(serial: &str) -> (path: String)
    ensures
        path@ == state_dir_text(serial@),
{
    let mut path = String::from_str("./tpms/");
    path.append(serial);
    path
}

/// The path of the control socket for `serial`.
pub fn socket_path(serial: &str) -> (path: String)
    ensures
        path@ == socket_text(serial@),
{
    let mut path = state_dir(serial);
    path.append("/swtpm-sock");
    path
}

/// The emulator's arguments: a TPM 2 behind a control socket in the state
/// directory `dir`, which also keeps the TPM's state, logging at level 20,
/// and ending when the monitor hangs up.
pub open spec fn emulator_arg_texts(dir: Text) -> Seq<Text> {
    seq![
        "socket"@,
        "--tpmstate"@,
        "dir="@ + dir,
        "--ctrl"@,
        "type=unixio,path="@ + dir + "/swtpm-sock"@,
        "--log"@,
        "level=20"@,
        "--tpm2"@,
        "-t"@,
    ]
}

fn push_text(args: &mut Vec<String>, token: String)
    ensures
        texts(final(args)@) == texts(old(args)@).push(token@),
{
    proof {
        lemma_texts_push(args@, token);
    }
    args.push(token);
}

/// The arguments with which the emulator is started on the state directory
/// `dir`.
pub fn emulator_args(dir: &str) -> (args: Vec<String>)
    ensures
        texts(args@) == emulator_arg_texts(dir@),
{
    let mut state = String::from_str("dir=");
    state.append(dir);
    let mut control = String::from_str("type=unixio,path=");
    control.append(dir);
    control.append("/swtpm-sock");
    let mut args: Vec<String> = Vec::new();
    assert(texts(args@) =~= Seq::empty());
    push_text(&mut args, String::from_str("socket"));
    push_text(&mut args, String::from_str("--tpmstate"));
    push_text(&mut args, state);
    push_text(&mut args, String::from_str("--ctrl"));
    push_text(&mut args, control);
    push_text(&mut args, String::from_str("--log"));
    push_text(&mut args, String::from_str("level=20"));
    push_text(&mut args, String::from_str("--tpm2"));
    push_text(&mut args, String::from_str("-t"));
    assert(texts(args@) =~= emulator_arg_texts(dir@));
    args
}

} // verus!
