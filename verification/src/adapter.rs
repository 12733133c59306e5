//! Backend adapter: the pure mapping from (service, descriptor, paths) to
//! the command an external backend process is spawned with, together with
//! the backend's capability flags.

use vstd::prelude::*;
use vstd::string::StringExecFns;
use crate::descriptor::BuildMode;
use crate::descriptor::DescView;
use crate::descriptor::TestDescriptor;
use crate::descriptor::mode_label;
use crate::descriptor::mode_str;
use crate::errors::ErrorKind;
use crate::strutil::dec_rep;
use crate::strutil::str_eq;
use crate::strutil::u64_to_string;

verus! {

/// The backend category used to execute a compiled artifact.
#[derive(Clone, Copy, PartialEq, Eq, Structural, Debug)]
pub enum Service {
    /// Flashes the artifact onto a live device and monitors its serial port.
    Flash,
    /// Runs the artifact under an emulator.
    Emulate,
    /// Runs the artifact under a browser-based simulator.
    Simulate,
}

/// The service selected by a backend name on the command line, if the name
/// is known.
pub open spec fn service_of(name: Seq<char>) -> Option<Service> {
    if name == "espflash"@ {
        Some(Service::Flash)
    } else if name == "qemu"@ {
        Some(Service::Emulate)
    } else if name == "wokwi"@ {
        Some(Service::Simulate)
    } else {
        None
    }
}

/// Maps a backend name to its service; an unknown name is a configuration
/// error, fatal before any run starts.
pub fn parse_service(name: &str) -> (r: Result<Service, ErrorKind>)
    ensures
        r == match service_of(name@) {
            Some(s) => Ok::<Service, ErrorKind>(s),
            None => Err::<Service, ErrorKind>(ErrorKind::Configuration),
        },
{
    if str_eq(name, "espflash") {
        Ok(Service::Flash)
    } else if str_eq(name, "qemu") {
        Ok(Service::Emulate)
    } else if str_eq(name, "wokwi") {
        Ok(Service::Simulate)
    } else {
        Err(ErrorKind::Configuration)
    }
}

/// The executable name each service is spawned as.
pub open spec fn program_name_spec(service: Service) -> Seq<char> {
    match service {
        Service::Flash => "espflash"@,
        Service::Emulate => "qemu-system-riscv32"@,
        Service::Simulate => "wokwi-cli"@,
    }
}

/// The predictable location the build tool leaves a descriptor's compiled
/// artifact at.
pub open spec fn artifact_path_spec(d: DescView) -> Seq<char> {
    "target/riscv32imac-unknown-none-elf/"@ + mode_label(d.mode) + "/examples/"@ + d.name
}

/// The location a descriptor's scenario definition is loaded from.
pub open spec fn scenario_path_spec(d: DescView) -> Seq<char> {
    "scenarios/"@ + mode_label(d.mode) + "/"@ + d.name + ".yaml"@
}

/// Computes the artifact path of a descriptor.
pub fn artifact_path(d: &TestDescriptor) -> (r: String)
    ensures
        r@ == artifact_path_spec(d@),
{
    let mut s = String::from_str("target/riscv32imac-unknown-none-elf/");
    s.append(mode_str(d.mode));
    s.append("/examples/");
    s.append(d.name.as_str());
    proof {
        assert(s@ =~= artifact_path_spec(d@));
    }
    s
}

/// Computes the scenario file path of a descriptor.
pub fn scenario_path(d: &TestDescriptor) -> (r: String)
    ensures
        r@ == scenario_path_spec(d@),
{
    let mut s = String::from_str("scenarios/");
    s.append(mode_str(d.mode));
    s.append("/");
    s.append(d.name.as_str());
    s.append(".yaml");
    proof {
        assert(s@ =~= scenario_path_spec(d@));
    }
    s
}

/// The argument list a service is invoked with: flash-style backends target
/// a fixed device and monitor it; emulate-style backends take the artifact
/// and an optional release flag; simulate-style backends take the artifact,
/// the scenario file, the timeout and the path they write their own serial
/// log to.
pub open spec fn command_args_spec(
    service: Service,
    d: DescView,
    timeout_seconds: nat,
    log_path: Seq<char>,
) -> Seq<Seq<char>> {
    match service {
        Service::Flash => seq![
            "flash"@,
            "-p"@,
            "/dev/tty.usbmodem1101"@,
            "--monitor"@,
            artifact_path_spec(d),
        ],
        Service::Emulate => if d.mode == BuildMode::Release {
            seq![artifact_path_spec(d), "--release"@]
        } else {
            seq![artifact_path_spec(d)]
        },
        Service::Simulate => seq![
            "--elf"@,
            artifact_path_spec(d),
            "--scenario"@,
            scenario_path_spec(d),
            "--timeout"@,
            dec_rep(timeout_seconds),
            "--serial-log-file"@,
            log_path,
        ],
    }
}

/// The fully constructed invocation of one backend run, plus the backend's
/// capability flags.
#[derive(Clone, Debug)]
pub struct CommandSpec {
    pub program: String,
    pub args: Vec<String>,
    /// The backend consumes the scenario file itself; the core then only
    /// consumes its exit status.
    pub supplies_scenario: bool,
    /// The backend writes its own serial log; the core need not capture the
    /// output stream to build one.
    pub captures_log_directly: bool,
}

/// Builds the command one run is spawned with. Pure construction: no side
/// effects.
pub fn command_spec_for(
    service: Service,
    d: &TestDescriptor,
    timeout_seconds: u64,
    log_path: &str,
) -> (r: CommandSpec)
    ensures
        r.program@ == program_name_spec(service),
        r.args.deep_view() == command_args_spec(service, d@, timeout_seconds as nat, log_path@),
        r.supplies_scenario == (service is Simulate),
        r.captures_log_directly == (service is Simulate),
{
    let mut args: Vec<String> = Vec::new();
    match service {
        Service::Flash => {
            args.push(String::from_str("flash"));
            args.push(String::from_str("-p"));
            args.push(String::from_str("/dev/tty.usbmodem1101"));
            args.push(String::from_str("--monitor"));
            args.push(artifact_path(d));
            proof {
                assert(args.deep_view() =~~= command_args_spec(
                    service,
                    d@,
                    timeout_seconds as nat,
                    log_path@,
                ));
            }
            CommandSpec {
                program: String::from_str("espflash"),
                args,
                supplies_scenario: false,
                captures_log_directly: false,
            }
        },
        Service::Emulate => {
            args.push(artifact_path(d));
            if matches!(d.mode, BuildMode::Release) {
                args.push(String::from_str("--release"));
            }
            proof {
                assert(args.deep_view() =~~= command_args_spec(
                    service,
                    d@,
                    timeout_seconds as nat,
                    log_path@,
                ));
            }
            CommandSpec {
                program: String::from_str("qemu-system-riscv32"),
                args,
                supplies_scenario: false,
                captures_log_directly: false,
            }
        },
        Service::Simulate => {
            args.push(String::from_str("--elf"));
            args.push(artifact_path(d));
            args.push(String::from_str("--scenario"));
            args.push(scenario_path(d));
            args.push(String::from_str("--timeout"));
            args.push(u64_to_string(timeout_seconds));
            args.push(String::from_str("--serial-log-file"));
            args.push(String::from_str(log_path));
            proof {
                assert(args.deep_view() =~~= command_args_spec(
                    service,
                    d@,
                    timeout_seconds as nat,
                    log_path@,
                ));
            }
            CommandSpec {
                program: String::from_str("wokwi-cli"),
                args,
                supplies_scenario: true,
                captures_log_directly: true,
            }
        },
    }
}

/// The timeout each service runs under when the caller configures none: the
/// simulator is given a minute, the other backends five seconds.
pub fn service_default_timeout(service: Service) -> (r: u64)
    ensures
        r == (if service is Simulate {
            60u64
        } else {
            5u64
        }),
{
    match service {
        Service::Simulate => 60,
        _ => 5,
    }
}

} // verus!
