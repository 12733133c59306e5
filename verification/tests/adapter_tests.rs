use example_runner::adapter::{command_spec_for, parse_service, service_default_timeout, Service};
use example_runner::adapter::{artifact_path, scenario_path};
use example_runner::descriptor::{BuildMode, TestDescriptor};
use example_runner::errors::ErrorKind;

fn blinky(mode: BuildMode) -> TestDescriptor {
    TestDescriptor { name: String::from("blinky"), mode }
}

#[test]
fn known_services_parse() {
    assert_eq!(parse_service("espflash"), Ok(Service::Flash));
    assert_eq!(parse_service("qemu"), Ok(Service::Emulate));
    assert_eq!(parse_service("wokwi"), Ok(Service::Simulate));
}

#[test]
fn unknown_service_is_a_configuration_error() {
    assert_eq!(parse_service("browser"), Err(ErrorKind::Configuration));
    assert_eq!(parse_service(""), Err(ErrorKind::Configuration));
    assert_eq!(parse_service("wokwi "), Err(ErrorKind::Configuration));
}

#[test]
fn artifact_and_scenario_paths_are_predictable() {
    assert_eq!(
        artifact_path(&blinky(BuildMode::Debug)),
        "target/riscv32imac-unknown-none-elf/debug/examples/blinky"
    );
    assert_eq!(
        artifact_path(&blinky(BuildMode::Release)),
        "target/riscv32imac-unknown-none-elf/release/examples/blinky"
    );
    assert_eq!(scenario_path(&blinky(BuildMode::Debug)), "scenarios/debug/blinky.yaml");
}

#[test]
fn simulate_command_carries_scenario_timeout_and_log() {
    let spec = command_spec_for(Service::Simulate, &blinky(BuildMode::Debug), 60, "out/tmp/blinky-debug.txt");
    assert_eq!(spec.program, "wokwi-cli");
    assert_eq!(
        spec.args,
        vec![
            String::from("--elf"),
            String::from("target/riscv32imac-unknown-none-elf/debug/examples/blinky"),
            String::from("--scenario"),
            String::from("scenarios/debug/blinky.yaml"),
            String::from("--timeout"),
            String::from("60"),
            String::from("--serial-log-file"),
            String::from("out/tmp/blinky-debug.txt"),
        ]
    );
    assert!(spec.supplies_scenario);
    assert!(spec.captures_log_directly);
}

#[test]
fn flash_command_targets_the_device_and_monitors() {
    let spec = command_spec_for(Service::Flash, &blinky(BuildMode::Release), 5, "out/tmp/blinky-release.txt");
    assert_eq!(spec.program, "espflash");
    assert_eq!(
        spec.args,
        vec![
            String::from("flash"),
            String::from("-p"),
            String::from("/dev/tty.usbmodem1101"),
            String::from("--monitor"),
            String::from("target/riscv32imac-unknown-none-elf/release/examples/blinky"),
        ]
    );
    assert!(!spec.supplies_scenario);
    assert!(!spec.captures_log_directly);
}

#[test]
fn emulate_command_takes_artifact_and_release_flag() {
    let debug = command_spec_for(Service::Emulate, &blinky(BuildMode::Debug), 5, "unused");
    assert_eq!(debug.program, "qemu-system-riscv32");
    assert_eq!(
        debug.args,
        vec![String::from("target/riscv32imac-unknown-none-elf/debug/examples/blinky")]
    );
    let release = command_spec_for(Service::Emulate, &blinky(BuildMode::Release), 5, "unused");
    assert_eq!(
        release.args,
        vec![
            String::from("target/riscv32imac-unknown-none-elf/release/examples/blinky"),
            String::from("--release"),
        ]
    );
}

#[test]
fn default_timeouts_per_service() {
    assert_eq!(service_default_timeout(Service::Simulate), 60);
    assert_eq!(service_default_timeout(Service::Flash), 5);
    assert_eq!(service_default_timeout(Service::Emulate), 5);
}
