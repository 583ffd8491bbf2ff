use rumbac::flags::{Exit, FlagsError, Mode, Rumbac};

fn args(list: &[&str]) -> Vec<String> {
    list.iter().map(|s| s.to_string()).collect()
}

fn options(port: Option<&str>, file: Option<&str>) -> Rumbac {
    Rumbac { port: port.map(|s| s.to_string()), file: file.map(|s| s.to_string()) }
}

#[test]
fn no_argument_gives_no_option() {
    assert_eq!(Rumbac::from_vec(args(&[])), Ok(options(None, None)));
}

#[test]
fn first_argument_is_the_port() {
    assert_eq!(Rumbac::from_vec(args(&["/dev/ttyACM0"])), Ok(options(Some("/dev/ttyACM0"), None)));
}

#[test]
fn second_argument_is_the_file() {
    assert_eq!(
        Rumbac::from_vec(args(&["COM3", "firmware.bin"])),
        Ok(options(Some("COM3"), Some("firmware.bin")))
    );
}

#[test]
fn third_argument_is_refused() {
    assert_eq!(
        Rumbac::from_vec(args(&["COM3", "firmware.bin", "extra", "more"])),
        Err(FlagsError::UnexpectedArgument("extra".to_string()))
    );
}

#[test]
fn help_is_asked_for_with_either_flag() {
    assert_eq!(Rumbac::from_vec(args(&["--help"])), Err(FlagsError::Help));
    assert_eq!(Rumbac::from_vec(args(&["-h"])), Err(FlagsError::Help));
    assert_eq!(Rumbac::from_vec(args(&["COM3", "-h", "x", "y"])), Err(FlagsError::Help));
}

#[test]
fn unknown_flag_is_refused() {
    assert_eq!(
        Rumbac::from_vec(args(&["-e"])),
        Err(FlagsError::UnexpectedFlag("-e".to_string()))
    );
    assert_eq!(
        Rumbac::from_vec(args(&["COM3", "--erase", "--help"])),
        Err(FlagsError::UnexpectedFlag("--erase".to_string()))
    );
    assert_eq!(Rumbac::from_vec(args(&["-"])), Err(FlagsError::UnexpectedFlag("-".to_string())));
    assert_eq!(
        Rumbac::from_vec(args(&["--helpful"])),
        Err(FlagsError::UnexpectedFlag("--helpful".to_string()))
    );
}

#[test]
fn first_fault_is_the_one_reported() {
    assert_eq!(
        Rumbac::from_vec(args(&["a", "b", "c", "--help"])),
        Err(FlagsError::UnexpectedArgument("c".to_string()))
    );
    assert_eq!(
        Rumbac::from_vec(args(&["-x", "a", "b", "c"])),
        Err(FlagsError::UnexpectedFlag("-x".to_string()))
    );
}

#[test]
fn double_dash_makes_the_rest_values() {
    assert_eq!(Rumbac::from_vec(args(&["--", "-weird"])), Ok(options(Some("-weird"), None)));
    assert_eq!(
        Rumbac::from_vec(args(&["COM3", "--", "--help"])),
        Ok(options(Some("COM3"), Some("--help")))
    );
    assert_eq!(Rumbac::from_vec(args(&["--", "--", "-h"])), Ok(options(Some("--"), Some("-h"))));
    assert_eq!(Rumbac::from_vec(args(&["--"])), Ok(options(None, None)));
    assert_eq!(Rumbac::from_vec(args(&["COM3", "--"])), Ok(options(Some("COM3"), None)));
    assert_eq!(
        Rumbac::from_vec(args(&["--", "a", "b", "-c"])),
        Err(FlagsError::UnexpectedArgument("-c".to_string()))
    );
}

#[test]
fn empty_argument_is_a_value() {
    assert_eq!(Rumbac::from_vec(args(&["", "x"])), Ok(options(Some(""), Some("x"))));
}

#[test]
fn program_name_is_no_option() {
    assert_eq!(Rumbac::from_env_or_exit(args(&["rumbac"])), Ok(options(None, None)));
    assert_eq!(Rumbac::from_env_or_exit(args(&[])), Ok(options(None, None)));
    assert_eq!(Rumbac::from_env_or_exit(args(&["rumbac", "COM3"])), Ok(options(Some("COM3"), None)));
    assert_eq!(
        Rumbac::from_env_or_exit(args(&["-h", "COM3", "fw.bin"])),
        Ok(options(Some("COM3"), Some("fw.bin")))
    );
}

#[test]
fn call_for_help_ends_with_status_0() {
    assert_eq!(
        Rumbac::from_env_or_exit(args(&["rumbac", "--help"])),
        Err(Exit { status: 0, error: FlagsError::Help })
    );
}

#[test]
fn fault_ends_with_status_2() {
    assert_eq!(
        Rumbac::from_env_or_exit(args(&["rumbac", "-q"])),
        Err(Exit { status: 2, error: FlagsError::UnexpectedFlag("-q".to_string()) })
    );
    assert_eq!(
        Rumbac::from_env_or_exit(args(&["rumbac", "a", "b", "c"])),
        Err(Exit { status: 2, error: FlagsError::UnexpectedArgument("c".to_string()) })
    );
}

#[test]
fn options_choose_the_mode() {
    assert_eq!(options(None, None).mode(), Mode::ListPorts);
    assert_eq!(options(Some("COM3"), None).mode(), Mode::ShowDevice);
    assert_eq!(options(Some("COM3"), Some("fw.bin")).mode(), Mode::Flash);
    assert_eq!(options(None, Some("fw.bin")).mode(), Mode::ListPorts);
}

#[test]
fn options_come_from_the_environment_without_the_program() {
    assert_eq!(Rumbac::from_env(args(&["rumbac", "COM3", "fw.bin"])), Ok(options(Some("COM3"), Some("fw.bin"))));
    assert_eq!(Rumbac::from_env(args(&["rumbac", "--help"])), Err(FlagsError::Help));
    assert_eq!(Rumbac::from_env(args(&["--help"])), Ok(options(None, None)));
    assert_eq!(Rumbac::from_env(args(&[])), Ok(options(None, None)));
}
