use xbee_rust_modem_library::role::{parse_role, parse_role_value, Role, RoleCommand, RoleError};

fn args(list: &[&str]) -> Vec<String> {
    list.iter().map(|s| s.to_string()).collect()
}

#[test]
fn role_values() {
    assert_eq!(parse_role_value("sender"), Ok(Role::Sender));
    assert_eq!(parse_role_value("receiver"), Ok(Role::Receiver));
    assert_eq!(
        parse_role_value("Sender"),
        Err(RoleError::InvalidRole(vec!['S', 'e', 'n', 'd', 'e', 'r']))
    );
}

#[test]
fn every_role_flag_form() {
    assert_eq!(parse_role(&args(&["--sender"])), Ok(RoleCommand::Run(Role::Sender)));
    assert_eq!(parse_role(&args(&["-s"])), Ok(RoleCommand::Run(Role::Sender)));
    assert_eq!(parse_role(&args(&["--receiver"])), Ok(RoleCommand::Run(Role::Receiver)));
    assert_eq!(parse_role(&args(&["-r"])), Ok(RoleCommand::Run(Role::Receiver)));
    assert_eq!(parse_role(&args(&["--role", "sender"])), Ok(RoleCommand::Run(Role::Sender)));
    assert_eq!(parse_role(&args(&["--role=receiver"])), Ok(RoleCommand::Run(Role::Receiver)));
}

#[test]
fn role_errors() {
    assert_eq!(parse_role(&args(&[])), Err(RoleError::MissingRole));
    assert_eq!(parse_role(&args(&["--role"])), Err(RoleError::MissingRoleValue));
    assert_eq!(
        parse_role(&args(&["--sender", "-r"])),
        Err(RoleError::RoleRepeated)
    );
    assert_eq!(
        parse_role(&args(&["--bogus", "--sender"])),
        Err(RoleError::UnknownArgument(vec!['-', '-', 'b', 'o', 'g', 'u', 's']))
    );
    assert_eq!(
        parse_role(&args(&["--role=x"])),
        Err(RoleError::InvalidRole(vec!['x']))
    );
}

#[test]
fn help_stops_the_reading() {
    assert_eq!(parse_role(&args(&["--sender", "--help", "--bogus"])), Ok(RoleCommand::Help));
    assert_eq!(parse_role(&args(&["-h"])), Ok(RoleCommand::Help));
    // An earlier problem still wins.
    assert_eq!(
        parse_role(&args(&["--nope", "-h"])),
        Err(RoleError::UnknownArgument(vec!['-', '-', 'n', 'o', 'p', 'e']))
    );
}
