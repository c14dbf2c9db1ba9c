use borderless_gaming::login::{
    login_value_read, login_value_removed, login_value_size, login_value_written,
    REGISTRY_SUCCESS, REGISTRY_VALUE_MISSING, startup_command, startup_command_executable, transparency_alpha, MAX_TRANSPARENCY_PERCENT,
    START_MINIMIZED_ARGUMENT,
};

fn units(text: &str) -> Vec<u16> {
    text.encode_utf16().collect()
}

#[test]
fn login_command_quotes_paths_and_adds_the_minimized_argument() {
    let command = startup_command(&units(r"C:\Program Files\Borderless Gaming\app.exe"), true);
    let command = String::from_utf16(&command[..command.len() - 1]).unwrap();

    assert_eq!(
        command,
        r#""C:\Program Files\Borderless Gaming\app.exe" --minimized"#
    );
}

#[test]
fn login_command_can_start_normally() {
    let command = startup_command(&units(r"C:\Games\app.exe"), false);
    let command = String::from_utf16(&command[..command.len() - 1]).unwrap();

    assert_eq!(command, r#""C:\Games\app.exe""#);
}

#[test]
fn login_command_ends_with_a_terminating_zero() {
    let command = startup_command(&units(r"C:\Games\app.exe"), true);
    assert_eq!(command.last(), Some(&0));
    assert_eq!(START_MINIMIZED_ARGUMENT, "--minimized");
}

#[test]
fn registered_commands_name_their_executable_with_or_without_arguments() {
    let executable = units(r"C:\Games\Borderless Gaming Desktop.exe");

    assert_eq!(
        startup_command_executable(&startup_command(&executable, false)),
        Some(executable.clone())
    );
    assert_eq!(
        startup_command_executable(&startup_command(&executable, true)),
        Some(executable.clone())
    );
    assert_ne!(
        startup_command_executable(&startup_command(&units(r"C:\Old\app.exe"), true)),
        Some(units(r"C:\New\app.exe"))
    );
}

#[test]
fn malformed_registered_commands_name_no_executable() {
    assert_eq!(startup_command_executable(&[0]), None);
    assert_eq!(startup_command_executable(&[]), None);
    let mut unterminated = units(r#""C:\Games\app.exe"#);
    unterminated.push(0);
    assert_eq!(startup_command_executable(&unterminated), None);
    let mut glued = units(r#""C:\Games\app.exe".old --minimized"#);
    glued.push(0);
    assert_eq!(startup_command_executable(&glued), None);
    assert_eq!(startup_command_executable(&units(r#""""#)), None);
}

#[test]
fn unquoted_registered_commands_end_at_the_first_blank() {
    assert_eq!(
        startup_command_executable(&units("C:\\Games\\app.exe\t--minimized")),
        Some(units(r"C:\Games\app.exe"))
    );
    let mut with_tail = units(r"C:\Games\app.exe");
    with_tail.push(0);
    with_tail.extend(units(" ignored"));
    assert_eq!(startup_command_executable(&with_tail), Some(units(r"C:\Games\app.exe")));
}

#[test]
fn transparency_is_capped_before_the_window_becomes_hard_to_recover() {
    assert_eq!(transparency_alpha(0), 255);
    assert_eq!(transparency_alpha(50), 128);
    assert_eq!(transparency_alpha(80), 51);
    assert_eq!(transparency_alpha(100), 51);
}

#[test]
fn transparency_matches_the_rounded_opacity_for_every_percentage() {
    for percent in 0..=u8::MAX {
        let transparency = percent.min(MAX_TRANSPARENCY_PERCENT) as f32 / 100.0;
        let expected = ((1.0 - transparency) * u8::MAX as f32).round() as u8;
        assert_eq!(transparency_alpha(percent), expected, "at {percent}%");
    }
}

#[test]
fn registry_statuses_map_to_login_results() {
    assert_eq!(login_value_read(REGISTRY_SUCCESS), Ok(true));
    assert_eq!(login_value_read(REGISTRY_VALUE_MISSING), Ok(false));
    assert_eq!(login_value_read(5), Err(5));
    assert_eq!(login_value_removed(REGISTRY_SUCCESS), Ok(()));
    assert_eq!(login_value_removed(REGISTRY_VALUE_MISSING), Ok(()));
    assert_eq!(login_value_removed(5), Err(5));
    assert_eq!(login_value_written(REGISTRY_SUCCESS), Ok(()));
    assert_eq!(login_value_written(REGISTRY_VALUE_MISSING), Err(REGISTRY_VALUE_MISSING));
    assert_eq!(login_value_size(20), Some(40));
    assert_eq!(login_value_size(0x8000_0000), None);
}
