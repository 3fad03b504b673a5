use xfce_gala_settings::config::{initialization_step, session_file_path_from, ConfigError, InitStep};

#[test]
fn missing_home_and_data_home_is_an_error() {
    assert_eq!(session_file_path_from(None, None), Err(ConfigError::MissingEnvironment));
}

#[test]
fn empty_home_is_an_error() {
    assert_eq!(session_file_path_from(Some(""), None), Err(ConfigError::MissingEnvironment));
}

#[test]
fn home_is_required_even_with_data_home() {
    assert_eq!(session_file_path_from(None, Some("/data")), Err(ConfigError::MissingEnvironment));
}

#[test]
fn path_falls_back_to_home_config() {
    assert_eq!(
        session_file_path_from(Some("/home/ann"), None),
        Ok("/home/ann/.config/xfce4/xfconf/xfce-perchannel-xml/xfce4-session.xml".to_string())
    );
}

#[test]
fn data_home_overrides_home() {
    assert_eq!(
        session_file_path_from(Some("/home/ann"), Some("/var/data")),
        Ok("/var/data/xfce4/xfconf/xfce-perchannel-xml/xfce4-session.xml".to_string())
    );
}

#[test]
fn existing_file_is_kept() {
    assert_eq!(initialization_step(true, true), Ok(InitStep::Keep));
    assert_eq!(initialization_step(true, false), Ok(InitStep::Keep));
}

#[test]
fn missing_file_is_copied_from_template() {
    assert_eq!(initialization_step(false, true), Ok(InitStep::CopyTemplate));
}

#[test]
fn missing_template_is_an_error() {
    assert_eq!(initialization_step(false, false), Err(ConfigError::TemplateMissing));
}
