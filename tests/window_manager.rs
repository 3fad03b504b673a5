use xfce_gala_settings::text::{contains_bytes, replace_bytes};
use xfce_gala_settings::window_manager::{
    replace_command, restart_command_at_exit, toggle_window_manager_in_contents,
    window_manager_in_contents, WindowManager,
};

const XFWM4_FILE: &str = r#"<channel name="xfce4-session" version="1.0">
  <property name="Client0_Command" type="array">
    <value type="string" value="xfwm4"/>
  </property>
</channel>
"#;

const GALA_FILE: &str = r#"<channel name="xfce4-session" version="1.0">
  <property name="Client0_Command" type="array">
    <value type="string" value="gala"/>
  </property>
</channel>
"#;

#[test]
fn xfwm4_file_is_classified_as_xfwm4() {
    assert_eq!(window_manager_in_contents(XFWM4_FILE.as_bytes()), WindowManager::XFWM4);
}

#[test]
fn gala_file_is_classified_as_gala() {
    assert_eq!(window_manager_in_contents(GALA_FILE.as_bytes()), WindowManager::Gala);
}

#[test]
fn xfwm4_token_wins_when_both_occur() {
    let both = "a=\"gala\" b=\"xfwm4\"";
    assert_eq!(window_manager_in_contents(both.as_bytes()), WindowManager::XFWM4);
}

#[test]
fn unquoted_names_are_not_recognized() {
    assert_eq!(window_manager_in_contents(b"xfwm4 gala"), WindowManager::Unknown);
    assert_eq!(window_manager_in_contents(b""), WindowManager::Unknown);
}

#[test]
fn toggle_from_xfwm4_selects_gala() {
    let (out, wm) = toggle_window_manager_in_contents(XFWM4_FILE.as_bytes());
    assert_eq!(wm, WindowManager::Gala);
    assert_eq!(out, GALA_FILE.as_bytes().to_vec());
    assert_eq!(window_manager_in_contents(&out), WindowManager::Gala);
}

#[test]
fn toggle_from_gala_selects_xfwm4() {
    let (out, wm) = toggle_window_manager_in_contents(GALA_FILE.as_bytes());
    assert_eq!(wm, WindowManager::XFWM4);
    assert_eq!(out, XFWM4_FILE.as_bytes().to_vec());
}

#[test]
fn toggle_twice_restores_the_bytes() {
    let (once, first) = toggle_window_manager_in_contents(XFWM4_FILE.as_bytes());
    let (twice, second) = toggle_window_manager_in_contents(&once);
    assert_eq!(first, WindowManager::Gala);
    assert_eq!(second, WindowManager::XFWM4);
    assert_eq!(twice, XFWM4_FILE.as_bytes().to_vec());
    let (once, _) = toggle_window_manager_in_contents(GALA_FILE.as_bytes());
    let (twice, second) = toggle_window_manager_in_contents(&once);
    assert_eq!(second, WindowManager::Gala);
    assert_eq!(twice, GALA_FILE.as_bytes().to_vec());
}

#[test]
fn toggle_replaces_every_occurrence() {
    let text = "<a manager=\"xfwm4\"/><b manager=\"xfwm4\"/>";
    let (out, wm) = toggle_window_manager_in_contents(text.as_bytes());
    assert_eq!(wm, WindowManager::Gala);
    assert_eq!(out, b"<a manager=\"gala\"/><b manager=\"gala\"/>".to_vec());
}

#[test]
fn toggle_leaves_unrecognized_contents_alone() {
    let text = "<channel name=\"other\"/>";
    let (out, wm) = toggle_window_manager_in_contents(text.as_bytes());
    assert_eq!(wm, WindowManager::Unknown);
    assert_eq!(out, text.as_bytes().to_vec());
    assert_eq!(window_manager_in_contents(text.as_bytes()), WindowManager::Unknown);
}

#[test]
fn commands_name_the_window_manager() {
    assert_eq!(replace_command(WindowManager::Gala), Some("gala"));
    assert_eq!(replace_command(WindowManager::XFWM4), Some("xfwm4"));
    assert_eq!(replace_command(WindowManager::Unknown), None);
}

#[test]
fn restart_at_exit_only_on_change() {
    assert_eq!(restart_command_at_exit(WindowManager::XFWM4, WindowManager::Gala), Some("gala"));
    assert_eq!(restart_command_at_exit(WindowManager::Gala, WindowManager::XFWM4), Some("xfwm4"));
    assert_eq!(restart_command_at_exit(WindowManager::Gala, WindowManager::Gala), None);
    assert_eq!(restart_command_at_exit(WindowManager::Gala, WindowManager::Unknown), None);
}

#[test]
fn byte_search_finds_and_misses() {
    assert!(contains_bytes(b"abcde", b"cd"));
    assert!(contains_bytes(b"abc", b""));
    assert!(!contains_bytes(b"abc", b"abcd"));
    assert!(!contains_bytes(b"abcde", b"ce"));
}

#[test]
fn byte_replace_scans_left_to_right() {
    assert_eq!(replace_bytes(b"aaa", b"aa", b"b"), b"ba".to_vec());
    assert_eq!(replace_bytes(b"xyx", b"x", b"zz"), b"zzyzz".to_vec());
    assert_eq!(replace_bytes(b"", b"x", b"y"), Vec::<u8>::new());
}
