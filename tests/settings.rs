use xfce_gala_settings::settings::{SaveError, Setting, Settings};

#[test]
fn failed_reads_give_false() {
    let s = Settings::from_reads(Err("no dconf".to_string()), Ok(true), Err("no key".to_string()));
    assert_eq!(s, Settings { dynamic_workspaces: false, edge_tiling: true, animations: false });
}

#[test]
fn successful_reads_are_kept() {
    let s = Settings::from_reads(Ok(true), Ok(false), Ok(true));
    assert_eq!(s, Settings { dynamic_workspaces: true, edge_tiling: false, animations: true });
}

#[test]
fn written_values_read_back_unchanged() {
    for bits in 0u8..8 {
        let s = Settings {
            dynamic_workspaces: bits & 1 != 0,
            edge_tiling: bits & 2 != 0,
            animations: bits & 4 != 0,
        };
        let back = Settings::from_reads(Ok(s.dynamic_workspaces), Ok(s.edge_tiling), Ok(s.animations));
        assert_eq!(back, s);
    }
}

#[test]
fn keys_are_the_dconf_paths() {
    assert_eq!(
        Settings::key(Setting::DynamicWorkspaces),
        "/org/pantheon/desktop/gala/behavior/dynamic-workspaces"
    );
    assert_eq!(Settings::key(Setting::EdgeTiling), "/org/gnome/mutter/edge-tiling");
    assert_eq!(
        Settings::key(Setting::Animations),
        "/org/pantheon/desktop/gala/animations/enable-animations"
    );
}

#[test]
fn save_outcome_reports_failed_writes() {
    assert_eq!(Settings::save_outcome(Ok(()), Ok(()), Ok(())), Ok(()));
    assert_eq!(
        Settings::save_outcome(Ok(()), Err("x".to_string()), Ok(())),
        Err(SaveError { dynamic_workspaces: false, edge_tiling: true, animations: false })
    );
    assert_eq!(
        Settings::save_outcome(Err("x".to_string()), Ok(()), Err("y".to_string())),
        Err(SaveError { dynamic_workspaces: true, edge_tiling: false, animations: true })
    );
}

#[test]
fn toggled_flips_one_setting() {
    let s = Settings { dynamic_workspaces: false, edge_tiling: true, animations: false };
    assert_eq!(
        s.toggled(Setting::DynamicWorkspaces),
        Settings { dynamic_workspaces: true, edge_tiling: true, animations: false }
    );
    assert_eq!(
        s.toggled(Setting::EdgeTiling),
        Settings { dynamic_workspaces: false, edge_tiling: false, animations: false }
    );
    assert_eq!(
        s.toggled(Setting::Animations),
        Settings { dynamic_workspaces: false, edge_tiling: true, animations: true }
    );
}
