//! The three Gala preferences kept in dconf.
use vstd::prelude::*;

verus! {

/// A snapshot of the three preferences.
#[derive(Clone, Copy, Debug, PartialEq, Eq, Structural)]
pub struct Settings {
    pub dynamic_workspaces: bool,
    pub edge_tiling: bool,
    pub animations: bool,
}

/// One of the three preferences.
#[derive(Clone, Copy, Debug, PartialEq, Eq, Structural)]
pub enum Setting {
    DynamicWorkspaces,
    EdgeTiling,
    Animations,
}

/// Which writes of a save failed; the others went through.
#[derive(Clone, Copy, Debug, PartialEq, Eq, Structural)]
pub struct SaveError {
    pub dynamic_workspaces: bool,
    pub edge_tiling: bool,
    pub animations: bool,
}

/// The dconf key of a preference.
pub open spec fn setting_key(which: Setting) -> Seq<char> {
    match which {
        Setting::DynamicWorkspaces => "/org/pantheon/desktop/gala/behavior/dynamic-workspaces"@,
        Setting::EdgeTiling => "/org/gnome/mutter/edge-tiling"@,
        Setting::Animations => "/org/pantheon/desktop/gala/animations/enable-animations"@,
    }
}

/// The value that a read gives a preference: a failed read counts as `false`.
pub open spec fn flag_or_false(read: Result<bool, String>) -> bool {
    match read {
        Ok(b) => b,
        Err(_) => false,
    }
}

/// The snapshot made of three reads, in the order of the fields.
pub open spec fn settings_from_reads(
    dynamic_workspaces: Result<bool, String>,
    edge_tiling: Result<bool, String>,
    animations: Result<bool, String>,
) -> Settings {
    Settings {
        dynamic_workspaces: flag_or_false(dynamic_workspaces),
        edge_tiling: flag_or_false(edge_tiling),
        animations: flag_or_false(animations),
    }
}

/// The outcome of a save made of three writes.
pub open spec fn save_result(
    dynamic_workspaces: Result<(), String>,
    edge_tiling: Result<(), String>,
    animations: Result<(), String>,
) -> Result<(), SaveError> {
    if dynamic_workspaces is Ok && edge_tiling is Ok && animations is Ok {
        Ok(())
    } else {
        Err(
            SaveError {
                dynamic_workspaces: dynamic_workspaces is Err,
                edge_tiling: edge_tiling is Err,
                animations: animations is Err,
            },
        )
    }
}

/// Relies on dconf_rs::get_boolean, which runs `dconf read` on the key and
/// gives `Ok(true)` when it prints `true`, `Ok(false)` for any other output,
/// and `Err` when the tool cannot be run. What it gives depends on the store,
/// so nothing is promised of it. (It panics when the tool prints bytes that
/// are not UTF-8.)
#[verifier::external_body]
fn read_flag(key: &str) -> (r: Result<bool, String>) {
    dconf_rs::get_boolean(key)
}

/// Relies on dconf_rs::set_boolean, which runs `dconf write` with the key and
/// `true` or `false`, and gives `Err` when the tool cannot be run. Whether the
/// store took the value depends on the store, so nothing is promised of it.
#[verifier::external_body]
fn write_flag(key: &str, value: bool) -> (r: Result<(), String>) {
    dconf_rs::set_boolean(key, value)
}

impl Settings {
    /// The value of one preference.
    pub open spec fn value_of(self, which: Setting) -> bool {
        match which {
            Setting::DynamicWorkspaces => self.dynamic_workspaces,
            Setting::EdgeTiling => self.edge_tiling,
            Setting::Animations => self.animations,
        }
    }

    /// The snapshot with one preference flipped.
    pub open spec fn flipped(self, which: Setting) -> Settings {
        match which {
            Setting::DynamicWorkspaces => Settings { dynamic_workspaces: !self.dynamic_workspaces, ..self },
            Setting::EdgeTiling => Settings { edge_tiling: !self.edge_tiling, ..self },
            Setting::Animations => Settings { animations: !self.animations, ..self },
        }
    }

    /// The dconf key of a preference.
    pub fn key(which: Setting) -> (r: &'static str)
        ensures
            r@ == setting_key(which),
    {
        match which {
            Setting::DynamicWorkspaces => "/org/pantheon/desktop/gala/behavior/dynamic-workspaces",
            Setting::EdgeTiling => "/org/gnome/mutter/edge-tiling",
            Setting::Animations => "/org/pantheon/desktop/gala/animations/enable-animations",
        }
    }

    /// The snapshot made of the three reads: a failed read gives `false`,
    /// never an error.
    pub fn from_reads(
        dynamic_workspaces: Result<bool, String>,
        edge_tiling: Result<bool, String>,
        animations: Result<bool, String>,
    ) -> (r: Settings)
        ensures
            r == settings_from_reads(dynamic_workspaces, edge_tiling, animations),
    {
        Settings {
            dynamic_workspaces: match dynamic_workspaces {
                Ok(b) => b,
                Err(_) => false,
            },
            edge_tiling: match edge_tiling {
                Ok(b) => b,
                Err(_) => false,
            },
            animations: match animations {
                Ok(b) => b,
                Err(_) => false,
            },
        }
    }

    /// Reads the three preferences from dconf; one that cannot be read is
    /// `false`.
    pub fn load() -> (r: Settings) {
        let dynamic_workspaces = read_flag(Settings::key(Setting::DynamicWorkspaces));
        let edge_tiling = read_flag(Settings::key(Setting::EdgeTiling));
        let animations = read_flag(Settings::key(Setting::Animations));
        Settings::from_reads(dynamic_workspaces, edge_tiling, animations)
    }

    /// The outcome of a save from the outcomes of its three writes: `Ok` when
    /// all went through, else the writes that failed.
    pub fn save_outcome(
        dynamic_workspaces: Result<(), String>,
        edge_tiling: Result<(), String>,
        animations: Result<(), String>,
    ) -> (r: Result<(), SaveError>)
        ensures
            r == save_result(dynamic_workspaces, edge_tiling, animations),
    {
        let dw_failed = dynamic_workspaces.is_err();
        let et_failed = edge_tiling.is_err();
        let an_failed = animations.is_err();
        if !dw_failed && !et_failed && !an_failed {
            Ok(())
        } else {
            Err(SaveError { dynamic_workspaces: dw_failed, edge_tiling: et_failed, animations: an_failed })
        }
    }

    /// Writes all three preferences to dconf, dynamic workspaces first, then
    /// edge tiling, then animations. A failed write does not stop the next.
    pub fn save(self) -> (r: Result<(), SaveError>)
        ensures
            r is Err ==> (r->Err_0.dynamic_workspaces || r->Err_0.edge_tiling || r->Err_0.animations),
    {
        let dynamic_workspaces = write_flag(Settings::key(Setting::DynamicWorkspaces), self.dynamic_workspaces);
        let edge_tiling = write_flag(Settings::key(Setting::EdgeTiling), self.edge_tiling);
        let animations = write_flag(Settings::key(Setting::Animations), self.animations);
        Settings::save_outcome(dynamic_workspaces, edge_tiling, animations)
    }

    /// The snapshot with one preference flipped and the others kept.
    pub fn toggled(self, which: Setting) -> (r: Settings)
        ensures
            r == self.flipped(which),
            r.value_of(which) == !self.value_of(which),
    {
        match which {
            Setting::DynamicWorkspaces => Settings { dynamic_workspaces: !self.dynamic_workspaces, ..self },
            Setting::EdgeTiling => Settings { edge_tiling: !self.edge_tiling, ..self },
            Setting::Animations => Settings { animations: !self.animations, ..self },
        }
    }

    /// Flips one preference in the snapshot and saves all three.
    pub fn toggle_one(&mut self, which: Setting) -> (r: Result<(), SaveError>)
        ensures
            *final(self) == old(self).flipped(which),
            r is Err ==> (r->Err_0.dynamic_workspaces || r->Err_0.edge_tiling || r->Err_0.animations),
    {
        *self = self.toggled(which);
        self.save()
    }
}

/// What a save writes loads back unchanged: each preference is written under
/// the key it is read from, and a read that gives the written value makes the
/// same snapshot.
pub proof fn lemma_save_then_load(s: Settings)
    ensures
        settings_from_reads(
            Ok(s.value_of(Setting::DynamicWorkspaces)),
            Ok(s.value_of(Setting::EdgeTiling)),
            Ok(s.value_of(Setting::Animations)),
        ) == s,
        forall|a: Setting, b: Setting| setting_key(a) == setting_key(b) ==> a == b,
{
    assert forall|a: Setting, b: Setting| setting_key(a) == setting_key(b) implies a == b by {
        reveal_strlit("/org/pantheon/desktop/gala/behavior/dynamic-workspaces");
        reveal_strlit("/org/gnome/mutter/edge-tiling");
        reveal_strlit("/org/pantheon/desktop/gala/animations/enable-animations");
        if a != b {
            assert(setting_key(a).len() != setting_key(b).len());
        }
    }
}

/// A read that fails gives `false` for its preference, whatever the others give.
pub proof fn lemma_failed_read_is_false(
    dynamic_workspaces: Result<bool, String>,
    edge_tiling: Result<bool, String>,
    animations: Result<bool, String>,
)
    ensures
        dynamic_workspaces is Err ==> !settings_from_reads(dynamic_workspaces, edge_tiling, animations).dynamic_workspaces,
        edge_tiling is Err ==> !settings_from_reads(dynamic_workspaces, edge_tiling, animations).edge_tiling,
        animations is Err ==> !settings_from_reads(dynamic_workspaces, edge_tiling, animations).animations,
{
}

} // verus!
