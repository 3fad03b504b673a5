//! Where the per-user session file lives, and whether it must be seeded from
//! the system-wide template.
use vstd::prelude::*;
use vstd::string::StringExecFns;

verus! {

/// What can stop the window-manager switch.
#[derive(Clone, Copy, Debug, PartialEq, Eq, Structural)]
pub enum ConfigError {
    /// `HOME` is unset or empty.
    MissingEnvironment,
    /// The system-wide template of the session file does not exist.
    TemplateMissing,
    /// Copying the template to the per-user location failed.
    CopyFailed,
    /// The session file could not be read.
    ReadFailed,
    /// The session file could not be written.
    WriteFailed,
    /// The window manager could not be started.
    ProcessSpawnFailed,
}

/// The system-wide template that seeds the per-user session file.
pub const TEMPLATE_PATH: &'static str = "/etc/xdg/xfce4/xfconf/xfce-perchannel-xml/xfce4-session.xml";

/// Where the session file lies below the data directory.
pub open spec fn session_file_suffix() -> Seq<char> {
    "/xfce4/xfconf/xfce-perchannel-xml/xfce4-session.xml"@
}

/// The data directory: `XDG_DATA_HOME` when it is set, else `$HOME/.config`.
pub open spec fn data_dir(home: Seq<char>, data_home: Option<Seq<char>>) -> Seq<char> {
    match data_home {
        Some(d) => d,
        None => home + "/.config"@,
    }
}

/// The path of the per-user session file.
pub open spec fn session_file_path(home: Seq<char>, data_home: Option<Seq<char>>) -> Seq<char> {
    data_dir(home, data_home) + session_file_suffix()
}

/// The view of an optional string.
pub open spec fn opt_view(s: Option<&str>) -> Option<Seq<char>> {
    match s {
        Some(v) => Some(v@),
        None => None,
    }
}

/// `HOME` is set and not empty.
pub open spec fn home_is_set(home: Option<&str>) -> bool {
    home is Some && home->0@.len() > 0
}

/// The path of the per-user session file, from the values of `HOME` and
/// `XDG_DATA_HOME` (`None` where a variable is unset). `HOME` is required
/// even where `XDG_DATA_HOME` is set.
pub fn session_file_path_from(home: Option<&str>, data_home: Option<&str>) -> (r: Result<String, ConfigError>)
    ensures
        r is Err <==> !home_is_set(home),
        r is Err ==> r->Err_0 == ConfigError::MissingEnvironment,
        r is Ok ==> r->Ok_0@ == session_file_path(home->0@, opt_view(data_home)),
{
    let h = match home {
        Some(h) => h,
        None => {
            return Err(ConfigError::MissingEnvironment);
        },
    };
    if h.is_empty() {
        return Err(ConfigError::MissingEnvironment);
    }
    let mut path = match data_home {
        Some(d) => String::from_str(d),
        None => {
            let mut p = String::from_str(h);
            p.append("/.config");
            p
        },
    };
    path.append("/xfce4/xfconf/xfce-perchannel-xml/xfce4-session.xml");
    Ok(path)
}

/// What starting the switch does about the per-user session file.
#[derive(Clone, Copy, Debug, PartialEq, Eq, Structural)]
pub enum InitStep {
    /// The file exists: nothing is read, copied or written.
    Keep,
    /// The file is missing: copy the template to it.
    CopyTemplate,
}

/// Decides, from whether the per-user file and the template exist, how the
/// per-user file comes to exist. An existing file is never touched.
pub fn initialization_step(file_exists: bool, template_exists: bool) -> (r: Result<InitStep, ConfigError>)
    ensures
        file_exists ==> r == Ok::<InitStep, ConfigError>(InitStep::Keep),
        !file_exists && template_exists ==> r == Ok::<InitStep, ConfigError>(InitStep::CopyTemplate),
        !file_exists && !template_exists ==> r == Err::<InitStep, ConfigError>(ConfigError::TemplateMissing),
{
    if file_exists {
        Ok(InitStep::Keep)
    } else if template_exists {
        Ok(InitStep::CopyTemplate)
    } else {
        Err(ConfigError::TemplateMissing)
    }
}

} // verus!
