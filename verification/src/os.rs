//! Where each operating system keeps a program's files.

use crate::text::{contains, contains_text, same_text, texts};
use crate::APP_NAME;
use vstd::prelude::*;

verus! {

/// The operating systems that are told apart.
#[derive(Debug, Clone, Copy, PartialEq, Eq, Structural)]
pub enum Os {
    Windows,
    Mac,
    Unix,
}

/// What the variables of the process say of the places for a user's files; one
/// that is not set, or holds no text, is absent.
#[derive(Debug)]
pub struct ConfigVars {
    /// `APPDATA`
    pub appdata: Option<String>,
    /// `HOME`
    pub home: Option<String>,
    /// `XDG_CONFIG_HOME`
    pub xdg_config_home: Option<String>,
}

/// The variable without which the place cannot be named.
#[derive(Debug, Clone, Copy, PartialEq, Eq, Structural)]
pub enum MissingVar {
    Appdata,
    Home,
}

/// The operating system that goes by `name`.
pub open spec fn os_named(name: Seq<char>) -> Option<Os> {
    if name == "windows"@ {
        Some(Os::Windows)
    } else if name == "macos"@ {
        Some(Os::Mac)
    } else if name == "linux"@ || contains_text(name, "bsd"@) {
        Some(Os::Unix)
    } else {
        None
    }
}

/// The parts of the path of the program's directory, outermost first.
pub open spec fn config_path_of(os: Os, vars: ConfigVars) -> Result<Seq<Seq<char>>, MissingVar> {
    match os {
        Os::Windows => match vars.appdata {
            Some(appdata) => Ok(seq![appdata@, APP_NAME@]),
            None => Err(MissingVar::Appdata),
        },
        Os::Mac => match vars.home {
            Some(home) => Ok(seq![home@, "Library"@, "Application Support"@, APP_NAME@]),
            None => Err(MissingVar::Home),
        },
        Os::Unix => match vars.xdg_config_home {
            Some(xdg) => Ok(seq![xdg@, APP_NAME@]),
            None => match vars.home {
                Some(home) => Ok(seq![home@, ".config"@, APP_NAME@]),
                None => Err(MissingVar::Home),
            },
        },
    }
}

impl Os {
    /// The operating system that goes by the name `os_str`: "windows", "macos",
    /// "linux", or one with "bsd" in it.
    pub fn get_current(os_str: &str) -> (r: Option<Self>)
        ensures
            r == os_named(os_str@),
    {
        if same_text(os_str, "windows") {
            Some(Os::Windows)
        } else if same_text(os_str, "macos") {
            Some(Os::Mac)
        } else if same_text(os_str, "linux") || contains(os_str, "bsd") {
            Some(Os::Unix)
        } else {
            None
        }
    }

    /// The parts of the path of the program's directory, outermost first, or
    /// the variable that would have been needed to name it.
    pub fn get_config_path(&self, vars: ConfigVars) -> (r: Result<Vec<String>, MissingVar>)
        ensures
            match r {
                Ok(parts) => config_path_of(*self, vars) == Ok::<Seq<Seq<char>>, MissingVar>(
                    texts(parts@),
                ),
                Err(missing) => config_path_of(*self, vars) == Err::<Seq<Seq<char>>, MissingVar>(
                    missing,
                ),
            },
    {
        let mut parts: Vec<String> = Vec::new();
        match self {
            Os::Windows => match vars.appdata {
                Some(appdata) => {
                    parts.push(appdata);
                },
                None => {
                    return Err(MissingVar::Appdata);
                },
            },
            Os::Mac => match vars.home {
                Some(home) => {
                    parts.push(home);
                    parts.push("Library".to_owned());
                    parts.push("Application Support".to_owned());
                },
                None => {
                    return Err(MissingVar::Home);
                },
            },
            Os::Unix => match vars.xdg_config_home {
                Some(xdg) => {
                    parts.push(xdg);
                },
                None => match vars.home {
                    Some(home) => {
                        parts.push(home);
                        parts.push(".config".to_owned());
                    },
                    None => {
                        return Err(MissingVar::Home);
                    },
                },
            },
        }
        parts.push(APP_NAME.to_owned());
        assert(texts(parts@) =~= config_path_of(*self, vars).unwrap());
        Ok(parts)
    }
}

} // verus!
