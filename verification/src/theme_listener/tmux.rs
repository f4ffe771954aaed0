//! The adapter for the tmux terminal multiplexer: which configuration file
//! to source for which theme.

use crate::text::{chosen, join_path, lines_of, path_join, value_or};
use crate::theme::Theme;
use crate::theme_listener::{home_directory, AdapterError};
use vstd::prelude::*;
use vstd::string::*;

verus! {

/// The adapter that makes a running tmux source the configuration file of
/// the current theme.
#[derive(Clone, Debug)]
pub struct Tmux {
    light_theme_config_path: String,
    dark_theme_config_path: String,
}

impl Tmux {
    /// The path of the configuration file used for the light theme.
    pub closed spec fn light_config(&self) -> Seq<char> {
        self.light_theme_config_path@
    }

    /// The path of the configuration file used for the dark theme.
    pub closed spec fn dark_config(&self) -> Seq<char> {
        self.dark_theme_config_path@
    }

    /// The path of the configuration file used for a theme.
    pub open spec fn config_for(&self, theme: Theme) -> Seq<char> {
        match theme {
            Theme::LIGHT => self.light_config(),
            Theme::DARK => self.dark_config(),
        }
    }

    /// Where tmux themes lie under a home directory.
    pub open spec fn themes_directory(home: Seq<char>) -> Seq<char> {
        join_path(home, ".config/tmux/themes/"@)
    }

    /// Where the configuration file of the given name lies under a home
    /// directory.
    pub open spec fn theme_file(home: Seq<char>, name: Seq<char>) -> Seq<char> {
        join_path(Self::themes_directory(home), name + ".config"@)
    }

    /// The directory of tmux themes under a home directory.
    pub fn config_directory(home: &str) -> (path: String)
        ensures
            path@ == Self::themes_directory(home@),
    {
        path_join(home, ".config/tmux/themes/")
    }

    /// Sets the adapter up from what the environment says: the home
    /// directory and the names of the two themes.  A name that is absent
    /// falls back to a placeholder that names no file.  Nothing on disk is
    /// consulted: see [`Tmux::confirm`].
    pub fn new(home: Option<String>, light_theme: Option<String>, dark_theme: Option<String>) -> (adapter:
        Tmux)
        ensures
            adapter.light_config() == Self::theme_file(
                chosen(home, Seq::empty()),
                chosen(light_theme, "Light theme not set"@),
            ),
            adapter.dark_config() == Self::theme_file(
                chosen(home, Seq::empty()),
                chosen(dark_theme, "Dark theme not set"@),
            ),
    {
        let home_path = home_directory(home);
        let directory = Self::config_directory(home_path.as_str());
        let mut light_file = value_or(light_theme, "Light theme not set");
        light_file.append(".config");
        let mut dark_file = value_or(dark_theme, "Dark theme not set");
        dark_file.append(".config");
        Tmux {
            light_theme_config_path: path_join(directory.as_str(), light_file.as_str()),
            dark_theme_config_path: path_join(directory.as_str(), dark_file.as_str()),
        }
    }

    /// Keeps the adapter only if everything it relies on was found.  What is
    /// missing is reported from the outside in: the home directory first,
    /// then the directory of themes, then the two files.
    pub fn confirm(
        self,
        home_found: bool,
        directory_found: bool,
        light_found: bool,
        dark_found: bool,
    ) -> (adapter: Result<Tmux, AdapterError>)
        ensures
            adapter == (if !home_found {
                Err::<Tmux, AdapterError>(AdapterError::HomeNotFound)
            } else if !directory_found {
                Err(AdapterError::DirectoryNotFound)
            } else if !light_found || !dark_found {
                Err(AdapterError::ConfigNotFound)
            } else {
                Ok(self)
            }),
    {
        if !home_found {
            Err(AdapterError::HomeNotFound)
        } else if !directory_found {
            Err(AdapterError::DirectoryNotFound)
        } else if !light_found || !dark_found {
            Err(AdapterError::ConfigNotFound)
        } else {
            Ok(self)
        }
    }

    /// The configuration file to source for a theme.
    pub fn config_path(&self, theme: Theme) -> (path: &str)
        ensures
            path@ == self.config_for(theme),
    {
        match theme {
            Theme::DARK => self.dark_theme_config_path.as_str(),
            Theme::LIGHT => self.light_theme_config_path.as_str(),
        }
    }

    /// The command line that applies a theme: the program, then its
    /// arguments.
    pub fn reload_command(&self, theme: Theme) -> (command: Vec<String>)
        ensures
            lines_of(command@) == seq!["tmux"@, "source"@, self.config_for(theme)],
    {
        let mut command: Vec<String> = Vec::new();
        command.push(String::from_str("tmux"));
        command.push(String::from_str("source"));
        command.push(String::from_str(self.config_path(theme)));
        assert(lines_of(command@) =~= seq!["tmux"@, "source"@, self.config_for(theme)]);
        command
    }
}

} // verus!
