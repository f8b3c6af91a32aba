//! User preferences: the switches the correction pipeline reads, per
//! application settings, and the user's own typo table.

use vstd::prelude::*;
use vstd::string::StringExecFns;

use crate::table::StringMap;

verus! {

/// Settings for one application.
#[derive(Clone, Copy, Debug, PartialEq, Eq, Structural)]
pub struct AppConfig {
    pub enabled: bool,
    pub smart_quotes: Option<bool>,
    pub autocorrect: Option<bool>,
}

/// The whole configuration.
pub struct Config {
    pub enabled: bool,
    pub smart_punctuation: bool,
    pub autocorrect: bool,
    pub min_word_length: usize,
    /// Settings by application name.
    pub applications: StringMap<AppConfig>,
    /// Corrections by typo.
    pub custom_typos: StringMap<String>,
    pub hotkey: String,
}

/// Settings for an application with autocorrect on and smart quotes as given.
pub open spec fn app_with_quotes(smart_quotes: bool) -> AppConfig {
    AppConfig { enabled: true, smart_quotes: Some(smart_quotes), autocorrect: Some(true) }
}

fn app_with(smart_quotes: bool) -> (a: AppConfig)
    ensures
        a == app_with_quotes(smart_quotes),
{
    AppConfig { enabled: true, smart_quotes: Some(smart_quotes), autocorrect: Some(true) }
}

impl Default for Config {
    /// Everything on, words of two characters or more, smart quotes off in
    /// terminals and the code editor, and two common typos.
    fn default() -> (c: Config)
        ensures
            c.enabled,
            c.smart_punctuation,
            c.autocorrect,
            c.min_word_length == 2,
            c.hotkey@ == "Super+Shift+A"@,
            c.applications@ == map![
                "firefox"@ => app_with_quotes(true),
                "qterminal"@ => app_with_quotes(false),
                "kitty"@ => app_with_quotes(false),
                "alacritty"@ => app_with_quotes(false),
                "code"@ => app_with_quotes(false),
            ],
            c.custom_typos@.dom() == set!["hte"@, "becuase"@],
            c.custom_typos@["hte"@]@ == "the"@,
            c.custom_typos@["becuase"@]@ == "because"@,
    {
        let mut applications: StringMap<AppConfig> = StringMap::new();
        applications.insert(String::from_str("firefox"), app_with(true));
        applications.insert(String::from_str("qterminal"), app_with(false));
        applications.insert(String::from_str("kitty"), app_with(false));
        applications.insert(String::from_str("alacritty"), app_with(false));
        applications.insert(String::from_str("code"), app_with(false));
        let mut custom_typos: StringMap<String> = StringMap::new();
        custom_typos.insert(String::from_str("hte"), String::from_str("the"));
        custom_typos.insert(String::from_str("becuase"), String::from_str("because"));
        proof {
            reveal_strlit("hte");
            reveal_strlit("becuase");
            assert("hte"@ != "becuase"@) by {
                assert("hte"@.len() != "becuase"@.len());
            }
            assert(custom_typos@.dom() =~= set!["hte"@, "becuase"@]);
        }
        Config {
            enabled: true,
            smart_punctuation: true,
            autocorrect: true,
            min_word_length: 2,
            applications,
            custom_typos,
            hotkey: String::from_str("Super+Shift+A"),
        }
    }
}

impl Config {
    /// The settings for the application `app_name`, if it has any.
    pub fn get_app_config(&self, app_name: &str) -> (r: Option<&AppConfig>)
        ensures
            r is Some <==> self.applications@.contains_key(app_name@),
            r matches Some(a) ==> *a == self.applications@[app_name@],
    {
        self.applications.get(app_name)
    }

    /// Sets the settings for the application `app_name`.
    pub fn set_app_config(&mut self, app_name: String, config: AppConfig)
        ensures
            final(self).applications@ == old(self).applications@.insert(app_name@, config),
            final(self).custom_typos@ == old(self).custom_typos@,
            final(self).enabled == old(self).enabled,
            final(self).smart_punctuation == old(self).smart_punctuation,
            final(self).autocorrect == old(self).autocorrect,
            final(self).min_word_length == old(self).min_word_length,
            final(self).hotkey == old(self).hotkey,
    {
        self.applications.insert(app_name, config);
    }

    /// Adds, or replaces, the correction of `typo`.
    pub fn add_custom_typo(&mut self, typo: String, correction: String)
        ensures
            final(self).custom_typos@ == old(self).custom_typos@.insert(typo@, correction),
            final(self).applications@ == old(self).applications@,
            final(self).enabled == old(self).enabled,
            final(self).smart_punctuation == old(self).smart_punctuation,
            final(self).autocorrect == old(self).autocorrect,
            final(self).min_word_length == old(self).min_word_length,
            final(self).hotkey == old(self).hotkey,
    {
        self.custom_typos.insert(typo, correction);
    }

    /// Removes the correction of `typo`, if there is one.
    pub fn remove_custom_typo(&mut self, typo: &str)
        ensures
            final(self).custom_typos@ == old(self).custom_typos@.remove(typo@),
            final(self).applications@ == old(self).applications@,
            final(self).enabled == old(self).enabled,
            final(self).smart_punctuation == old(self).smart_punctuation,
            final(self).autocorrect == old(self).autocorrect,
            final(self).min_word_length == old(self).min_word_length,
            final(self).hotkey == old(self).hotkey,
    {
        self.custom_typos.remove(typo);
    }

    /// The correction of `typo` in the user's table, if any.
    pub fn custom_typo(&self, typo: &str) -> (r: Option<&String>)
        ensures
            r is Some <==> self.custom_typos@.contains_key(typo@),
            r matches Some(c) ==> *c == self.custom_typos@[typo@],
    {
        self.custom_typos.get(typo)
    }
}

} // verus!
