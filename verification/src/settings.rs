//! Application settings (`settings.json` in the app's config folder).
use vstd::prelude::*;
use crate::text::{to_lower, lower_text, starts_with, has_prefix};

verus! {

#[derive(Debug, PartialEq, Eq)]
pub struct Settings {
    /// "de" | "en"
    pub language: String,
    /// "dark" | "light"
    pub theme: String,
    /// "blue" | "emerald" | "violet" | "amber"
    pub accent: String,
    pub auto_update: bool,
    /// Tier "nested" — freely switchable during early access, no licence check.
    pub nested: bool,
    /// Folder holding the machine folders (empty = app data folder/machines).
    pub machines_dir: String,
    /// Path overrides for the engines (empty = search automatically).
    pub qemu_dir: String,
    pub retroarch_path: String,
    pub cores_dir: String,
    pub system_dir: String,
    /// Ask before deleting and hard stops (UI only).
    pub confirm_dangerous: bool,
}

/// Calls `sys_locale::get_locale`: the preferred locale of the system, if any.
/// What comes back depends on the machine's settings; nothing is stated of it.
#[verifier::external_body]
fn system_locale() -> Option<String> {
    sys_locale::get_locale()
}

/// The interface language for a system locale: German for `de…`, else English.
pub open spec fn spec_language_for(locale: Option<Seq<char>>) -> Seq<char> {
    match locale {
        Some(l) => if has_prefix(lower_text(l), "de"@) { "de"@ } else { "en"@ },
        None => "en"@,
    }
}

pub fn language_for(locale: Option<String>) -> (r: String)
    ensures
        r@ == spec_language_for(match locale { Some(l) => Some(l@), None => None }),
{
    match locale {
        Some(l) => {
            let low = to_lower(l.as_str());
            if starts_with(low.as_str(), "de") {
                String::from_str("de")
            } else {
                String::from_str("en")
            }
        },
        None => String::from_str("en"),
    }
}

impl Default for Settings {
    fn default() -> (r: Self)
        ensures
            r.language@ == "de"@ || r.language@ == "en"@,
            r.theme@ == "dark"@,
            r.accent@ == "blue"@,
            !r.auto_update,
            !r.nested,
            r.machines_dir@ == Seq::<char>::empty(),
            r.qemu_dir@ == Seq::<char>::empty(),
            r.retroarch_path@ == Seq::<char>::empty(),
            r.cores_dir@ == Seq::<char>::empty(),
            r.system_dir@ == Seq::<char>::empty(),
            r.confirm_dangerous,
    {
        Settings {
            language: language_for(system_locale()),
            theme: String::from_str("dark"),
            accent: String::from_str("blue"),
            auto_update: false,
            nested: false,
            machines_dir: String::new(),
            qemu_dir: String::new(),
            retroarch_path: String::new(),
            cores_dir: String::new(),
            system_dir: String::new(),
            confirm_dangerous: true,
        }
    }
}

} // verus!
