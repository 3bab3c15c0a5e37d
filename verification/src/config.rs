//! The logind drop-in configuration file that the tool creates and removes.
//! Its path and its content are fixed; its presence on disk is the only
//! state the tool persists.

use vstd::prelude::*;

verus! {

/// The fixed path of the drop-in file.
pub open spec fn spec_config_path() -> Seq<char> {
    "/etc/systemd/logind.conf.d/99-suspend-manager.conf"@
}

/// The directory that holds the drop-in file.
pub open spec fn spec_config_dir() -> Seq<char> {
    "/etc/systemd/logind.conf.d"@
}

/// The exact text the drop-in file must contain: a `[Login]` section that
/// tells logind to ignore idle timeouts and lid-switch events, including
/// on external power.
pub open spec fn spec_config_content() -> Seq<char> {
    "[Login]\nIdleAction=ignore\nHandleLidSwitch=ignore\nHandleLidSwitchExternalPower=ignore\n"@
}

/// The service that must be restarted for logind to re-read the drop-in
/// directory.
pub open spec fn spec_login_manager() -> Seq<char> {
    "systemd-logind"@
}

/// Path of the drop-in configuration file.
pub fn config_path() -> (r: &'static str)
    ensures
        r@ == spec_config_path(),
{
    "/etc/systemd/logind.conf.d/99-suspend-manager.conf"
}

/// Directory of the drop-in configuration file.
pub fn config_dir() -> (r: &'static str)
    ensures
        r@ == spec_config_dir(),
{
    "/etc/systemd/logind.conf.d"
}

/// The exact content the drop-in file is written with.
pub fn config_content() -> (r: &'static str)
    ensures
        r@ == spec_config_content(),
{
    "[Login]\nIdleAction=ignore\nHandleLidSwitch=ignore\nHandleLidSwitchExternalPower=ignore\n"
}

/// Name of the login-manager service.
pub fn login_manager() -> (r: &'static str)
    ensures
        r@ == spec_login_manager(),
{
    "systemd-logind"
}

} // verus!
