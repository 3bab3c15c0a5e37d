//! The argument vectors of the external commands the tool runs. Each
//! builder pins the exact words handed to the operating system, so a
//! driver only has to spawn what it is given.
//!
//! Mutating commands go through `sudo`; the status query does not, as
//! `systemctl is-enabled` needs no privilege.

use vstd::prelude::*;

use crate::targets::{spec_target_name, target_name, TARGET_COUNT};

verus! {

/// Argument vector that masks the target at position `i`.
pub open spec fn spec_mask_command(i: int) -> Seq<Seq<char>> {
    seq!["sudo"@, "systemctl"@, "mask"@, spec_target_name(i)]
}

/// Argument vector that unmasks the target at position `i`.
pub open spec fn spec_unmask_command(i: int) -> Seq<Seq<char>> {
    seq!["sudo"@, "systemctl"@, "unmask"@, spec_target_name(i)]
}

/// Argument vector that creates the drop-in directory (best effort).
pub open spec fn spec_ensure_dir_command() -> Seq<Seq<char>> {
    seq!["sudo"@, "mkdir"@, "-p"@, crate::config::spec_config_dir()]
}

/// Argument vector that writes standard input to the drop-in file.
pub open spec fn spec_write_config_command() -> Seq<Seq<char>> {
    seq!["sudo"@, "tee"@, crate::config::spec_config_path()]
}

/// Argument vector that removes the drop-in file (best effort).
pub open spec fn spec_remove_config_command() -> Seq<Seq<char>> {
    seq!["sudo"@, "rm"@, "-f"@, crate::config::spec_config_path()]
}

/// Argument vector that restarts the login-manager service.
pub open spec fn spec_restart_command() -> Seq<Seq<char>> {
    seq!["sudo"@, "systemctl"@, "restart"@, crate::config::spec_login_manager()]
}

/// Argument vector that queries the enablement state of the target at
/// position `i`.
pub open spec fn spec_query_command(i: int) -> Seq<Seq<char>> {
    seq!["systemctl"@, "is-enabled"@, spec_target_name(i)]
}

/// Command that masks target `i`.
pub fn mask_command(i: usize) -> (r: Vec<&'static str>)
    requires
        i < TARGET_COUNT,
    ensures
        r.deep_view() == spec_mask_command(i as int),
{
    let mut r: Vec<&'static str> = Vec::new();
    r.push("sudo");
    r.push("systemctl");
    r.push("mask");
    r.push(target_name(i));
    proof {
        assert(r.deep_view() =~= spec_mask_command(i as int));
    }
    r
}

/// Command that unmasks target `i`.
pub fn unmask_command(i: usize) -> (r: Vec<&'static str>)
    requires
        i < TARGET_COUNT,
    ensures
        r.deep_view() == spec_unmask_command(i as int),
{
    let mut r: Vec<&'static str> = Vec::new();
    r.push("sudo");
    r.push("systemctl");
    r.push("unmask");
    r.push(target_name(i));
    proof {
        assert(r.deep_view() =~= spec_unmask_command(i as int));
    }
    r
}

/// Command that creates the drop-in directory.
pub fn ensure_dir_command() -> (r: Vec<&'static str>)
    ensures
        r.deep_view() == spec_ensure_dir_command(),
{
    let mut r: Vec<&'static str> = Vec::new();
    r.push("sudo");
    r.push("mkdir");
    r.push("-p");
    r.push(crate::config::config_dir());
    proof {
        assert(r.deep_view() =~= spec_ensure_dir_command());
    }
    r
}

/// Command that streams standard input into the drop-in file.
pub fn write_config_command() -> (r: Vec<&'static str>)
    ensures
        r.deep_view() == spec_write_config_command(),
{
    let mut r: Vec<&'static str> = Vec::new();
    r.push("sudo");
    r.push("tee");
    r.push(crate::config::config_path());
    proof {
        assert(r.deep_view() =~= spec_write_config_command());
    }
    r
}

/// Command that removes the drop-in file.
pub fn remove_config_command() -> (r: Vec<&'static str>)
    ensures
        r.deep_view() == spec_remove_config_command(),
{
    let mut r: Vec<&'static str> = Vec::new();
    r.push("sudo");
    r.push("rm");
    r.push("-f");
    r.push(crate::config::config_path());
    proof {
        assert(r.deep_view() =~= spec_remove_config_command());
    }
    r
}

/// Command that restarts the login manager.
pub fn restart_command() -> (r: Vec<&'static str>)
    ensures
        r.deep_view() == spec_restart_command(),
{
    let mut r: Vec<&'static str> = Vec::new();
    r.push("sudo");
    r.push("systemctl");
    r.push("restart");
    r.push(crate::config::login_manager());
    proof {
        assert(r.deep_view() =~= spec_restart_command());
    }
    r
}

/// Command that queries the enablement state of target `i`.
pub fn query_command(i: usize) -> (r: Vec<&'static str>)
    requires
        i < TARGET_COUNT,
    ensures
        r.deep_view() == spec_query_command(i as int),
{
    let mut r: Vec<&'static str> = Vec::new();
    r.push("systemctl");
    r.push("is-enabled");
    r.push(target_name(i));
    proof {
        assert(r.deep_view() =~= spec_query_command(i as int));
    }
    r
}

} // verus!
