use suspend_manager::commands::{
    ensure_dir_command, mask_command, query_command, remove_config_command, restart_command,
    unmask_command, write_config_command,
};
use suspend_manager::config::{config_content, config_dir, config_path, login_manager};
use suspend_manager::disable::{DisableAction, DisableState};
use suspend_manager::enable::{EnableAction, EnableState};
use suspend_manager::status::{
    contains_masked, status_report, MaskIndicator, TargetQuery,
};
use suspend_manager::targets::{target_name, TARGET_COUNT};

/// Drive the disable machine with one outcome per issued action; return
/// the actions in order and the final state.
fn drive_disable(outcomes: &[bool]) -> (Vec<DisableAction>, DisableState) {
    let mut state = DisableState::initial();
    let mut actions = Vec::new();
    let mut i = 0;
    while let Some(action) = state.next_action() {
        assert!(i < outcomes.len(), "machine asked for more outcomes than supplied");
        actions.push(action);
        state = state.step(outcomes[i]);
        i += 1;
    }
    assert_eq!(i, outcomes.len(), "machine consumed fewer outcomes than supplied");
    (actions, state)
}

/// Drive the enable machine the same way.
fn drive_enable(outcomes: &[bool]) -> (Vec<EnableAction>, EnableState) {
    let mut state = EnableState::initial();
    let mut actions = Vec::new();
    let mut i = 0;
    while let Some(action) = state.next_action() {
        assert!(i < outcomes.len(), "machine asked for more outcomes than supplied");
        actions.push(action);
        state = state.step(outcomes[i]);
        i += 1;
    }
    assert_eq!(i, outcomes.len(), "machine consumed fewer outcomes than supplied");
    (actions, state)
}

#[test]
fn target_list_is_fixed_and_ordered() {
    assert_eq!(TARGET_COUNT, 4);
    assert_eq!(target_name(0), "sleep.target");
    assert_eq!(target_name(1), "suspend.target");
    assert_eq!(target_name(2), "hibernate.target");
    assert_eq!(target_name(3), "hybrid-sleep.target");
}

#[test]
fn config_file_constants_are_exact() {
    assert_eq!(
        config_path(),
        "/etc/systemd/logind.conf.d/99-suspend-manager.conf"
    );
    assert_eq!(config_dir(), "/etc/systemd/logind.conf.d");
    assert_eq!(
        config_content(),
        "[Login]\nIdleAction=ignore\nHandleLidSwitch=ignore\nHandleLidSwitchExternalPower=ignore\n"
    );
    assert_eq!(config_content().lines().count(), 4);
    assert_eq!(login_manager(), "systemd-logind");
}

#[test]
fn command_words_are_exact() {
    assert_eq!(mask_command(1), vec!["sudo", "systemctl", "mask", "suspend.target"]);
    assert_eq!(unmask_command(3), vec!["sudo", "systemctl", "unmask", "hybrid-sleep.target"]);
    assert_eq!(
        ensure_dir_command(),
        vec!["sudo", "mkdir", "-p", "/etc/systemd/logind.conf.d"]
    );
    assert_eq!(
        write_config_command(),
        vec!["sudo", "tee", "/etc/systemd/logind.conf.d/99-suspend-manager.conf"]
    );
    assert_eq!(
        remove_config_command(),
        vec!["sudo", "rm", "-f", "/etc/systemd/logind.conf.d/99-suspend-manager.conf"]
    );
    assert_eq!(restart_command(), vec!["sudo", "systemctl", "restart", "systemd-logind"]);
    assert_eq!(query_command(0), vec!["systemctl", "is-enabled", "sleep.target"]);
}

#[test]
fn disable_success_masks_all_targets_in_order_then_writes_config() {
    let (actions, state) = drive_disable(&[true, true, true, true, true, true, true]);
    assert_eq!(
        actions,
        vec![
            DisableAction::MaskTarget { index: 0 },
            DisableAction::MaskTarget { index: 1 },
            DisableAction::MaskTarget { index: 2 },
            DisableAction::MaskTarget { index: 3 },
            DisableAction::EnsureConfigDir,
            DisableAction::WriteConfig,
            DisableAction::RestartLoginManager,
        ]
    );
    assert_eq!(state, DisableState::Done { restart_ok: true });
    assert_eq!(state.exit_code(), 0);
}

#[test]
fn disable_stops_at_first_mask_failure() {
    let (actions, state) = drive_disable(&[true, true, false]);
    assert_eq!(
        actions,
        vec![
            DisableAction::MaskTarget { index: 0 },
            DisableAction::MaskTarget { index: 1 },
            DisableAction::MaskTarget { index: 2 },
        ]
    );
    assert_eq!(state, DisableState::MaskFailed { index: 2 });
    assert_eq!(state.next_action(), None);
    assert_eq!(state.exit_code(), 1);
}

#[test]
fn disable_ignores_directory_creation_failure() {
    let (actions, state) = drive_disable(&[true, true, true, true, false, true, true]);
    assert_eq!(actions.len(), 7);
    assert_eq!(actions[4], DisableAction::EnsureConfigDir);
    assert_eq!(actions[5], DisableAction::WriteConfig);
    assert_eq!(state, DisableState::Done { restart_ok: true });
    assert_eq!(state.exit_code(), 0);
}

#[test]
fn disable_aborts_when_config_write_fails() {
    let (actions, state) = drive_disable(&[true, true, true, true, true, false]);
    assert_eq!(
        actions,
        vec![
            DisableAction::MaskTarget { index: 0 },
            DisableAction::MaskTarget { index: 1 },
            DisableAction::MaskTarget { index: 2 },
            DisableAction::MaskTarget { index: 3 },
            DisableAction::EnsureConfigDir,
            DisableAction::WriteConfig,
        ]
    );
    assert_eq!(state, DisableState::WriteFailed);
    assert_eq!(state.exit_code(), 1);
}

#[test]
fn disable_treats_restart_failure_as_warning_only() {
    let (actions, state) = drive_disable(&[true, true, true, true, true, true, false]);
    assert_eq!(actions.len(), 7);
    assert_eq!(state, DisableState::Done { restart_ok: false });
    assert_eq!(state.exit_code(), 0);
}

#[test]
fn disable_twice_issues_the_same_actions() {
    let outcomes = [true, true, true, true, true, true, true];
    let (first_actions, first_state) = drive_disable(&outcomes);
    let (second_actions, second_state) = drive_disable(&outcomes);
    assert_eq!(first_actions, second_actions);
    assert_eq!(first_state, second_state);
    assert_eq!(second_state.exit_code(), 0);
}

#[test]
fn enable_success_unmasks_all_targets_in_order_then_removes_config() {
    let (actions, state) = drive_enable(&[true, true, true, true, true, true]);
    assert_eq!(
        actions,
        vec![
            EnableAction::UnmaskTarget { index: 0 },
            EnableAction::UnmaskTarget { index: 1 },
            EnableAction::UnmaskTarget { index: 2 },
            EnableAction::UnmaskTarget { index: 3 },
            EnableAction::RemoveConfig,
            EnableAction::RestartLoginManager,
        ]
    );
    assert_eq!(state, EnableState::Done { restart_ok: true });
    assert_eq!(state.exit_code(), 0);
}

#[test]
fn enable_stops_at_first_unmask_failure() {
    let (actions, state) = drive_enable(&[false]);
    assert_eq!(actions, vec![EnableAction::UnmaskTarget { index: 0 }]);
    assert_eq!(state, EnableState::UnmaskFailed { index: 0 });
    assert_eq!(state.next_action(), None);
    assert_eq!(state.exit_code(), 1);
}

#[test]
fn enable_ignores_config_removal_failure() {
    let (actions, state) = drive_enable(&[true, true, true, true, false, true]);
    assert_eq!(actions.len(), 6);
    assert_eq!(actions[4], EnableAction::RemoveConfig);
    assert_eq!(actions[5], EnableAction::RestartLoginManager);
    assert_eq!(state, EnableState::Done { restart_ok: true });
    assert_eq!(state.exit_code(), 0);
}

#[test]
fn enable_treats_restart_failure_as_warning_only() {
    let (_, state) = drive_enable(&[true, true, true, true, true, false]);
    assert_eq!(state, EnableState::Done { restart_ok: false });
    assert_eq!(state.exit_code(), 0);
}

#[test]
fn enable_twice_issues_the_same_actions() {
    let outcomes = [true, true, true, true, true, true];
    let (first_actions, first_state) = drive_enable(&outcomes);
    let (second_actions, second_state) = drive_enable(&outcomes);
    assert_eq!(first_actions, second_actions);
    assert_eq!(first_state, second_state);
    assert_eq!(second_state.exit_code(), 0);
}

#[test]
fn contains_masked_recognises_masked_states() {
    assert!(contains_masked("masked"));
    assert!(contains_masked("masked-runtime"));
    assert!(contains_masked("unmasked"));
    assert!(!contains_masked("enabled"));
    assert!(!contains_masked("disabled"));
    assert!(!contains_masked("static"));
    assert!(!contains_masked(""));
    assert!(!contains_masked("mask"));
    assert!(!contains_masked("maske"));
}

#[test]
fn status_reports_one_line_per_target() {
    let queries = vec![
        TargetQuery::Answered { state: "enabled".to_string() },
        TargetQuery::Unanswered,
        TargetQuery::Answered { state: "masked".to_string() },
        TargetQuery::Unanswered,
    ];
    let report = status_report(&queries, false);
    assert_eq!(report.lines.len(), 4);
    for (k, line) in report.lines.iter().enumerate() {
        assert_eq!(line.index, k);
    }
    assert_eq!(report.lines[0].indicator, MaskIndicator::NotMasked);
    assert_eq!(report.lines[1].indicator, MaskIndicator::Unknown);
    assert_eq!(report.lines[2].indicator, MaskIndicator::Masked);
    assert_eq!(report.lines[3].indicator, MaskIndicator::Unknown);
    assert!(!report.config_active);
}

#[test]
fn status_reports_config_presence_independent_of_queries() {
    let queries = vec![
        TargetQuery::Unanswered,
        TargetQuery::Unanswered,
        TargetQuery::Unanswered,
        TargetQuery::Unanswered,
    ];
    let with_config = status_report(&queries, true);
    assert!(with_config.config_active);
    for line in &with_config.lines {
        assert_eq!(line.indicator, MaskIndicator::Unknown);
    }
    let without_config = status_report(&queries, false);
    assert!(!without_config.config_active);
    assert_eq!(without_config.lines.len(), 4);
}

#[test]
fn fresh_system_then_disable_scenario() {
    // Fresh system: all targets unmasked, no config file.
    let fresh = vec![
        TargetQuery::Answered { state: "enabled".to_string() },
        TargetQuery::Answered { state: "enabled".to_string() },
        TargetQuery::Answered { state: "enabled".to_string() },
        TargetQuery::Answered { state: "enabled".to_string() },
    ];
    let before = status_report(&fresh, false);
    assert_eq!(before.lines.len(), 4);
    for line in &before.lines {
        assert_eq!(line.indicator, MaskIndicator::NotMasked);
    }
    assert!(!before.config_active);

    // Disable: every mask call succeeds, the file is written, restart
    // succeeds.
    let (actions, state) = drive_disable(&[true, true, true, true, true, true, true]);
    assert_eq!(actions[0..4].to_vec(), vec![
        DisableAction::MaskTarget { index: 0 },
        DisableAction::MaskTarget { index: 1 },
        DisableAction::MaskTarget { index: 2 },
        DisableAction::MaskTarget { index: 3 },
    ]);
    assert!(actions.contains(&DisableAction::WriteConfig));
    assert_eq!(state, DisableState::Done { restart_ok: true });
    assert_eq!(state.exit_code(), 0);

    // Afterwards every target queries as masked and the config is active.
    let masked = vec![
        TargetQuery::Answered { state: "masked".to_string() },
        TargetQuery::Answered { state: "masked".to_string() },
        TargetQuery::Answered { state: "masked".to_string() },
        TargetQuery::Answered { state: "masked".to_string() },
    ];
    let after = status_report(&masked, true);
    assert_eq!(after.lines.len(), 4);
    for line in &after.lines {
        assert_eq!(line.indicator, MaskIndicator::Masked);
    }
    assert!(after.config_active);
}
