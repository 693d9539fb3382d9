use tinyshell::theme::{
    claim_system_theme_sync, initialize_process_theme_preference, process_follows_system_theme,
    set_process_follows_system_theme, ProcessThemePreference,
};

#[test]
fn first_initialisation_wins_and_default_follows_the_system() {
    let mut state = ProcessThemePreference::new();
    assert!(process_follows_system_theme(&state));
    assert!(!initialize_process_theme_preference(&mut state, false));
    assert!(!initialize_process_theme_preference(&mut state, true));
    assert!(!process_follows_system_theme(&state));
    set_process_follows_system_theme(&mut state, true);
    assert!(process_follows_system_theme(&state));
}

#[test]
fn system_theme_sync_is_throttled_by_the_interval() {
    let mut state = ProcessThemePreference::new();
    assert!(claim_system_theme_sync(&mut state, 1_000, 500));
    assert!(!claim_system_theme_sync(&mut state, 1_499, 500));
    assert!(claim_system_theme_sync(&mut state, 1_500, 500));
    assert!(!claim_system_theme_sync(&mut state, 10, 500));
    set_process_follows_system_theme(&mut state, false);
    assert!(!claim_system_theme_sync(&mut state, 100_000, 500));
    assert_eq!(state.last_sync_nanos, Some(1_500));
}
