use boids::control::{Command, Key, Rule, RuleState};

#[test]
fn rules_start_on_and_overlays_off() {
    let state: RuleState = RuleState::new();
    assert!(state.separation && state.alignment && state.cohesion && state.random_movement);
    assert!(!state.debug_circles && !state.debug_vectors);
}

#[test]
fn names_of_the_switches() {
    assert_eq!(Rule::from_name("separation"), Some(Rule::Separation));
    assert_eq!(Rule::from_name("alignment"), Some(Rule::Alignment));
    assert_eq!(Rule::from_name("cohesion"), Some(Rule::Cohesion));
    assert_eq!(Rule::from_name("random"), Some(Rule::Random));
    assert_eq!(Rule::from_name("debug_circles"), Some(Rule::DebugCircles));
    assert_eq!(Rule::from_name("debug_vectors"), Some(Rule::DebugVectors));
}

#[test]
fn other_names_name_no_switch() {
    assert_eq!(Rule::from_name(""), None);
    assert_eq!(Rule::from_name("Alignment"), None);
    assert_eq!(Rule::from_name("alignment "), None);
    assert_eq!(Rule::from_name("obstacle"), None);
    assert_eq!(Rule::from_name("align"), None);
}

#[test]
fn toggle_flips_one_switch() {
    let mut state: RuleState = RuleState::new();
    state.toggle(Rule::Alignment);
    assert!(!state.alignment);
    assert!(state.separation && state.cohesion && state.random_movement);
    assert!(!state.debug_circles && !state.debug_vectors);
    assert!(!state.is_enabled(Rule::Alignment));
    assert!(state.is_enabled(Rule::Cohesion));
}

#[test]
fn toggle_twice_restores_the_switch() {
    let rules: Vec<Rule> = vec![
        Rule::Separation,
        Rule::Alignment,
        Rule::Cohesion,
        Rule::Random,
        Rule::DebugCircles,
        Rule::DebugVectors,
    ];
    for rule in rules {
        let mut state: RuleState = RuleState::new();
        let before: RuleState = state;
        state.toggle(rule);
        assert_ne!(state, before);
        state.toggle(rule);
        assert_eq!(state, before);
    }
}

#[test]
fn toggle_by_name_twice_restores_the_switch() {
    let mut state: RuleState = RuleState::new();
    let before: RuleState = state;
    assert_eq!(state.toggle_rule("alignment"), Some(Rule::Alignment));
    assert!(!state.alignment);
    assert_eq!(state.toggle_rule("alignment"), Some(Rule::Alignment));
    assert_eq!(state, before);
}

#[test]
fn toggle_by_an_unknown_name_changes_nothing() {
    let mut state: RuleState = RuleState::new();
    let before: RuleState = state;
    assert_eq!(state.toggle_rule("gravity"), None);
    assert_eq!(state, before);
}

#[test]
fn toggle_by_each_name() {
    let mut state: RuleState = RuleState::new();
    state.toggle_rule("separation");
    state.toggle_rule("cohesion");
    state.toggle_rule("random");
    state.toggle_rule("debug_circles");
    state.toggle_rule("debug_vectors");
    assert!(!state.separation && !state.cohesion && !state.random_movement);
    assert!(state.alignment);
    assert!(state.debug_circles && state.debug_vectors);
}

#[test]
fn commands_on_the_keys() {
    assert_eq!(Key::S.command(), Command::Toggle(Rule::Separation));
    assert_eq!(Key::A.command(), Command::Toggle(Rule::Alignment));
    assert_eq!(Key::C.command(), Command::Toggle(Rule::Cohesion));
    assert_eq!(Key::R.command(), Command::Toggle(Rule::Random));
    assert_eq!(Key::D.command(), Command::Toggle(Rule::DebugCircles));
    assert_eq!(Key::V.command(), Command::Toggle(Rule::DebugVectors));
    assert_eq!(Key::P.command(), Command::TogglePause);
    assert_eq!(Key::Space.command(), Command::ToggleSpawn);
    assert_eq!(Key::Escape.command(), Command::Quit);
    assert_eq!(Key::B.command(), Command::KillBirds);
    assert_eq!(Key::O.command(), Command::KillObstacles);
    assert_eq!(Key::Other.command(), Command::Nothing);
}
