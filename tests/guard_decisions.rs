use protected_route::guard::{decide, CheckResult, Guard, GuardAction, GuardEvent, Outcome};

#[test]
fn decide_covers_every_row_of_the_table() {
    assert_eq!(decide(&CheckResult::<()>::Success(true), false), Outcome::ShowProtected);
    assert_eq!(decide(&CheckResult::<()>::Success(false), false), Outcome::Redirect);
    assert_eq!(decide(&CheckResult::<()>::Success(true), true), Outcome::Redirect);
    assert_eq!(decide(&CheckResult::<()>::Success(false), true), Outcome::ShowProtected);
    assert_eq!(decide(&CheckResult::Failure("boom"), false), Outcome::ShowError);
    assert_eq!(decide(&CheckResult::Failure("boom"), true), Outcome::ShowError);
    assert_eq!(decide(&CheckResult::<()>::Pending, false), Outcome::ShowFallback);
    assert_eq!(decide(&CheckResult::<()>::Pending, true), Outcome::ShowFallback);
}

#[test]
fn success_true_not_inverted_shows_protected() {
    let guard = Guard::new("/login".to_string(), false);
    assert_eq!(guard.select(&CheckResult::<String>::Success(true)), Outcome::ShowProtected);
}

#[test]
fn success_true_inverted_redirects_to_configured_path() {
    let guard = Guard::new("/login".to_string(), true);
    assert_eq!(guard.select(&CheckResult::<String>::Success(true)), Outcome::Redirect);
    assert_eq!(guard.redirect_path().as_str(), "/login");
    assert!(guard.invert());
}

#[test]
fn pending_shows_fallback_whatever_the_flag() {
    for invert in [false, true] {
        let guard = Guard::new("/login".to_string(), invert);
        assert_eq!(guard.select(&CheckResult::<String>::Pending), Outcome::ShowFallback);
    }
}

#[test]
fn failure_shows_error_whatever_the_flag_or_error() {
    for invert in [false, true] {
        let guard = Guard::new("/".to_string(), invert);
        assert_eq!(guard.select(&CheckResult::Failure(404u32)), Outcome::ShowError);
        assert_eq!(guard.select(&CheckResult::Failure(0u32)), Outcome::ShowError);
        assert_eq!(guard.select(&CheckResult::Failure("server down".to_string())), Outcome::ShowError);
    }
}

#[test]
fn rendering_twice_in_one_state_gives_one_outcome() {
    let guard = Guard::new("/login".to_string(), false);
    let state = CheckResult::<()>::Success(false);
    let first = guard.select(&state);
    let second = guard.select(&state);
    assert_eq!(first, second);
    assert_eq!(first, Outcome::Redirect);
}

#[test]
fn from_read_maps_each_shape() {
    assert!(matches!(CheckResult::<u8>::from_read(None), CheckResult::Pending));
    assert!(matches!(CheckResult::<u8>::from_read(Some(Ok(true))), CheckResult::Success(true)));
    assert!(matches!(CheckResult::<u8>::from_read(Some(Ok(false))), CheckResult::Success(false)));
    assert!(matches!(CheckResult::<u8>::from_read(Some(Err(7))), CheckResult::Failure(7)));
}

#[test]
fn building_refetches_once_and_renders_never_do() {
    let guard = Guard::new("/login".to_string(), false);
    let events = vec![
        GuardEvent::Built,
        GuardEvent::Render(CheckResult::<u8>::Pending),
        GuardEvent::Render(CheckResult::Success(true)),
        GuardEvent::Render(CheckResult::Success(false)),
        GuardEvent::Render(CheckResult::Failure(3)),
    ];
    let actions = guard.run(&events);
    assert_eq!(
        actions,
        vec![
            GuardAction::Refetch,
            GuardAction::Show(Outcome::ShowFallback),
            GuardAction::Show(Outcome::ShowProtected),
            GuardAction::Show(Outcome::Redirect),
            GuardAction::Show(Outcome::ShowError),
        ]
    );
    assert_eq!(actions.iter().filter(|a| **a == GuardAction::Refetch).count(), 1);
}

#[test]
fn on_event_answers_build_with_refetch() {
    let guard = Guard::new("/login".to_string(), true);
    assert_eq!(guard.on_event(&GuardEvent::<()>::Built), GuardAction::Refetch);
    assert_eq!(
        guard.on_event(&GuardEvent::<()>::Render(CheckResult::Success(false))),
        GuardAction::Show(Outcome::ShowProtected)
    );
}
