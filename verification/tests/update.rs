use nebula_dm::update::{check_update, UpdateDecision};

fn current_text(r: Result<UpdateDecision, String>) -> Option<String> {
    match r {
        Ok(UpdateDecision::AlreadyCurrent(text)) => Some(text),
        _ => None,
    }
}

#[test]
fn newer_feed_version_fetches_the_installer() {
    assert!(matches!(check_update("0.1.0", "0.2.0"), Ok(UpdateDecision::FetchInstaller)));
    assert!(matches!(check_update("1.9.9", "2.0.0"), Ok(UpdateDecision::FetchInstaller)));
    assert!(matches!(check_update("1.5.0", "1.19.0-rc.1"), Ok(UpdateDecision::FetchInstaller)));
    assert!(matches!(check_update("1.0.0-beta", "1.0.0"), Ok(UpdateDecision::FetchInstaller)));
}

#[test]
fn same_or_older_feed_version_keeps_the_running_one() {
    assert_eq!(current_text(check_update("0.2.0", "0.2.0")), Some("0.2.0".to_owned()));
    assert_eq!(current_text(check_update("2.0.0", "1.19.0")), Some("2.0.0".to_owned()));
    assert_eq!(current_text(check_update("1.0.0", "1.0.0-rc.1")), Some("1.0.0".to_owned()));
    assert_eq!(
        current_text(check_update("1.2.3-alpha+build.7", "1.2.3-alpha")),
        Some("1.2.3-alpha+build.7".to_owned())
    );
}

#[test]
fn unreadable_versions_are_reported() {
    let current = check_update("1.0", "2.0.0");
    assert!(matches!(&current, Err(message) if message.starts_with("current version parse failed: ")));
    let available = check_update("1.0.0", "v2");
    assert!(matches!(&available, Err(message) if message.starts_with("update version parse failed: ")));
}
