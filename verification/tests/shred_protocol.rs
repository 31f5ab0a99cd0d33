use shreddit::driver::{DriverAction, Phase, ShredDriver, StepOutcome, PACING_DELAY_SECS};
use shreddit::things::{Comment, Friend, Post, RemoteCall, Shred, ShredditError, Thing, ThingType};

fn post(id: &str) -> Thing {
    Thing::Post(Post { id: id.to_owned() })
}

fn comment(id: &str) -> Thing {
    Thing::Comment(Comment { id: id.to_owned() })
}

fn friend(id: &str) -> Thing {
    Thing::Friend(Friend { id: id.to_owned() })
}

#[test]
fn delete_routes_to_post() {
    let t = post("t3_alpha");
    assert_eq!(t.delete(), RemoteCall::DeletePost { id: "t3_alpha".to_owned() });
}

#[test]
fn delete_routes_to_comment() {
    let t = comment("t1_beta");
    assert_eq!(t.delete(), RemoteCall::DeleteComment { id: "t1_beta".to_owned() });
}

#[test]
fn delete_routes_to_friend() {
    let t = friend("gamma");
    assert_eq!(t.delete(), RemoteCall::DeleteFriend { id: "gamma".to_owned() });
}

#[test]
fn edit_is_silent_for_post_and_friend() {
    assert_eq!(post("t3_alpha").edit(), None);
    assert_eq!(friend("gamma").edit(), None);
}

#[test]
fn comment_edit_issues_its_own_delete_call() {
    let t = comment("t1_beta");
    let edit = t.edit().expect("a comment's edit step issues a call");
    assert_eq!(edit, t.delete());
    assert_eq!(edit, RemoteCall::DeleteComment { id: "t1_beta".to_owned() });
}

#[test]
fn shred_of_a_post_is_its_delete_alone() {
    let t = post("t3_alpha");
    assert_eq!(t.shred(), vec![RemoteCall::DeletePost { id: "t3_alpha".to_owned() }]);
}

#[test]
fn shred_of_a_comment_is_edit_then_delete() {
    let t = comment("t1_beta");
    let calls = t.shred();
    assert_eq!(
        calls,
        vec![
            RemoteCall::DeleteComment { id: "t1_beta".to_owned() },
            RemoteCall::DeleteComment { id: "t1_beta".to_owned() },
        ]
    );
}

#[test]
fn parse_posts() {
    assert_eq!(ThingType::parse("posts"), Ok(ThingType::Posts));
}

#[test]
fn parse_comments() {
    assert_eq!(ThingType::parse("comments"), Ok(ThingType::Comments));
}

#[test]
fn parse_friends_fails_although_the_variant_exists() {
    assert_eq!(ThingType::parse("friends"), Err("Invalid type"));
}

#[test]
fn parse_anything_else_fails() {
    assert_eq!(ThingType::parse("anything-else"), Err("Invalid type"));
    assert_eq!(ThingType::parse(""), Err("Invalid type"));
    assert_eq!(ThingType::parse("Posts"), Err("Invalid type"));
}

#[test]
fn parse_through_from_str() {
    assert_eq!("posts".parse::<ThingType>(), Ok(ThingType::Posts));
    assert_eq!("friends".parse::<ThingType>(), Err("Invalid type"));
}

#[test]
fn rate_limited_is_the_error_signal() {
    let e = ShredditError::RateLimited;
    assert!(matches!(e, ShredditError::RateLimited));
}

/// Drive one shred to completion, recording every requested action.
fn run_to_stop(thing: Thing) -> Vec<DriverAction> {
    let mut driver = ShredDriver::new(thing);
    let mut log = Vec::new();
    loop {
        let action = driver.next_action();
        let stop = matches!(action, DriverAction::Stop);
        log.push(action);
        if stop {
            return log;
        }
        driver.on_event(StepOutcome::Completed);
    }
}

#[test]
fn driver_success_order_for_a_post() {
    let log = run_to_stop(post("t3_alpha"));
    assert_eq!(
        log,
        vec![
            DriverAction::Edit(None),
            DriverAction::Pause { secs: PACING_DELAY_SECS },
            DriverAction::Delete(RemoteCall::DeletePost { id: "t3_alpha".to_owned() }),
            DriverAction::Stop,
        ]
    );
}

#[test]
fn driver_success_order_for_a_comment() {
    let log = run_to_stop(comment("t1_beta"));
    assert_eq!(
        log,
        vec![
            DriverAction::Edit(Some(RemoteCall::DeleteComment { id: "t1_beta".to_owned() })),
            DriverAction::Pause { secs: PACING_DELAY_SECS },
            DriverAction::Delete(RemoteCall::DeleteComment { id: "t1_beta".to_owned() }),
            DriverAction::Stop,
        ]
    );
}

#[test]
fn pacing_delay_is_two_seconds() {
    assert_eq!(PACING_DELAY_SECS, 2);
}

#[test]
fn cancelling_during_the_pause_prevents_delete() {
    let mut driver = ShredDriver::new(post("t3_alpha"));
    let mut log = Vec::new();
    log.push(driver.next_action());
    driver.on_event(StepOutcome::Completed);
    // The pause is now requested; the task is cancelled here, so the pause
    // never completes and the driver is never stepped again.
    log.push(driver.next_action());
    assert!(matches!(log[0], DriverAction::Edit(None)));
    assert!(matches!(log[1], DriverAction::Pause { secs: PACING_DELAY_SECS }));
    assert!(!log.iter().any(|a| matches!(a, DriverAction::Delete(_))));
    assert_eq!(driver.current_phase(), Phase::Pausing);
}

#[test]
fn a_failed_edit_stops_the_run_before_any_delete() {
    let mut driver = ShredDriver::new(comment("t1_beta"));
    let mut log = Vec::new();
    log.push(driver.next_action());
    driver.on_event(StepOutcome::Failed);
    log.push(driver.next_action());
    assert!(matches!(log[0], DriverAction::Edit(Some(_))));
    assert_eq!(log[1], DriverAction::Stop);
    assert!(!log.iter().any(|a| matches!(a, DriverAction::Delete(_))));
    assert_eq!(driver.current_phase(), Phase::Failed);
}

#[test]
fn two_interleaved_drivers_keep_their_own_sequences() {
    let mut first = ShredDriver::new(post("t3_alpha"));
    let mut second = ShredDriver::new(comment("t1_beta"));
    let mut first_log = Vec::new();
    let mut second_log = Vec::new();
    // Alternate single steps of the two drivers until both stop.
    loop {
        let mut advanced = false;
        let a = first.next_action();
        if !matches!(a, DriverAction::Stop) {
            first_log.push(a);
            first.on_event(StepOutcome::Completed);
            advanced = true;
        }
        let b = second.next_action();
        if !matches!(b, DriverAction::Stop) {
            second_log.push(b);
            second.on_event(StepOutcome::Completed);
            advanced = true;
        }
        if !advanced {
            break;
        }
    }
    assert_eq!(
        first_log,
        vec![
            DriverAction::Edit(None),
            DriverAction::Pause { secs: PACING_DELAY_SECS },
            DriverAction::Delete(RemoteCall::DeletePost { id: "t3_alpha".to_owned() }),
        ]
    );
    assert_eq!(
        second_log,
        vec![
            DriverAction::Edit(Some(RemoteCall::DeleteComment { id: "t1_beta".to_owned() })),
            DriverAction::Pause { secs: PACING_DELAY_SECS },
            DriverAction::Delete(RemoteCall::DeleteComment { id: "t1_beta".to_owned() }),
        ]
    );
    assert_eq!(first.current_phase(), Phase::Done);
    assert_eq!(second.current_phase(), Phase::Done);
}

#[test]
fn phases_advance_in_the_fixed_order() {
    let mut driver = ShredDriver::new(friend("gamma"));
    assert_eq!(driver.current_phase(), Phase::Editing);
    driver.on_event(StepOutcome::Completed);
    assert_eq!(driver.current_phase(), Phase::Pausing);
    driver.on_event(StepOutcome::Completed);
    assert_eq!(driver.current_phase(), Phase::Deleting);
    let delete = driver.next_action();
    assert_eq!(delete, DriverAction::Delete(RemoteCall::DeleteFriend { id: "gamma".to_owned() }));
    driver.on_event(StepOutcome::Completed);
    assert_eq!(driver.current_phase(), Phase::Done);
    assert_eq!(driver.next_action(), DriverAction::Stop);
}
