use im_bridge::auth::Token;
use im_bridge::dispatch::{
    attributed_content, handle_event, must_admin, new_friend_handler, resume_join, sender_display,
    Action, AdminDecision, AdminLookup, BridgeState, PendingJoin, Step,
};
use im_bridge::events::{classify, InboundEvent, UpdateKind};

fn fresh_state(token: &str) -> BridgeState {
    BridgeState::new(Token::from_string(token.to_string()))
}

fn done(step: Step) -> Vec<Action> {
    match step {
        Step::Done { actions } => actions,
        Step::NeedAdminCheck { .. } => panic!("expected a finished step"),
    }
}

fn pending(step: Step) -> PendingJoin {
    match step {
        Step::NeedAdminCheck { pending } => pending,
        Step::Done { .. } => panic!("expected a pending admin check"),
    }
}

fn reply_text(a: &Action) -> &str {
    match a {
        Action::Reply { text } => text,
        other => panic!("expected a reply, got {:?}", other),
    }
}

fn forward_ids(actions: &[Action]) -> Vec<String> {
    let mut v: Vec<String> = actions
        .iter()
        .filter_map(|a| match a {
            Action::Forward { target, .. } => Some(target.id.clone()),
            _ => None,
        })
        .collect();
    v.sort();
    v
}

fn friend(text: &str) -> InboundEvent {
    InboundEvent::FriendMessage { sender_id: 7, text: text.to_string() }
}

fn group(group_id: i64, sender_id: i64, text: &str) -> InboundEvent {
    InboundEvent::GroupMessage { group_id, sender_id, text: text.to_string() }
}

/// Drive a full admin-gated join through the two dispatcher steps.
fn join_as_admin(state: &mut BridgeState, group_id: i64, sender_id: i64, cmd: &str) -> Vec<Action> {
    let p = pending(handle_event(state, &group(group_id, sender_id, cmd)));
    resume_join(state, p, &AdminLookup::Admins(vec![sender_id]))
}

#[test]
fn classify_tags_each_kind() {
    assert_eq!(classify(&group(1, 2, "x")), UpdateKind::GroupMessage);
    assert_eq!(classify(&friend("x")), UpdateKind::FriendMessage);
    assert_eq!(
        classify(&InboundEvent::GroupTempMessage { group_id: 1, sender_id: 2, text: "x".into() }),
        UpdateKind::GroupTempMessage
    );
    assert_eq!(
        classify(&InboundEvent::GroupMessageRecall { group_id: 1 }),
        UpdateKind::GroupMessageRecall
    );
    assert_eq!(
        classify(&InboundEvent::NewFriendRequest {
            req_uin: 1,
            req_nick: "n".into(),
            message: "m".into()
        }),
        UpdateKind::NewFriendRequest
    );
}

#[test]
fn wrong_token_is_rejected_with_a_fixed_reply() {
    let mut state = fresh_state("T");
    let actions = done(handle_event(&mut state, &friend("/cluster add --token WRONG")));
    assert_eq!(actions.len(), 1);
    assert_eq!(reply_text(&actions[0]), "Invalid token");
}

#[test]
fn plain_friend_text_does_nothing() {
    let mut state = fresh_state("T");
    assert!(done(handle_event(&mut state, &friend("good morning"))).is_empty());
}

#[test]
fn temp_and_recall_events_do_nothing() {
    let mut state = fresh_state("T");
    let temp = InboundEvent::GroupTempMessage { group_id: 1, sender_id: 2, text: "/cluster add --token T".into() };
    assert!(done(handle_event(&mut state, &temp)).is_empty());
    let recall = InboundEvent::GroupMessageRecall { group_id: 1 };
    assert!(done(handle_event(&mut state, &recall)).is_empty());
}

#[test]
fn friend_request_with_token_in_message_is_accepted() {
    let token = Token::from_string("open-sesame".to_string());
    assert!(new_friend_handler(&token, &"please open-sesame thanks".to_string()));
    assert!(!new_friend_handler(&token, &"please let me in".to_string()));
    let mut state = fresh_state("open-sesame");
    let ev = InboundEvent::NewFriendRequest {
        req_uin: 5,
        req_nick: "nick".into(),
        message: "hi open-sesame".into(),
    };
    let actions = done(handle_event(&mut state, &ev));
    assert_eq!(actions.len(), 1);
    assert!(matches!(actions[0], Action::AcceptFriendRequest));
    let ignored = InboundEvent::NewFriendRequest {
        req_uin: 5,
        req_nick: "nick".into(),
        message: "hi there".into(),
    };
    assert!(done(handle_event(&mut state, &ignored)).is_empty());
}

#[test]
fn admin_gate_decisions() {
    assert!(matches!(must_admin(&AdminLookup::Admins(vec![1, 2]), 2), AdminDecision::Admit));
    assert!(matches!(must_admin(&AdminLookup::Admins(vec![1, 2]), 3), AdminDecision::DenySilent));
    match must_admin(&AdminLookup::QueryFailed, 3) {
        AdminDecision::DenyNotify { reply } => assert_eq!(reply, "Failed to authenticate user."),
        other => panic!("expected a notified denial, got {:?}", matches!(other, AdminDecision::Admit)),
    }
}

#[test]
fn end_to_end_two_groups_relay() {
    let mut state = fresh_state("T");

    // the admin creates a cluster over the friend channel
    let actions = done(handle_event(&mut state, &friend("/cluster add --token T")));
    assert_eq!(actions.len(), 1);
    let name = reply_text(&actions[0])
        .strip_prefix("New cluster created: ")
        .expect("the reply names the new cluster")
        .to_string();

    // a one-time password for the first group's admin
    let actions = done(handle_event(&mut state, &friend("/request-otp --token T")));
    let otp1 = reply_text(&actions[0])
        .strip_prefix("Your one-time password is:\n")
        .expect("the reply carries the password")
        .to_string();

    // the first group joins
    let actions = join_as_admin(&mut state, 11, 100, &format!("/join {} --otp {}", name, otp1));
    assert_eq!(actions.len(), 1);
    assert_eq!(reply_text(&actions[0]), "Joined to cluster");

    // the consumed password is invalid from now on
    let actions = join_as_admin(&mut state, 33, 300, &format!("/join {} --otp {}", name, otp1));
    assert_eq!(reply_text(&actions[0]), "Invalid one-time password");

    // the second group joins with a fresh password
    let actions = done(handle_event(&mut state, &friend("/request-otp --token T")));
    let otp2 = reply_text(&actions[0])
        .strip_prefix("Your one-time password is:\n")
        .unwrap()
        .to_string();
    let actions = join_as_admin(&mut state, 22, 200, &format!("/join {} --otp {}", name, otp2));
    assert_eq!(reply_text(&actions[0]), "Joined to cluster");

    // a group message is relayed verbatim to the other member, never back
    let actions = done(handle_event(&mut state, &group(11, 100, "hello from 11")));
    assert_eq!(forward_ids(&actions), vec!["22".to_string()]);
    for a in &actions {
        match a {
            Action::Forward { content, .. } => assert_eq!(content, "hello from 11"),
            other => panic!("expected only forwards, got {:?}", other),
        }
    }
    let actions = done(handle_event(&mut state, &group(22, 200, "hello back")));
    assert_eq!(forward_ids(&actions), vec!["11".to_string()]);
}

#[test]
fn listing_names_the_created_clusters() {
    let mut state = fresh_state("T");
    let a1 = done(handle_event(&mut state, &friend("/cluster add --token T")));
    let n1 = reply_text(&a1[0]).strip_prefix("New cluster created: ").unwrap().to_string();
    let actions = done(handle_event(&mut state, &friend("/cluster list --token T")));
    let listing = reply_text(&actions[0]);
    let body = listing.strip_prefix("Available clusters:\n").expect("the fixed heading");
    assert!(body.split('\n').any(|n| n == n1));
}

#[test]
fn group_command_that_no_handler_takes_falls_through_to_forwarding() {
    let mut state = fresh_state("T");
    // wire two groups into one cluster directly through the store
    state.clusters.insert_cluster("net".to_string()).unwrap();
    state
        .clusters
        .join(&"net".to_string(), &im_bridge::db::Group::from_qq(1))
        .unwrap();
    state
        .clusters
        .join(&"net".to_string(), &im_bridge::db::Group::from_qq(2))
        .unwrap();
    // a cluster command in a group chat is not handled there: it is forwarded
    let actions = done(handle_event(&mut state, &group(1, 9, "/cluster add --token T")));
    assert_eq!(forward_ids(&actions), vec!["2".to_string()]);
}

#[test]
fn failed_admin_lookup_notifies_and_still_forwards() {
    let mut state = fresh_state("T");
    state.clusters.insert_cluster("net".to_string()).unwrap();
    state.clusters.join(&"net".to_string(), &im_bridge::db::Group::from_qq(1)).unwrap();
    state.clusters.join(&"net".to_string(), &im_bridge::db::Group::from_qq(2)).unwrap();
    let p = pending(handle_event(&mut state, &group(1, 9, "/join net --otp nope")));
    let actions = resume_join(&mut state, p, &AdminLookup::QueryFailed);
    assert_eq!(reply_text(&actions[0]), "Failed to authenticate user.");
    assert_eq!(forward_ids(&actions[1..]), vec!["2".to_string()]);
}

#[test]
fn non_admin_sender_is_denied_without_a_word() {
    let mut state = fresh_state("T");
    state.clusters.insert_cluster("net".to_string()).unwrap();
    let p = pending(handle_event(&mut state, &group(1, 9, "/join net --otp nope")));
    let actions = resume_join(&mut state, p, &AdminLookup::Admins(vec![777]));
    assert!(actions.iter().all(|a| matches!(a, Action::Forward { .. })));
}

#[test]
fn joining_a_nonexistent_cluster_reports_the_generic_failure() {
    let mut state = fresh_state("T");
    let actions = done(handle_event(&mut state, &friend("/request-otp --token T")));
    let otp = reply_text(&actions[0]).strip_prefix("Your one-time password is:\n").unwrap().to_string();
    let actions = join_as_admin(&mut state, 11, 100, &format!("/join nowhere --otp {}", otp));
    assert_eq!(actions.len(), 1);
    assert_eq!(reply_text(&actions[0]), "Failed to join cluster. Please try again later.");
}

#[test]
fn fanout_failure_of_one_target_leaves_the_others_delivered() {
    let mut state = fresh_state("T");
    state.clusters.insert_cluster("net".to_string()).unwrap();
    for code in [1, 2, 3, 4] {
        state.clusters.join(&"net".to_string(), &im_bridge::db::Group::from_qq(code)).unwrap();
    }
    let actions = done(handle_event(&mut state, &group(1, 9, "fan this out")));
    assert_eq!(forward_ids(&actions), vec!["2".to_string(), "3".to_string(), "4".to_string()]);
    // deliver each forward independently; the collaborator fails on one target
    let mut delivered: Vec<String> = Vec::new();
    for a in &actions {
        if let Action::Forward { target, content } = a {
            let send_result: Result<(), ()> = if target.id == "3" { Err(()) } else { Ok(()) };
            if send_result.is_ok() {
                delivered.push(format!("{}:{}", target.id, content));
            }
        }
    }
    delivered.sort();
    assert_eq!(
        delivered,
        vec!["2:fan this out".to_string(), "4:fan this out".to_string()]
    );
}

#[test]
fn display_name_prefers_the_group_card() {
    assert_eq!(sender_display(&"".to_string(), &"alice".to_string()), "alice");
    assert_eq!(sender_display(&"boss".to_string(), &"alice".to_string()), "boss (alice)");
    assert_eq!(attributed_content(&"alice".to_string(), &"hi".to_string()), "alice: hi");
}

#[test]
fn listing_with_no_clusters_is_just_the_heading() {
    let mut state = fresh_state("T");
    let actions = done(handle_event(&mut state, &friend("/cluster list --token T")));
    assert_eq!(reply_text(&actions[0]), "Available clusters:\n");
}
