use tidy_agent::configuration::HubConfig;
use tidy_agent::hub::{
    event_of_reply, AgentConnectionState, HubAction, HubClient, HubEvent, HubReply,
};

fn registered(agent_id: &str) -> HubEvent {
    HubEvent::Registered(agent_id.to_string())
}

#[test]
fn connects_at_the_first_attempt() {
    let mut client = HubClient::new(5, Some(30));
    assert_eq!(client.state(), &AgentConnectionState::Disconnected);
    assert!(!client.is_connected());
    assert_eq!(client.step(HubEvent::Start), HubAction::Register);
    assert_eq!(client.state(), &AgentConnectionState::Connecting(1));
    assert_eq!(client.step(registered("agent-1")), HubAction::Idle);
    assert_eq!(client.state(), &AgentConnectionState::Connected("agent-1".to_string()));
    assert!(client.is_connected());
}

#[test]
fn two_failures_then_success_waits_t0_then_twice_t0() {
    let t0 = 5;
    let mut client = HubClient::new(t0, None);
    let mut waits = Vec::new();
    let mut attempts = 0;
    let mut action = client.step(HubEvent::Start);
    loop {
        match action {
            HubAction::Register => {
                attempts += 1;
                let answer = if attempts < 3 { HubEvent::Failed } else { registered("agent-7") };
                action = client.step(answer);
            }
            HubAction::Wait(seconds) => {
                waits.push(seconds);
                action = client.step(HubEvent::WaitElapsed);
            }
            HubAction::GiveUp => panic!("no limit was set"),
            HubAction::Idle => break,
        }
    }
    assert_eq!(attempts, 3);
    assert_eq!(waits, vec![t0, 2 * t0]);
    assert_eq!(client.state(), &AgentConnectionState::Connected("agent-7".to_string()));
}

#[test]
fn always_failing_hub_is_given_up_after_exactly_the_limit() {
    for limit in [1u32, 2, 3, 7, 30] {
        let mut client = HubClient::new(5, Some(limit));
        let mut attempts = 0u32;
        let mut waits = Vec::new();
        let mut action = client.step(HubEvent::Start);
        loop {
            match action {
                HubAction::Register => {
                    attempts += 1;
                    action = client.step(HubEvent::Failed);
                }
                HubAction::Wait(seconds) => {
                    waits.push(seconds);
                    action = client.step(HubEvent::WaitElapsed);
                }
                HubAction::GiveUp => break,
                HubAction::Idle => panic!("a failing hub leaves nothing idle"),
            }
        }
        assert_eq!(attempts, limit);
        assert_eq!(waits.len() as u32, limit - 1);
        for (round, seconds) in waits.iter().enumerate() {
            assert_eq!(*seconds, 5u64 << round);
        }
        assert_eq!(client.state(), &AgentConnectionState::Disconnected);
        assert!(!client.is_connected());
    }
}

#[test]
fn limit_of_zero_gives_up_without_an_attempt() {
    let mut client = HubClient::new(5, Some(0));
    assert_eq!(client.step(HubEvent::Start), HubAction::GiveUp);
    assert_eq!(client.state(), &AgentConnectionState::Disconnected);
}

#[test]
fn backoff_doubles_each_time() {
    let mut client = HubClient::new(3, None);
    assert_eq!(client.step(HubEvent::Start), HubAction::Register);
    let mut expected = 3u64;
    for _ in 0..10 {
        assert_eq!(client.step(HubEvent::Failed), HubAction::Wait(expected));
        assert_eq!(client.step(HubEvent::WaitElapsed), HubAction::Register);
        expected *= 2;
    }
    assert_eq!(expected, 3 * 1024);
    assert_eq!(client.state(), &AgentConnectionState::Connecting(11));
}

#[test]
fn backoff_stops_growing_at_the_largest_delay() {
    let mut client = HubClient::new(u64::MAX / 2 + 1, None);
    assert_eq!(client.step(HubEvent::Start), HubAction::Register);
    assert_eq!(client.step(HubEvent::Failed), HubAction::Wait(u64::MAX / 2 + 1));
    assert_eq!(client.step(HubEvent::WaitElapsed), HubAction::Register);
    assert_eq!(client.step(HubEvent::Failed), HubAction::Wait(u64::MAX));
    assert_eq!(client.step(HubEvent::WaitElapsed), HubAction::Register);
    assert_eq!(client.step(HubEvent::Failed), HubAction::Wait(u64::MAX));

    let mut exact = HubClient::new(u64::MAX / 2, None);
    assert_eq!(exact.step(HubEvent::Start), HubAction::Register);
    assert_eq!(exact.step(HubEvent::Failed), HubAction::Wait(u64::MAX / 2));
    assert_eq!(exact.step(HubEvent::WaitElapsed), HubAction::Register);
    assert_eq!(exact.step(HubEvent::Failed), HubAction::Wait(u64::MAX - 1));
}

#[test]
fn zero_timeout_stays_zero() {
    let mut client = HubClient::new(0, Some(3));
    assert_eq!(client.step(HubEvent::Start), HubAction::Register);
    assert_eq!(client.step(HubEvent::Failed), HubAction::Wait(0));
    assert_eq!(client.step(HubEvent::WaitElapsed), HubAction::Register);
    assert_eq!(client.step(HubEvent::Failed), HubAction::Wait(0));
}

#[test]
fn connected_client_ignores_every_event() {
    let mut client = HubClient::new(5, Some(2));
    client.step(HubEvent::Start);
    client.step(registered("id"));
    for event in [HubEvent::Start, HubEvent::Failed, HubEvent::WaitElapsed, registered("other")] {
        assert_eq!(client.step(event), HubAction::Idle);
        assert_eq!(client.state(), &AgentConnectionState::Connected("id".to_string()));
    }
}

#[test]
fn events_out_of_turn_change_nothing() {
    let mut client = HubClient::new(5, Some(3));
    // Nothing has started yet.
    assert_eq!(client.step(HubEvent::Failed), HubAction::Idle);
    assert_eq!(client.step(HubEvent::WaitElapsed), HubAction::Idle);
    assert_eq!(client.step(registered("early")), HubAction::Idle);
    assert_eq!(client.state(), &AgentConnectionState::Disconnected);

    assert_eq!(client.step(HubEvent::Start), HubAction::Register);
    // A second start and a timer that was never set.
    assert_eq!(client.step(HubEvent::Start), HubAction::Idle);
    assert_eq!(client.step(HubEvent::WaitElapsed), HubAction::Idle);
    assert_eq!(client.state(), &AgentConnectionState::Connecting(1));

    assert_eq!(client.step(HubEvent::Failed), HubAction::Wait(5));
    // While waiting, answers belong to no attempt.
    assert_eq!(client.step(HubEvent::Failed), HubAction::Idle);
    assert_eq!(client.step(registered("late")), HubAction::Idle);
    assert_eq!(client.state(), &AgentConnectionState::Connecting(1));
    assert_eq!(client.step(HubEvent::WaitElapsed), HubAction::Register);
    assert_eq!(client.state(), &AgentConnectionState::Connecting(2));
}

#[test]
fn restart_after_giving_up_begins_with_the_initial_timeout() {
    let mut client = HubClient::new(4, Some(2));
    assert_eq!(client.step(HubEvent::Start), HubAction::Register);
    assert_eq!(client.step(HubEvent::Failed), HubAction::Wait(4));
    assert_eq!(client.step(HubEvent::WaitElapsed), HubAction::Register);
    assert_eq!(client.step(HubEvent::Failed), HubAction::GiveUp);
    assert_eq!(client.state(), &AgentConnectionState::Disconnected);
    assert_eq!(client.step(HubEvent::Start), HubAction::Register);
    assert_eq!(client.state(), &AgentConnectionState::Connecting(1));
    assert_eq!(client.step(HubEvent::Failed), HubAction::Wait(4));
}

#[test]
fn auth_url_joins_the_parts_of_the_hub_address() {
    let config = HubConfig {
        host: "localhost".to_string(),
        port: "7001".to_string(),
        protocol: "http".to_string(),
        auth_path: "/gateway/auth/AOTH".to_string(),
        disconnect_path: "/gateway/auth/AOTH/{agent_id}/disconnect".to_string(),
        connection_attempt_limit: 30,
    };
    assert_eq!(config.auth_url(), "http://localhost:7001/gateway/auth/AOTH");
}

#[test]
fn only_a_success_status_registers() {
    let answer = |status: u16| HubReply::Answer { status, body: "agent-9".to_string() };
    assert_eq!(event_of_reply(answer(200)), registered("agent-9"));
    assert_eq!(event_of_reply(answer(201)), registered("agent-9"));
    assert_eq!(event_of_reply(answer(299)), registered("agent-9"));
    assert_eq!(event_of_reply(answer(199)), HubEvent::Failed);
    assert_eq!(event_of_reply(answer(300)), HubEvent::Failed);
    assert_eq!(event_of_reply(answer(401)), HubEvent::Failed);
    assert_eq!(event_of_reply(answer(500)), HubEvent::Failed);
    assert_eq!(event_of_reply(answer(0)), HubEvent::Failed);
    assert_eq!(event_of_reply(HubReply::NoAnswer), HubEvent::Failed);
}

#[test]
fn rejected_registration_is_retried_after_the_wait() {
    let mut client = HubClient::new(5, Some(3));
    assert_eq!(client.step(HubEvent::Start), HubAction::Register);
    let rejected = HubReply::Answer { status: 503, body: "busy".to_string() };
    assert_eq!(client.step(event_of_reply(rejected)), HubAction::Wait(5));
    assert_eq!(client.step(HubEvent::WaitElapsed), HubAction::Register);
    let accepted = HubReply::Answer { status: 200, body: "agent-3".to_string() };
    assert_eq!(client.step(event_of_reply(accepted)), HubAction::Idle);
    assert_eq!(client.state(), &AgentConnectionState::Connected("agent-3".to_string()));
}
