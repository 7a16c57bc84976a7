use labman::fabric::{
    dedup_kinds, handle_agent_frame, handle_observe_command, AgentAction, AgentFrame, Direction,
    Envelope, MessageKind, ObserveCommand, ObserveReply, Observers, PortmanSubscribers, StreamKind,
};

fn envelope(kind: &str, agent_id: Option<&str>) -> Envelope {
    Envelope::from_parts(
        "m1".to_string(),
        None,
        agent_id.map(|a| a.to_string()),
        "up",
        kind,
        None,
        serde_json::Value::Null,
    )
    .unwrap()
}

fn subscribe(obs: &mut Observers, agents: &PortmanSubscribers, id: u64, kinds: Vec<StreamKind>, filter: Option<Vec<&str>>) {
    let filter = filter.map(|f| f.into_iter().map(|s| s.to_string()).collect());
    let reply = handle_observe_command(obs, agents, id, Ok(ObserveCommand::Subscribe { kinds, kinds_filter: filter }));
    assert!(matches!(reply, ObserveReply::Subscribed { .. }));
}

fn deliver(action: AgentAction) -> Vec<u64> {
    match action {
        AgentAction::Deliver { recipients } => recipients,
        other => panic!("unexpected {:?}", other),
    }
}

#[test]
fn observer_fan_out_follows_subscriptions() {
    let mut agents = PortmanSubscribers::new();
    let mut obs = Observers::new();
    let o1 = obs.open();
    let o2 = obs.open();
    subscribe(&mut obs, &agents, o1, vec![StreamKind::All], None);
    subscribe(&mut obs, &agents, o2, vec![StreamKind::ByKind], Some(vec!["heartbeat"]));
    let agent = agents.add("127.0.0.1:5000");

    let frames = [envelope("register_agent", Some("agent-7")), envelope("heartbeat", None), envelope("heartbeat", None)];
    let mut got1 = vec![];
    let mut got2 = vec![];
    for f in frames {
        let kind = f.kind;
        let to = deliver(handle_agent_frame(&mut agents, &obs, agent.connection_id, &AgentFrame::Envelope(f)));
        if to.contains(&o1) {
            got1.push(kind);
        }
        if to.contains(&o2) {
            got2.push(kind);
        }
        assert!(to.iter().filter(|&&x| x == o1).count() <= 1);
    }
    assert_eq!(got1, vec![MessageKind::RegisterAgent, MessageKind::Heartbeat, MessageKind::Heartbeat]);
    assert_eq!(got2, vec![MessageKind::Heartbeat, MessageKind::Heartbeat]);
    assert_eq!(agents.list()[0].agent_id.as_deref(), Some("agent-7"));
}

#[test]
fn by_kind_with_empty_filter_receives_nothing() {
    let agents = PortmanSubscribers::new();
    let mut obs = Observers::new();
    let o = obs.open();
    subscribe(&mut obs, &agents, o, vec![StreamKind::ByKind], Some(vec![]));
    assert!(obs.recipients(MessageKind::Heartbeat).is_empty());
    subscribe(&mut obs, &agents, o, vec![StreamKind::ByKind], None);
    assert!(obs.recipients(MessageKind::Unknown).is_empty());
}

#[test]
fn unknown_kinds_fold_and_filter_by_name() {
    let e = envelope("brand_new_kind", None);
    assert_eq!(e.kind, MessageKind::Unknown);
    assert_eq!(MessageKind::Unknown.name(), "unknown");
    let agents = PortmanSubscribers::new();
    let mut obs = Observers::new();
    let o = obs.open();
    subscribe(&mut obs, &agents, o, vec![StreamKind::ByKind], Some(vec!["unknown"]));
    assert_eq!(obs.recipients(MessageKind::Unknown), vec![o]);
}

#[test]
fn directions_parse_with_aliases() {
    assert_eq!(Direction::from_name("upstream"), Some(Direction::Up));
    assert_eq!(Direction::from_name("down"), Some(Direction::Down));
    assert_eq!(Direction::from_name("sideways"), None);
    assert!(Envelope::from_parts("x".into(), None, None, "left", "ack", None, serde_json::Value::Null).is_none());
    assert_eq!(Direction::Up.name(), "up");
}

#[test]
fn kind_names_round_trip() {
    let kinds = [
        MessageKind::RegisterAgent, MessageKind::Heartbeat, MessageKind::Metrics, MessageKind::OfferCapacity,
        MessageKind::DirectiveProgress, MessageKind::UsageReport, MessageKind::ResourceProfiles,
        MessageKind::AvailableModelCapacity, MessageKind::PreloadModel, MessageKind::EvictModel,
        MessageKind::AssignWorkload, MessageKind::UpdateRegistry, MessageKind::Drain, MessageKind::RestartAgent,
        MessageKind::Ack, MessageKind::Error, MessageKind::Unknown,
    ];
    for k in kinds {
        assert_eq!(MessageKind::from_name(&k.name()), k);
    }
    assert_eq!(MessageKind::AvailableModelCapacity.name(), "available_model_capacity");
}

#[test]
fn malformed_frames_get_an_error_and_close_stops() {
    let mut agents = PortmanSubscribers::new();
    let obs = Observers::new();
    let a = agents.add("peer");
    match handle_agent_frame(&mut agents, &obs, a.connection_id, &AgentFrame::Malformed("expected value".into())) {
        AgentAction::ReplyInvalid { message } => assert_eq!(message, "failed to parse envelope: expected value"),
        other => panic!("unexpected {:?}", other),
    }
    assert!(matches!(handle_agent_frame(&mut agents, &obs, a.connection_id, &AgentFrame::Binary), AgentAction::Ignore));
    assert!(matches!(handle_agent_frame(&mut agents, &obs, a.connection_id, &AgentFrame::Close), AgentAction::Stop));
    assert!(matches!(handle_agent_frame(&mut agents, &obs, a.connection_id, &AgentFrame::ReadError), AgentAction::Stop));
}

#[test]
fn down_registration_does_not_name_the_agent() {
    let mut agents = PortmanSubscribers::new();
    let obs = Observers::new();
    let a = agents.add("peer");
    let mut e = envelope("register_agent", Some("x"));
    e.direction = Direction::Down;
    handle_agent_frame(&mut agents, &obs, a.connection_id, &AgentFrame::Envelope(e));
    assert_eq!(agents.list()[0].agent_id, None);
}

#[test]
fn subscribers_get_fresh_ids_and_can_be_removed() {
    let mut agents = PortmanSubscribers::new();
    let a = agents.add("p1");
    let b = agents.add("p2");
    assert_ne!(a.connection_id, b.connection_id);
    assert_eq!(agents.len(), 2);
    assert_eq!(agents.remove(a.connection_id).unwrap().peer_addr, "p1");
    assert!(agents.remove(a.connection_id).is_none());
    let c = agents.add("p3");
    assert!(c.connection_id > b.connection_id);
    assert!(!agents.is_empty());
    assert!(agents.has_capacity());
}

#[test]
fn agent_and_observer_ids_never_meet() {
    let mut agents = PortmanSubscribers::new();
    let mut obs = Observers::new();
    let o = obs.open();
    let a = agents.add("peer");
    assert_ne!(a.connection_id, o);
    assert!(a.connection_id < labman::fabric::OBSERVER_ID_BASE);
    assert!(o >= labman::fabric::OBSERVER_ID_BASE);
    let o2 = obs.open();
    assert_ne!(o, o2);
}

#[test]
fn observer_list_keeps_filters_and_remove_keeps_others() {
    let agents = PortmanSubscribers::new();
    let mut obs = Observers::new();
    let o1 = obs.open();
    let o2 = obs.open();
    let o3 = obs.open();
    subscribe(&mut obs, &agents, o2, vec![StreamKind::ByKind], Some(vec!["heartbeat", "ack"]));
    let listed = obs.list();
    assert_eq!(listed[1].1.kinds_filter, Some(vec!["heartbeat".to_string(), "ack".to_string()]));
    obs.remove(o2);
    let ids: Vec<u64> = obs.list().iter().map(|(id, _)| *id).collect();
    assert_eq!(ids, vec![o1, o3]);
}

#[test]
fn discover_and_help_replies() {
    let mut agents = PortmanSubscribers::new();
    let mut obs = Observers::new();
    let o = obs.open();
    agents.add("10.0.0.1:1");
    match handle_observe_command(&mut obs, &agents, o, Ok(ObserveCommand::Discover { what: None })) {
        ObserveReply::Agents { what, agents } => {
            assert_eq!(what, "agents");
            assert_eq!(agents.len(), 1);
        }
        other => panic!("unexpected {:?}", other),
    }
    match handle_observe_command(&mut obs, &agents, o, Err("missing field `command`".into())) {
        ObserveReply::Help { message } => assert_eq!(message, "failed to parse observe command: missing field `command`"),
        other => panic!("unexpected {:?}", other),
    }
}

#[test]
fn removed_observers_receive_nothing() {
    let agents = PortmanSubscribers::new();
    let mut obs = Observers::new();
    let o1 = obs.open();
    let o2 = obs.open();
    subscribe(&mut obs, &agents, o1, vec![StreamKind::All, StreamKind::All], None);
    subscribe(&mut obs, &agents, o2, vec![StreamKind::All], None);
    assert_eq!(obs.recipients(MessageKind::Ack), vec![o1, o2]);
    obs.remove(o1);
    assert_eq!(obs.recipients(MessageKind::Ack), vec![o2]);
    assert_eq!(obs.list().len(), 1);
    assert_eq!(dedup_kinds(&vec![StreamKind::ByKind, StreamKind::All, StreamKind::ByKind]), vec![StreamKind::All, StreamKind::ByKind]);
}
