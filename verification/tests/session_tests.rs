use abbacchio::session::{
    CentrifugoCommand, CentrifugoEvent, ConnectionStatus, Effect, Session,
};

fn connected_session() -> Session {
    let (mut s, effects) = Session::start(String::from("tok"));
    assert_eq!(effects.len(), 1);
    let acks = s.on_text("{\"id\":1,\"result\":{}}");
    assert_eq!(acks, vec![Effect::Emit(CentrifugoEvent::Connected)]);
    s
}

#[test]
fn start_sends_connect_with_id_one() {
    let (s, effects) = Session::start(String::from("secret"));
    assert_eq!(
        effects,
        vec![Effect::Send(String::from(
            "{\"id\":1,\"method\":\"connect\",\"params\":{\"token\":\"secret\"}}"
        ))]
    );
    assert_eq!(s.status(), ConnectionStatus::Connecting);
    assert!(!s.is_terminated());
}

#[test]
fn connect_success_sets_connected_and_emits_once() {
    let (mut s, _) = Session::start(String::from("tok"));
    let effects = s.on_text("{\"id\":1,\"result\":{}}");
    assert_eq!(effects, vec![Effect::Emit(CentrifugoEvent::Connected)]);
    assert_eq!(s.status(), ConnectionStatus::Connected);
    assert!(!s.is_terminated());
}

#[test]
fn connect_failure_sets_error_and_terminates() {
    let (mut s, _) = Session::start(String::from("tok"));
    let effects =
        s.on_text("{\"id\":1,\"error\":{\"code\":109,\"message\":\"token expired\"}}");
    assert_eq!(
        effects,
        vec![Effect::Emit(CentrifugoEvent::Error { error: String::from("token expired") })]
    );
    assert_eq!(s.status(), ConnectionStatus::Error(String::from("token expired")));
    assert!(s.is_terminated());
}

#[test]
fn subscribe_sends_request_with_id_two_and_derived_channel() {
    let mut s = connected_session();
    let effects = s.on_command(CentrifugoCommand::Subscribe {
        channel_id: String::from("c1"),
        channel_name: String::from("app"),
    });
    assert_eq!(
        effects,
        vec![Effect::Send(String::from(
            "{\"id\":2,\"method\":\"subscribe\",\"params\":{\"channel\":\"logs:app\"}}"
        ))]
    );
}

#[test]
fn subscribe_success_emits_subscribed_and_routes_pushes() {
    let mut s = connected_session();
    s.on_command(CentrifugoCommand::Subscribe {
        channel_id: String::from("c1"),
        channel_name: String::from("app"),
    });
    let effects = s.on_text("{\"id\":2,\"result\":{}}");
    assert_eq!(
        effects,
        vec![Effect::Emit(CentrifugoEvent::Subscribed { channel_id: String::from("c1") })]
    );
    let pushes = s.on_text("{\"channel\":\"logs:app\",\"pub\":{\"data\":{\"x\":1}}}");
    assert_eq!(
        pushes,
        vec![Effect::Emit(CentrifugoEvent::Publication {
            channel_id: String::from("c1"),
            data: String::from("{\"x\":1}"),
        })]
    );
}

#[test]
fn subscribe_failure_emits_subscription_error_and_registers_nothing() {
    let mut s = connected_session();
    s.on_command(CentrifugoCommand::Subscribe {
        channel_id: String::from("c1"),
        channel_name: String::from("app"),
    });
    let effects =
        s.on_text("{\"id\":2,\"error\":{\"code\":105,\"message\":\"permission denied\"}}");
    assert_eq!(
        effects,
        vec![Effect::Emit(CentrifugoEvent::SubscriptionError {
            channel_id: String::from("c1"),
            error: String::from("permission denied"),
        })]
    );
    let pushes = s.on_text("{\"channel\":\"logs:app\",\"pub\":{\"data\":{\"x\":1}}}");
    assert_eq!(pushes, vec![]);
    assert_eq!(s.status(), ConnectionStatus::Connected);
}

#[test]
fn push_for_unknown_channel_is_dropped() {
    let mut s = connected_session();
    let pushes = s.on_text("{\"channel\":\"logs:other\",\"pub\":{\"data\":{\"x\":1}}}");
    assert_eq!(pushes, vec![]);
}

#[test]
fn unsubscribe_sends_request_and_stops_push_routing() {
    let mut s = connected_session();
    s.on_command(CentrifugoCommand::Subscribe {
        channel_id: String::from("c1"),
        channel_name: String::from("app"),
    });
    s.on_text("{\"id\":2,\"result\":{}}");
    let effects = s.on_command(CentrifugoCommand::Unsubscribe { channel_id: String::from("c1") });
    assert_eq!(
        effects,
        vec![Effect::Send(String::from(
            "{\"id\":3,\"method\":\"unsubscribe\",\"params\":{\"channel\":\"logs:app\"}}"
        ))]
    );
    let pushes = s.on_text("{\"channel\":\"logs:app\",\"pub\":{\"data\":{\"x\":1}}}");
    assert_eq!(pushes, vec![]);
    let acks = s.on_text("{\"id\":3,\"result\":{}}");
    assert_eq!(acks, vec![]);
}

#[test]
fn unsubscribing_an_unknown_handle_is_a_no_op() {
    let mut s = connected_session();
    let effects =
        s.on_command(CentrifugoCommand::Unsubscribe { channel_id: String::from("ghost") });
    assert_eq!(effects, vec![]);
}

#[test]
fn connect_command_on_live_session_is_ignored() {
    let mut s = connected_session();
    let effects = s.on_command(CentrifugoCommand::Connect {
        url: String::from("ws://example/connection/websocket"),
        token: String::from("tok"),
    });
    assert_eq!(effects, vec![]);
    assert_eq!(s.status(), ConnectionStatus::Connected);
}

#[test]
fn disconnect_closes_socket_and_silences_buffered_frames() {
    let mut s = connected_session();
    s.on_command(CentrifugoCommand::Subscribe {
        channel_id: String::from("c1"),
        channel_name: String::from("app"),
    });
    s.on_text("{\"id\":2,\"result\":{}}");
    let effects = s.on_command(CentrifugoCommand::Disconnect);
    assert_eq!(
        effects,
        vec![
            Effect::Close,
            Effect::Emit(CentrifugoEvent::Disconnected {
                reason: String::from("User disconnected"),
            }),
        ]
    );
    assert_eq!(s.status(), ConnectionStatus::Disconnected);
    assert!(s.is_terminated());
    let buffered = s.on_text("{\"channel\":\"logs:app\",\"pub\":{\"data\":{\"x\":1}}}");
    assert_eq!(buffered, vec![]);
    let late = s.on_command(CentrifugoCommand::Subscribe {
        channel_id: String::from("c2"),
        channel_name: String::from("db"),
    });
    assert_eq!(late, vec![]);
    assert_eq!(s.status(), ConnectionStatus::Disconnected);
}

#[test]
fn socket_close_disconnects() {
    let mut s = connected_session();
    let effects = s.on_close();
    assert_eq!(
        effects,
        vec![Effect::Emit(CentrifugoEvent::Disconnected {
            reason: String::from("Connection closed"),
        })]
    );
    assert_eq!(s.status(), ConnectionStatus::Disconnected);
    assert!(s.is_terminated());
    assert_eq!(s.on_close(), vec![]);
}

#[test]
fn transport_error_is_terminal() {
    let mut s = connected_session();
    let effects = s.on_transport_error(String::from("connection reset"));
    assert_eq!(
        effects,
        vec![Effect::Emit(CentrifugoEvent::Error { error: String::from("connection reset") })]
    );
    assert_eq!(s.status(), ConnectionStatus::Error(String::from("connection reset")));
    assert!(s.is_terminated());
    assert_eq!(s.on_transport_error(String::from("again")), vec![]);
}

#[test]
fn command_channel_closing_disconnects_with_connection_closed() {
    let mut s = connected_session();
    let effects = s.on_commands_closed();
    assert_eq!(
        effects,
        vec![
            Effect::Close,
            Effect::Emit(CentrifugoEvent::Disconnected {
                reason: String::from("Connection closed"),
            }),
        ]
    );
    assert_eq!(s.status(), ConnectionStatus::Disconnected);
}

#[test]
fn request_ids_increase_and_are_not_reused() {
    let mut s = connected_session();
    let e1 = s.on_command(CentrifugoCommand::Subscribe {
        channel_id: String::from("a"),
        channel_name: String::from("one"),
    });
    let e2 = s.on_command(CentrifugoCommand::Subscribe {
        channel_id: String::from("b"),
        channel_name: String::from("two"),
    });
    s.on_text("{\"id\":2,\"result\":{}}");
    let e3 = s.on_command(CentrifugoCommand::Unsubscribe { channel_id: String::from("a") });
    assert_eq!(
        e1,
        vec![Effect::Send(String::from(
            "{\"id\":2,\"method\":\"subscribe\",\"params\":{\"channel\":\"logs:one\"}}"
        ))]
    );
    assert_eq!(
        e2,
        vec![Effect::Send(String::from(
            "{\"id\":3,\"method\":\"subscribe\",\"params\":{\"channel\":\"logs:two\"}}"
        ))]
    );
    assert_eq!(
        e3,
        vec![Effect::Send(String::from(
            "{\"id\":4,\"method\":\"unsubscribe\",\"params\":{\"channel\":\"logs:one\"}}"
        ))]
    );
}

#[test]
fn stale_or_duplicate_response_ids_are_ignored() {
    let mut s = connected_session();
    s.on_command(CentrifugoCommand::Subscribe {
        channel_id: String::from("c1"),
        channel_name: String::from("app"),
    });
    let first = s.on_text("{\"id\":2,\"result\":{}}");
    assert_eq!(first.len(), 1);
    let duplicate = s.on_text("{\"id\":2,\"result\":{}}");
    assert_eq!(duplicate, vec![]);
    let unknown = s.on_text("{\"id\":99,\"result\":{}}");
    assert_eq!(unknown, vec![]);
}

#[test]
fn malformed_frames_are_dropped_without_effect() {
    let mut s = connected_session();
    assert_eq!(s.on_text("garbage"), vec![]);
    assert_eq!(s.on_text("{\"id\":}"), vec![]);
    assert_eq!(s.status(), ConnectionStatus::Connected);
}

#[test]
fn resubscribing_a_handle_replaces_its_channel() {
    let mut s = connected_session();
    s.on_command(CentrifugoCommand::Subscribe {
        channel_id: String::from("c1"),
        channel_name: String::from("one"),
    });
    s.on_text("{\"id\":2,\"result\":{}}");
    s.on_command(CentrifugoCommand::Subscribe {
        channel_id: String::from("c1"),
        channel_name: String::from("two"),
    });
    s.on_text("{\"id\":3,\"result\":{}}");
    let old_push = s.on_text("{\"channel\":\"logs:one\",\"pub\":{\"data\":1}}");
    assert_eq!(old_push, vec![]);
    let new_push = s.on_text("{\"channel\":\"logs:two\",\"pub\":{\"data\":1}}");
    assert_eq!(
        new_push,
        vec![Effect::Emit(CentrifugoEvent::Publication {
            channel_id: String::from("c1"),
            data: String::from("1"),
        })]
    );
}
