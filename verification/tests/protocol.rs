use satori::codec::{decode_event, decode_signal, encode_event, encode_signal, DecodeError, Signal};
use satori::connector::{ConnAction, ConnEvent, ConnPhase, Connector};
use satori::gateway::{bot_id_from_headers, gateway_step, FanOut, GatewayReply};
use satori::json::JsonValue;
use satori::registry::{NetSDKConfig, Registry};
use satori::api::{interpret_response, prepare_call, CallApiError};
use satori::structs::{BotId, Channel, ChannelType, Event, Login, Status, User};

fn s(t: &str) -> String {
    t.to_string()
}

fn obj(members: Vec<(&str, JsonValue)>) -> JsonValue {
    JsonValue::Obj(members.into_iter().map(|(k, v)| (k.to_string(), v)).collect())
}

fn sample_event() -> Event {
    Event {
        id: 7,
        ty: s("message-created"),
        platform: s("demo"),
        self_id: s("42"),
        timestamp: 1000,
        channel: Some(Channel {
            id: s("c1"),
            name: Some(s("general")),
            ty: ChannelType::Text,
            parent_id: None,
        }),
        guild: None,
        login: None,
        member: None,
        operator: None,
        role: None,
        user: Some(User { id: s("u1"), name: None, avatar: None, is_bot: Some(false) }),
        extra: vec![
            (s("payload"), obj(vec![("k", JsonValue::Int(3))])),
            (s("note"), JsonValue::Str(s("kept"))),
        ],
    }
}

fn route(token: Option<&str>) -> NetSDKConfig {
    NetSDKConfig { host: s("127.0.0.1"), port: 5140, authorize: token.map(s) }
}

fn ready_signal_tree() -> JsonValue {
    obj(vec![
        ("op", JsonValue::Int(4)),
        (
            "body",
            obj(vec![(
                "logins",
                JsonValue::Arr(vec![obj(vec![
                    ("self_id", JsonValue::Str(s("42"))),
                    ("platform", JsonValue::Str(s("demo"))),
                    ("status", JsonValue::Int(1)),
                    ("user", JsonValue::Null),
                ])]),
            )]),
        ),
    ])
}

#[test]
fn event_round_trip_keeps_extension_members() {
    let e = sample_event();
    let decoded = decode_event(&encode_event(&e)).expect("round trip decodes");
    assert_eq!(decoded, e);
    assert_eq!(decoded.extra[0].0, "payload");
    assert_eq!(decoded.extra[1].1, JsonValue::Str(s("kept")));
}

#[test]
fn signal_round_trip_all_variants() {
    let variants = vec![
        Signal::event(sample_event()),
        Signal::ping(),
        Signal::pong(),
        Signal::identfy("tok", 9),
        Signal::ready(vec![Login {
            user: None,
            self_id: Some(s("42")),
            platform: Some(s("demo")),
            status: Status::Online,
        }]),
    ];
    for sig in variants {
        let back = decode_signal(&encode_signal(&sig)).expect("signal decodes");
        assert_eq!(back, sig);
    }
}

#[test]
fn unknown_op_is_a_typed_violation() {
    let v = obj(vec![("op", JsonValue::Int(9)), ("body", JsonValue::Null)]);
    assert_eq!(decode_signal(&v), Err(DecodeError::UnknownOp(9)));
}

#[test]
fn malformed_bodies_are_rejected() {
    let no_op = obj(vec![("body", JsonValue::Null)]);
    assert_eq!(decode_signal(&no_op), Err(DecodeError::Malformed));
    let bad_identify = obj(vec![("op", JsonValue::Int(3)), ("body", obj(vec![("token", JsonValue::Int(1))]))]);
    assert_eq!(decode_signal(&bad_identify), Err(DecodeError::Malformed));
    let bad_event = obj(vec![("op", JsonValue::Int(0)), ("body", obj(vec![("id", JsonValue::Str(s("x")))]))]);
    assert_eq!(decode_signal(&bad_event), Err(DecodeError::Malformed));
    let bad_status = obj(vec![(
        "op",
        JsonValue::Int(4),
    ), (
        "body",
        obj(vec![("logins", JsonValue::Arr(vec![obj(vec![("status", JsonValue::Int(9))])]))]),
    )]);
    assert_eq!(decode_signal(&bad_status), Err(DecodeError::Malformed));
}

#[test]
fn status_and_channel_type_codes() {
    assert_eq!(Status::Online.code(), 1);
    assert_eq!(Status::from_code(4), Some(Status::Reconnect));
    assert_eq!(Status::from_code(5), None);
    assert_eq!(ChannelType::Direct.code(), 3);
    assert_eq!(ChannelType::from_code(0), Some(ChannelType::Text));
    assert_eq!(ChannelType::from_code(9), None);
}

#[test]
fn registry_replace_drops_stale_routes() {
    let mut reg = Registry::new();
    let a = BotId { id: s("a"), platform: s("demo") };
    let b = BotId { id: s("b"), platform: s("demo") };
    reg.replace_owner(1, &vec![a.clone(), b.clone()], &route(None));
    assert!(reg.lookup(&a).is_some());
    assert!(reg.lookup(&b).is_some());
    reg.replace_owner(1, &vec![a.clone()], &route(None));
    assert!(reg.lookup(&a).is_some());
    assert!(reg.lookup(&b).is_none());
}

#[test]
fn registry_teardown_spares_other_owners() {
    let mut reg = Registry::new();
    let a = BotId { id: s("a"), platform: s("demo") };
    let b = BotId { id: s("b"), platform: s("demo") };
    reg.replace_owner(1, &vec![a.clone()], &route(None));
    reg.replace_owner(2, &vec![b.clone()], &route(Some("t2")));
    reg.remove_owner(1);
    assert!(reg.lookup(&a).is_none());
    let r = reg.lookup(&b).expect("other owner's entry stays");
    assert_eq!(r.authorize, Some(s("t2")));
}

#[test]
fn call_for_unregistered_bot_is_not_found() {
    let reg = Registry::new();
    let bot = BotId { id: s("42"), platform: s("demo") };
    let r = prepare_call(&reg, "message.create", &bot, JsonValue::Null);
    assert!(matches!(r, Err(CallApiError::NotFound)));
}

#[test]
fn prepared_request_carries_identity_and_bearer_headers() {
    let mut reg = Registry::new();
    let bot = BotId { id: s("42"), platform: s("demo") };
    reg.replace_owner(1, &vec![bot.clone()], &route(Some("sekrit")));
    let req = prepare_call(&reg, "message.create", &bot, JsonValue::Null).expect("routed");
    assert_eq!(req.host, "127.0.0.1");
    assert_eq!(req.port, 5140);
    assert_eq!(req.api, "message.create");
    assert!(req.headers.contains(&(s("X-Self-ID"), s("42"))));
    assert!(req.headers.contains(&(s("X-Platform"), s("demo"))));
    assert!(req.headers.contains(&(s("Authorization"), s("Bearer sekrit"))));
}

#[test]
fn response_statuses_map_to_error_taxonomy() {
    assert_eq!(interpret_response(200, s("ok")), Ok(s("ok")));
    assert!(matches!(interpret_response(400, s("")), Err(CallApiError::BadRequest)));
    assert!(matches!(interpret_response(401, s("")), Err(CallApiError::Unauthorized)));
    assert!(matches!(interpret_response(403, s("")), Err(CallApiError::Forbidden)));
    assert!(matches!(interpret_response(404, s("")), Err(CallApiError::NotFound)));
    assert!(matches!(interpret_response(405, s("")), Err(CallApiError::MethodNotAllowed)));
    assert!(matches!(interpret_response(503, s("")), Err(CallApiError::ServerError(503))));
}

#[test]
fn error_to_http_response_codes() {
    assert_eq!(CallApiError::BadRequest.into_resp(), (400, s("")));
    assert_eq!(CallApiError::NotFound.into_resp(), (404, s("")));
    assert_eq!(CallApiError::ServerError(502).into_resp(), (502, s("")));
    assert_eq!(CallApiError::DeserializeFailed(s("bad")).into_resp(), (400, s("")));
}

#[test]
fn missing_identity_headers_are_rejected_with_400() {
    let ok = bot_id_from_headers(Some(s("42")), Some(s("demo"))).expect("both present");
    assert_eq!(ok, BotId { id: s("42"), platform: s("demo") });
    let e1 = bot_id_from_headers(None, Some(s("demo"))).unwrap_err();
    assert_eq!(e1, (400, s("Self id missed or error")));
    let e2 = bot_id_from_headers(Some(s("42")), None).unwrap_err();
    assert_eq!(e2, (400, s("Platform missed or error")));
}

#[test]
fn broadcast_with_zero_subscribers_never_errors() {
    let mut fan = FanOut::new();
    fan.broadcast(&sample_event());
    assert_eq!(fan.subs.len(), 0);
}

#[test]
fn broadcast_overflow_drops_the_oldest_event() {
    let mut fan = FanOut::new();
    fan.subscribe(1, 1);
    fan.subscribe(2, 2);
    let mut first = sample_event();
    first.id = 1;
    let mut second = sample_event();
    second.id = 2;
    fan.broadcast(&first);
    fan.broadcast(&second);
    assert_eq!(fan.subs[0].queue.len(), 1);
    assert_eq!(fan.subs[0].queue[0].id, 2);
    assert_eq!(fan.subs[1].queue.len(), 2);
    assert_eq!(fan.subs[1].queue[0].id, 1);
}

#[test]
fn take_queue_drains_one_subscriber_and_unsubscribe_removes_it() {
    let mut fan = FanOut::new();
    fan.subscribe(1, 4);
    fan.subscribe(2, 4);
    fan.broadcast(&sample_event());
    let drained = fan.take_queue(1);
    assert_eq!(drained.len(), 1);
    assert_eq!(fan.subs[0].queue.len(), 0);
    assert_eq!(fan.subs[1].queue.len(), 1);
    fan.unsubscribe(1);
    assert_eq!(fan.subs.len(), 1);
    assert_eq!(fan.subs[0].id, 2);
    assert_eq!(fan.subs[0].queue.len(), 1);
}

#[test]
fn scenario_ready_registers_routes_for_declared_bots_only() {
    let sig = decode_signal(&ready_signal_tree()).expect("ready decodes");
    let mut reg = Registry::new();
    let mut conn = Connector::new(1, s(""), route(None));
    conn.step(ConnEvent::Connected, &mut reg);
    let actions = conn.step(ConnEvent::Frame(sig), &mut reg);
    assert!(actions.is_empty());
    let known = BotId { id: s("42"), platform: s("demo") };
    let unknown = BotId { id: s("99"), platform: s("demo") };
    assert!(prepare_call(&reg, "x", &known, JsonValue::Null).is_ok());
    assert!(matches!(
        prepare_call(&reg, "x", &unknown, JsonValue::Null),
        Err(CallApiError::NotFound)
    ));
}

#[test]
fn scenario_subscriber_ping_answered_with_pong() {
    let ping = decode_signal(&obj(vec![("op", JsonValue::Int(1)), ("body", JsonValue::Null)]))
        .expect("ping decodes");
    let reg = Registry::new();
    assert_eq!(gateway_step(&ping, &reg), GatewayReply::Pong);
    let pong_wire = encode_signal(&Signal::pong());
    assert_eq!(
        pong_wire,
        obj(vec![("op", JsonValue::Int(2)), ("body", JsonValue::Null)])
    );
}

#[test]
fn scenario_shutdown_sends_only_close_and_clears_registry() {
    let mut reg = Registry::new();
    let mut conn = Connector::new(1, s(""), route(None));
    conn.step(ConnEvent::Connected, &mut reg);
    let sig = decode_signal(&ready_signal_tree()).expect("ready decodes");
    conn.step(ConnEvent::Frame(sig), &mut reg);
    let known = BotId { id: s("42"), platform: s("demo") };
    assert!(reg.lookup(&known).is_some());
    let actions = conn.step(ConnEvent::Shutdown, &mut reg);
    assert_eq!(actions, vec![ConnAction::SendClose]);
    assert_eq!(conn.phase, ConnPhase::Terminated);
    assert!(reg.lookup(&known).is_none());
    let more = conn.step(ConnEvent::TimerTick, &mut reg);
    assert!(more.is_empty());
}

#[test]
fn gateway_identify_answers_registry_snapshot() {
    let mut reg = Registry::new();
    let bot = BotId { id: s("42"), platform: s("demo") };
    reg.replace_owner(1, &vec![bot], &route(None));
    let identify = Signal::identfy("tok", 0);
    match gateway_step(&identify, &reg) {
        GatewayReply::Ready(logins) => {
            assert_eq!(logins.len(), 1);
            assert_eq!(logins[0].self_id, Some(s("42")));
            assert_eq!(logins[0].platform, Some(s("demo")));
            assert_eq!(logins[0].status, Status::Online);
        }
        other => panic!("expected a READY snapshot, got {:?}", other),
    }
    let event_sig = Signal::event(sample_event());
    assert_eq!(gateway_step(&event_sig, &reg), GatewayReply::Violation);
}

#[test]
fn unknown_op_frame_closes_the_connection() {
    let mut reg = Registry::new();
    let mut conn = Connector::new(1, s(""), route(None));
    conn.step(ConnEvent::Connected, &mut reg);
    let sig = decode_signal(&ready_signal_tree()).expect("ready decodes");
    conn.step(ConnEvent::Frame(sig), &mut reg);
    let known = BotId { id: s("42"), platform: s("demo") };
    assert!(reg.lookup(&known).is_some());
    let actions = conn.step(ConnEvent::ProtocolViolation, &mut reg);
    assert_eq!(actions, vec![ConnAction::SendClose]);
    assert_eq!(conn.phase, ConnPhase::Terminated);
    assert!(reg.lookup(&known).is_none());
}

#[test]
fn transport_faults_back_off_and_retry() {
    let mut reg = Registry::new();
    let mut conn = Connector::new(1, s(""), route(None));
    assert!(conn.step(ConnEvent::ConnectFailed, &mut reg).is_empty());
    assert_eq!(conn.phase, ConnPhase::Backoff);
    assert_eq!(conn.attempts, 1);
    assert_eq!(conn.backoff_delay(), 1);
    conn.step(ConnEvent::BackoffElapsed, &mut reg);
    assert_eq!(conn.phase, ConnPhase::Connecting);
    conn.step(ConnEvent::ConnectFailed, &mut reg);
    conn.step(ConnEvent::BackoffElapsed, &mut reg);
    conn.step(ConnEvent::ConnectFailed, &mut reg);
    assert_eq!(conn.attempts, 3);
    assert_eq!(conn.backoff_delay(), 4);
    conn.step(ConnEvent::BackoffElapsed, &mut reg);
    conn.step(ConnEvent::Connected, &mut reg);
    assert_eq!(conn.phase, ConnPhase::Active);
    assert_eq!(conn.attempts, 0);
}

#[test]
fn non_integer_numbers_ride_extension_members_losslessly() {
    let mut e = sample_event();
    e.extra = vec![
        (s("ratio"), JsonValue::Num(s("3.25"))),
        (s("big"), JsonValue::Num(s("18446744073709551615"))),
    ];
    let decoded = decode_event(&encode_event(&e)).expect("round trip decodes");
    assert_eq!(decoded, e);
    assert_eq!(decoded.extra[0].1, JsonValue::Num(s("3.25")));
}

#[test]
fn connector_sequence_counter_only_increases() {
    let mut reg = Registry::new();
    let mut conn = Connector::new(1, s("tok"), route(None));
    let actions = conn.step(ConnEvent::Connected, &mut reg);
    assert_eq!(actions, vec![ConnAction::SendIdentify(s("tok"), 0)]);
    let mut high = sample_event();
    high.id = 10;
    conn.step(ConnEvent::Frame(Signal::event(high)), &mut reg);
    assert_eq!(conn.seq, 10);
    let mut low = sample_event();
    low.id = 3;
    let acts = conn.step(ConnEvent::Frame(Signal::event(low)), &mut reg);
    assert_eq!(conn.seq, 10);
    assert!(matches!(acts[0], ConnAction::Dispatch(_)));
}
