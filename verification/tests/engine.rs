use autochannel::engine::begin_iteration;
use autochannel::engine::build_redis_key;
use autochannel::engine::client_eligible;
use autochannel::engine::configured_permissions;
use autochannel::engine::creation_retry;
use autochannel::engine::delete_channel_ack;
use autochannel::engine::handle_event;
use autochannel::engine::handle_timeout;
use autochannel::engine::finish_scan;
use autochannel::engine::initial_state;
use autochannel::engine::mark_rescan;
use autochannel::engine::move_failure_action;
use autochannel::engine::move_success_plan;
use autochannel::engine::parse_cache_value;
use autochannel::engine::porter_candidate;
use autochannel::engine::porter_should_move;
use autochannel::engine::provision_steps;
use autochannel::engine::purge_keys;
use autochannel::engine::scan_client_action;
use autochannel::engine::AutoChannelEvent;
use autochannel::engine::ClientAction;
use autochannel::engine::ClientBasicInfo;
use autochannel::engine::CreateRetry;
use autochannel::engine::EngineAction;
use autochannel::engine::EngineConfig;
use autochannel::engine::MoveFailure;
use autochannel::engine::MutePorter;
use autochannel::engine::WaitStep;
use autochannel::engine::INVALID_CHANNEL_CODE;
use autochannel::engine::NAME_COLLISION_CODE;
use autochannel::handle::AutoChannelInstance;
use autochannel::handle::SendRoute;
use autochannel::rows::Client;
use autochannel::rows::ClientInfo;

fn test_config() -> EngineConfig {
    EngineConfig {
        monitor_channels: vec![10, 20],
        privilege_group: 6,
        channel_permissions: vec![(10, vec![(77, 1)])],
        moved_message: "you were moved".to_string(),
        nickname: "auto bot".to_string(),
        mute_porter: MutePorter {
            enable: true,
            monitor_channel: 10,
            target_channel: 30,
            whitelist: vec![9],
        },
    }
}

fn alice() -> Client {
    Client {
        client_id: 50,
        channel_id: 10,
        client_database_id: 5,
        client_nickname: "Alice".to_string(),
        client_type: 0,
    }
}

#[test]
fn scenario_fresh_client_is_provisioned() {
    // Client Alice (database id 5) joins monitored channel 10; cache miss.
    let cfg = test_config();
    let alice = alice();
    assert!(client_eligible(&alice, 99, &cfg.monitor_channels));

    let key = build_redis_key(alice.client_database_id, "srv-uid", alice.channel_id);
    assert_eq!(key, "ts_autochannel_5_srv-uid_10");

    let action = scan_client_action(&alice, parse_cache_value(None));
    let (name, parent) = match action {
        ClientAction::Provision { name, parent } => (name, parent),
        other => panic!("cache miss must provision, got {other:?}"),
    };
    assert_eq!(name, "Alice's channel");
    assert_eq!(parent, 10);

    let extra = configured_permissions(&cfg, alice.channel_id);
    assert_eq!(extra.as_deref(), Some(&[(77, 1)][..]));
    let steps = provision_steps(&cfg, &alice, 42, extra);
    assert_eq!(steps.len(), 3);
    match &steps[0] {
        EngineAction::SetChannelGroup { client_database_id, channel_id, group } => {
            assert_eq!((*client_database_id, *channel_id, *group), (5, 42, 6));
        }
        other => panic!("first step must grant the group, got {other:?}"),
    }
    match &steps[1] {
        EngineAction::AddPermissions { channel_id, permissions } => {
            assert_eq!(*channel_id, 42);
            assert_eq!(permissions, &vec![(133, 75)]);
        }
        other => panic!("second step must add the default pair, got {other:?}"),
    }
    match &steps[2] {
        EngineAction::AddPermissions { channel_id, permissions } => {
            assert_eq!(*channel_id, 42);
            assert_eq!(permissions, &vec![(77, 1)]);
        }
        other => panic!("third step must add the configured pairs, got {other:?}"),
    }

    // After a fresh provisioning, the engine notifies, moves itself back out
    // and persists the cache entry.
    let plan = move_success_plan(true);
    assert!(plan.notify && plan.self_move_back && plan.persist);
}

#[test]
fn scenario_cache_hit_moves_without_creation() {
    // The same client reappears; the cache holds channel 42: move directly,
    // never create.
    let alice = alice();
    let cached = parse_cache_value(Some("42".to_string()));
    assert_eq!(cached, Some(42));
    let action = scan_client_action(&alice, cached);
    match action {
        ClientAction::MoveExisting { target } => assert_eq!(target, 42),
        other => panic!("cache hit must move to the cached target, got {other:?}"),
    }
    let plan = move_success_plan(false);
    assert!(plan.notify);
    assert!(!plan.self_move_back);
    assert!(!plan.persist);
}

#[test]
fn scenario_invalid_channel_invalidates_cache_and_forces_rescan() {
    // A move fails with the invalid-channel code: the entry is stale; the
    // next iteration skips its wait.
    assert!(matches!(
        move_failure_action(INVALID_CHANNEL_CODE),
        MoveFailure::StaleCache
    ));
    assert!(matches!(move_failure_action(2568), MoveFailure::SkipClient));

    let mut state = initial_state();
    assert!(!begin_iteration(&mut state)); // the first iteration scans at once
    assert!(begin_iteration(&mut state)); // later ones wait
    mark_rescan(&mut state);
    assert!(!begin_iteration(&mut state)); // a stale entry forces an immediate rescan
}

#[test]
fn scenario_name_collision_retries_with_growing_names() {
    // Creation fails with the name-collision code: retry with "1" appended,
    // repeatedly, until accepted.
    let first = creation_retry("Alice's channel", 0, NAME_COLLISION_CODE);
    let name1 = match first {
        CreateRetry::Retry { name } => name,
        CreateRetry::GiveUp => panic!("first collision must retry"),
    };
    assert_eq!(name1, "Alice's channel1");
    let second = creation_retry(&name1, 1, NAME_COLLISION_CODE);
    let name2 = match second {
        CreateRetry::Retry { name } => name,
        CreateRetry::GiveUp => panic!("second collision must retry"),
    };
    assert_eq!(name2, "Alice's channel11");
    assert!(name1.len() < name2.len());
    // Any other failure gives up at once.
    assert!(matches!(
        creation_retry(&name2, 2, 2568),
        CreateRetry::GiveUp
    ));
    // The retry budget is finite, so the loop terminates.
    assert!(matches!(
        creation_retry(&name2, u32::MAX - 1, NAME_COLLISION_CODE),
        CreateRetry::GiveUp
    ));
}

#[test]
fn scenario_delete_channel_purges_every_monitored_key() {
    // DeleteChannel(requester=7, uid="abc") arrives; "abc" resolves to
    // database id 5: every monitored channel's key is purged and the
    // requester is acknowledged.
    let mut state = initial_state();
    let step = handle_event(
        &mut state,
        AutoChannelEvent::DeleteChannel(7, "abc".to_string()),
        1,
    );
    let (requester, uid) = match step {
        WaitStep::ResolveAndPurge { requester, uid } => (requester, uid),
        other => panic!("delete-channel event must resolve and purge, got {other:?}"),
    };
    assert_eq!(requester, 7);
    assert_eq!(uid, "abc");
    let keys = purge_keys(5, "srv-uid", &vec![10, 20]);
    assert_eq!(
        keys,
        vec![
            "ts_autochannel_5_srv-uid_10".to_string(),
            "ts_autochannel_5_srv-uid_20".to_string(),
        ]
    );
    assert_eq!(delete_channel_ack(), "Received.");
}

#[test]
fn scan_skips_self_bots_and_unmonitored_channels() {
    let cfg = test_config();
    let mut own = alice();
    // The engine's own identity is skipped.
    assert!(!client_eligible(&own, 5, &cfg.monitor_channels));
    // A query client is skipped.
    own.client_type = 1;
    assert!(!client_eligible(&own, 99, &cfg.monitor_channels));
    // A client outside every monitored channel is skipped.
    let mut outside = alice();
    outside.channel_id = 33;
    assert!(!client_eligible(&outside, 99, &cfg.monitor_channels));
}

#[test]
fn unparsable_cache_value_counts_as_miss() {
    assert_eq!(parse_cache_value(Some("not a number".to_string())), None);
    assert_eq!(parse_cache_value(Some("".to_string())), None);
    assert_eq!(parse_cache_value(Some("77".to_string())), Some(77));
}

#[test]
fn wait_phase_event_handling() {
    let mut state = initial_state();
    assert!(matches!(
        handle_event(&mut state, AutoChannelEvent::Terminate, 1),
        WaitStep::Exit
    ));
    // A self-echo update is ignored.
    assert!(matches!(
        handle_event(
            &mut state,
            AutoChannelEvent::Update(ClientBasicInfo { client_id: 1, channel_id: 10 }),
            1
        ),
        WaitStep::Ignore
    ));
    // Another client's update falls through to a scan.
    assert!(matches!(
        handle_event(
            &mut state,
            AutoChannelEvent::Update(ClientBasicInfo { client_id: 2, channel_id: 10 }),
            1
        ),
        WaitStep::Scan
    ));
    // A refresh request flags the next timeout.
    assert!(!state.should_refresh);
    assert!(matches!(
        handle_event(&mut state, AutoChannelEvent::ShouldRefresh, 1),
        WaitStep::Scan
    ));
    assert!(state.should_refresh);

    let plan = handle_timeout(&state, true);
    assert!(plan.keepalive && plan.run_porter && plan.scan);
    finish_scan(&mut state);
    assert!(!state.should_refresh);
    let plan = handle_timeout(&state, false);
    assert!(plan.keepalive && !plan.run_porter && !plan.scan);
}

#[test]
fn mute_porter_policy() {
    let cfg = test_config();
    let porter = &cfg.mute_porter;
    let human = alice();
    assert!(porter_candidate(&human, porter));
    // Whitelisted database ids are exempt.
    let mut listed = alice();
    listed.client_database_id = 9;
    assert!(!porter_candidate(&listed, porter));
    // Bots and other channels are ignored.
    let mut bot = alice();
    bot.client_type = 1;
    assert!(!porter_candidate(&bot, porter));
    let mut elsewhere = alice();
    elsewhere.channel_id = 30;
    assert!(!porter_candidate(&elsewhere, porter));
    // Only a reported muted flag moves the client.
    assert!(porter_should_move(&Some(ClientInfo { client_input_muted: true })));
    assert!(!porter_should_move(&Some(ClientInfo { client_input_muted: false })));
    assert!(!porter_should_move(&None));
}

#[test]
fn handle_routes_updates() {
    let unbound = AutoChannelInstance::new(vec![10, 20], false);
    assert!(!unbound.valid());
    assert!(matches!(
        unbound.route_send(&ClientBasicInfo { client_id: 2, channel_id: 10 }),
        SendRoute::NotDelivered
    ));

    let bound = AutoChannelInstance::new(vec![10, 20], true);
    assert!(bound.valid());
    assert!(matches!(
        bound.route_send(&ClientBasicInfo { client_id: 2, channel_id: 10 }),
        SendRoute::Deliver
    ));
    assert!(matches!(
        bound.route_send(&ClientBasicInfo { client_id: 2, channel_id: 33 }),
        SendRoute::Refresh
    ));
}
