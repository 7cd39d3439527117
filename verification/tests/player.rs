use twilight_dispatch::player::{op_name, player_key, player_plan, Player, PlayerEvent, PlayerOp, PlayerState};

const STATE: PlayerState = PlayerState { time: 1500, position: Some(2000), paused: false, volume: 100 };

#[test]
fn player_keys() {
    assert_eq!(player_key(41771983423143937), "player:41771983423143937");
}

#[test]
fn player_event_names() {
    assert_eq!(op_name(&PlayerEvent::PlayerUpdate { guild: 1, state: STATE }), "PLAYER_UPDATE");
    assert_eq!(op_name(&PlayerEvent::Stats), "STATS");
    assert_eq!(op_name(&PlayerEvent::TrackEnd), "TRACK_END");
    assert_eq!(op_name(&PlayerEvent::TrackStart), "TRACK_START");
    assert_eq!(op_name(&PlayerEvent::TrackException), "TRACK_EXCEPTION");
    assert_eq!(op_name(&PlayerEvent::TrackStuck), "TRACK_STUCK");
    assert_eq!(op_name(&PlayerEvent::WebsocketClose { code: 4006 }), "WEBSOCKET_CLOSE");
    assert_eq!(op_name(&PlayerEvent::PlayerDestroy { guild: 1 }), "PLAYER_DESTROY");
}

#[test]
fn player_cache_steps() {
    assert_eq!(player_plan(&PlayerEvent::PlayerUpdate { guild: 2, state: STATE }), vec![
        PlayerOp::StorePlayer {
            key: "player:2".into(),
            player: Player { guild_id: 2, time: 1500, position: Some(2000), paused: false, volume: 100 },
        },
        PlayerOp::Expire { key: "player:2".into(), seconds: 30 },
    ]);
    assert_eq!(player_plan(&PlayerEvent::Stats), vec![PlayerOp::StoreStats { key: "player_stats".into() }]);
    assert_eq!(player_plan(&PlayerEvent::TrackStart), vec![PlayerOp::CountTrack]);
    assert_eq!(player_plan(&PlayerEvent::WebsocketClose { code: 4006 }), vec![PlayerOp::CountClose { code: "4006".into() }]);
    assert_eq!(player_plan(&PlayerEvent::PlayerDestroy { guild: 2 }), vec![PlayerOp::Delete { key: "player:2".into() }]);
    assert!(player_plan(&PlayerEvent::TrackEnd).is_empty());
}
