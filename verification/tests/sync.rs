use astero_core::body::Body;
use astero_core::cannon::Cannon;
use astero_core::clock::ServerClock;
use astero_core::input::{Input, InputBuffer, Key};
use astero_core::interp::InterpolationBuffer;
use astero_core::life::Life;
use astero_core::session::{EntityUpdate, Msg, RecvAction, Session, recv_step};

fn body_at(pos_x: i64, pos_y: i64) -> Body {
    Body::new(pos_x, pos_y, 0, 0, 0, 0, 10_000)
}

fn update_for(id: u32, body: Body) -> EntityUpdate {
    EntityUpdate {
        id,
        body,
        current_fire_timeout: None,
        last_handled_input: None,
        shot_confirmed: None,
    }
}

#[test]
fn clock_probe_round_trip() {
    // probe sent at 1000, server clock read 1050, reply received at 1100
    let mut clock = ServerClock::new();
    clock.update(1000, 1050, 1100);
    assert_eq!(clock.latency, 50);
    assert_eq!(clock.delta_time, -50);
    assert_eq!(clock.compensation(), 0);
}

#[test]
fn clock_latest_probe_wins() {
    let mut clock = ServerClock::new();
    clock.update(1000, 1050, 1100);
    clock.update(2000, 2400, 2200);
    assert_eq!(clock.latency, 100);
    assert_eq!(clock.delta_time, 200);
    assert_eq!(clock.compensation(), 300);
}

#[test]
fn cannon_cooldown_saturates_and_reloads() {
    let mut cannon = Cannon::new(500);
    assert!(!cannon.ready_to_fire());
    cannon.update(499);
    assert!(!cannon.ready_to_fire());
    cannon.update(10);
    assert!(cannon.ready_to_fire());
    cannon.update(10);
    assert_eq!(cannon.cur_timeout, 0);
    cannon.reload();
    assert_eq!(cannon.cur_timeout, 500);
    cannon.set_current_timeout(-25);
    assert_eq!(cannon.cur_timeout, 0);
}

#[test]
fn life_fraction_in_permille() {
    let full = Life::new(3000);
    assert_eq!(full.fraction(), 1000);
    let hurt = Life { cur: 1000, max: 3000 };
    assert_eq!(hurt.fraction(), 333);
}

#[test]
fn key_transitions_produce_deltas() {
    let mut input = Input::new();
    let delta = input.key_down(Key::Up, false).unwrap();
    assert_eq!(delta.accel, Some(1));
    assert_eq!(delta.turn, None);
    assert_eq!(delta.fire, None);
    // repeat edges are ignored
    assert!(input.key_down(Key::Up, true).is_none());
    // unbound keys are ignored
    assert!(input.key_down(Key::Other, false).is_none());
    assert!(input.key_up(Key::Other).is_none());
    // a release of the same group zeroes the field
    let delta = input.key_up(Key::Down).unwrap();
    assert_eq!(delta.accel, Some(0));
    // an unchanged field stays out of the delta
    let delta = input.key_down(Key::Space, false).unwrap();
    assert_eq!(delta.fire, Some(true));
    assert_eq!(delta.accel, None);
}

#[test]
fn delta_merge_keeps_unset_fields() {
    let mut base = astero_core::input::InputDelta { turn: Some(1), accel: None, fire: None };
    let later = astero_core::input::InputDelta { turn: None, accel: Some(-1), fire: None };
    assert!(base.update(&later));
    assert_eq!(base.turn, Some(1));
    assert_eq!(base.accel, Some(-1));
    let same = astero_core::input::InputDelta { turn: None, accel: None, fire: None };
    assert!(!base.update(&same));
}

#[test]
fn drain_keeps_only_unacknowledged_entries() {
    let mut buffer = InputBuffer::new();
    let mut input = Input::new();
    input.key_down(Key::Up, false);
    assert_eq!(buffer.add(input), 1);
    input.key_down(Key::Left, false);
    assert_eq!(buffer.add(input), 2);
    input.key_up(Key::Up);
    assert_eq!(buffer.add(input), 3);
    buffer.increase_update_step();
    let kept = buffer.get_state_after(2);
    assert_eq!(kept.len(), 1);
    assert_eq!(kept[0].sequence_number, 3);
    assert_eq!(kept[0].full_update_steps, 1);
    // the tracker retains exactly what it returned
    assert_eq!(buffer.buf.len(), 1);
    assert_eq!(buffer.buf[0].sequence_number, 3);
    // draining an empty acknowledgement again changes nothing
    let kept = buffer.get_state_after(2);
    assert_eq!(kept.len(), 1);
    // acknowledging everything empties the tracker without panicking
    let kept = buffer.get_state_after(3);
    assert_eq!(kept.len(), 0);
    assert_eq!(buffer.buf.len(), 0);
    let kept = buffer.get_state_after(9);
    assert_eq!(kept.len(), 0);
}

#[test]
fn interpolation_brackets_render_time() {
    // snapshots at t=100 (pos 0,0) and t=200 (pos 10,0 units)
    let mut buffer = InterpolationBuffer::new();
    assert!(buffer.add(body_at(0, 0), 100));
    assert!(buffer.add(body_at(10_000, 0), 200));
    let pose = buffer.interpolate(150).unwrap();
    assert_eq!(pose.pos_x, 5_000);
    assert_eq!(pose.pos_y, 0);
}

#[test]
fn interpolation_never_extrapolates() {
    let mut buffer = InterpolationBuffer::new();
    buffer.add(body_at(0, 0), 100);
    buffer.add(body_at(10_000, 0), 200);
    // before the oldest snapshot: the oldest pose unchanged
    let pose = buffer.interpolate(50).unwrap();
    assert_eq!(pose.pos_x, 0);
    // past the newest snapshot: the older one is evicted and the single
    // remaining pose is returned unchanged
    let pose = buffer.interpolate(250).unwrap();
    assert_eq!(pose.pos_x, 10_000);
    // an empty buffer yields nothing rather than failing
    let mut empty = InterpolationBuffer::new();
    assert!(empty.interpolate(123).is_none());
}

#[test]
fn interpolation_buffer_stays_time_ordered() {
    let mut buffer = InterpolationBuffer::new();
    assert!(buffer.add(body_at(0, 0), 100));
    // a snapshot that is not strictly newer is ignored
    assert!(!buffer.add(body_at(1, 1), 100));
    assert!(!buffer.add(body_at(1, 1), 50));
    assert_eq!(buffer.buf.len(), 1);
}

#[test]
fn recv_policy_matches_transport_rules() {
    assert_eq!(recv_step(0, &Msg::Unknown), (RecvAction::Skip, 0));
    assert_eq!(recv_step(0, &Msg::ServerNotResponding), (RecvAction::Skip, 1));
    assert_eq!(recv_step(1, &Msg::ServerNotResponding), (RecvAction::Skip, 2));
    assert_eq!(recv_step(2, &Msg::ServerNotResponding), (RecvAction::GiveUp, 3));
    assert_eq!(recv_step(2, &Msg::Heartbeat), (RecvAction::ReplyHeartbeat, 0));
    assert_eq!(recv_step(2, &Msg::Destroy { id: 4 }), (RecvAction::Deliver, 0));
}

#[test]
fn join_then_destroy_round_trip() {
    let mut session = Session::new();
    let t = session.handle_inbound(
        &Msg::JoinAck { id: 7, body: body_at(0, 0), life: 3000 }, 0,
    );
    assert!(!t);
    assert_eq!(session.player_id, Some(7));
    assert_eq!(session.world.num_entities(), 1);
    assert!(session.world.is_alive(0));
    assert!(session.world.cannon(0).is_some());
    // an update for an unknown id is dropped silently
    session.handle_inbound(
        &Msg::SimUpdates { timestamp: 1, updates: vec![update_for(99, body_at(1, 1))] }, 10,
    );
    assert_eq!(session.world.body(0).unwrap(), body_at(0, 0));
    // destroy for an unknown id is dropped silently
    session.handle_inbound(&Msg::Destroy { id: 99 }, 20);
    assert!(session.world.is_alive(0));
    session.handle_inbound(&Msg::Destroy { id: 7 }, 30);
    assert!(!session.world.is_alive(0));
}

#[test]
fn connection_loss_terminates() {
    let mut session = Session::new();
    assert!(session.handle_inbound(&Msg::ConnectionLost, 0));
    assert!(session.handle_inbound(&Msg::ServerNotResponding, 0));
    assert!(!session.handle_inbound(&Msg::Heartbeat, 0));
    assert!(!session.handle_inbound(&Msg::Unknown, 0));
}

#[test]
fn stale_batch_produces_no_mutation() {
    let mut session = Session::new();
    session.handle_inbound(
        &Msg::CreatePlayer { id: 5, body: body_at(0, 0), life: 3000 }, 0,
    );
    session.handle_inbound(
        &Msg::SimUpdates { timestamp: 100, updates: vec![update_for(5, body_at(1_000, 0))] },
        1000,
    );
    let buffered = session.world.interp_buffers[0].as_ref().unwrap().buf.len();
    assert_eq!(buffered, 1);
    // an equal timestamp is stale: nothing at all changes
    session.handle_inbound(
        &Msg::SimUpdates { timestamp: 100, updates: vec![update_for(5, body_at(9_000, 0))] },
        2000,
    );
    assert_eq!(session.world.interp_buffers[0].as_ref().unwrap().buf.len(), 1);
    assert_eq!(session.last_update_timestamp, Some(100));
    // an older timestamp is stale too
    session.handle_inbound(
        &Msg::SimUpdates { timestamp: 99, updates: vec![update_for(5, body_at(9_000, 0))] },
        3000,
    );
    assert_eq!(session.world.interp_buffers[0].as_ref().unwrap().buf.len(), 1);
    // a fresh timestamp applies
    session.handle_inbound(
        &Msg::SimUpdates { timestamp: 101, updates: vec![update_for(5, body_at(9_000, 0))] },
        4000,
    );
    assert_eq!(session.world.interp_buffers[0].as_ref().unwrap().buf.len(), 2);
    assert_eq!(session.last_update_timestamp, Some(101));
}

#[test]
fn cooldown_fires_one_tagged_projectile() {
    // a local entity at rest with a 0.5 s cooldown
    let mut session = Session::new();
    session.handle_inbound(
        &Msg::JoinAck { id: 7, body: body_at(0, 0), life: 3000 }, 0,
    );
    assert_eq!(session.world.cannon(0).unwrap().cur_timeout, 500);
    // let the initial cooldown elapse (no fire input held)
    session.advance_fixed_tick(510);
    assert!(session.world.cannon(0).unwrap().cur_timeout == 0);
    assert_eq!(session.world.num_entities(), 1);
    // hold fire: the change is recorded under a fresh sequence number
    let out = session.key_down(Key::Space, false).unwrap();
    assert_eq!(out.sequence_num, 1);
    assert_eq!(out.delta.fire, Some(true));
    assert!(out.body_then.is_some());
    assert_eq!(session.unconfirmed_shot_id, Some(1));
    // after exactly one tick interval, the cooldown is back at its full
    // value and exactly one speculative projectile exists, tagged with the
    // pending sequence number
    session.advance_fixed_tick(10);
    assert_eq!(session.world.num_entities(), 2);
    assert_eq!(session.world.cannon(0).unwrap().cur_timeout, 500);
    let mut shots = 0;
    for e in 0..session.world.num_entities() {
        if let Some(tag) = session.world.shot_id(e) {
            shots += 1;
            assert_eq!(tag.sequence, 1);
            assert!(tag.confirmed);
        }
    }
    assert_eq!(shots, 1);
}

#[test]
fn reconciliation_replays_to_predicted_state() {
    let start = body_at(0, 0);
    // a session that never hears from the server
    let mut predicted = Session::new();
    predicted.handle_inbound(&Msg::JoinAck { id: 7, body: start, life: 3000 }, 0);
    predicted.key_down(Key::Up, false);
    predicted.advance_fixed_tick(50);
    // an identical session that receives an authoritative update equal to
    // the reference state at the acknowledged point (nothing handled yet)
    let mut reconciled = Session::new();
    reconciled.handle_inbound(&Msg::JoinAck { id: 7, body: start, life: 3000 }, 0);
    reconciled.key_down(Key::Up, false);
    reconciled.advance_fixed_tick(50);
    reconciled.handle_inbound(
        &Msg::SimUpdates {
            timestamp: 10,
            updates: vec![EntityUpdate {
                id: 7,
                body: start,
                current_fire_timeout: None,
                last_handled_input: Some(0),
                shot_confirmed: None,
            }],
        },
        100,
    );
    // replaying the unacknowledged inputs reproduced the prediction exactly
    assert_eq!(
        predicted.world.body(0).unwrap(),
        reconciled.world.body(0).unwrap(),
    );
}

#[test]
fn withdrawn_confirmation_deletes_projectile() {
    let mut session = Session::new();
    session.handle_inbound(&Msg::JoinAck { id: 7, body: body_at(0, 0), life: 3000 }, 0);
    session.advance_fixed_tick(510);
    let out = session.key_down(Key::Space, false).unwrap();
    session.advance_fixed_tick(10);
    assert_eq!(session.world.num_entities(), 2);
    assert!(session.world.is_alive(1));
    session.handle_inbound(
        &Msg::SimUpdates {
            timestamp: 10,
            updates: vec![EntityUpdate {
                id: 7,
                body: body_at(0, 0),
                current_fire_timeout: Some(500),
                last_handled_input: Some(out.sequence_num),
                shot_confirmed: Some(false),
            }],
        },
        1000,
    );
    // the speculative projectile is gone; the player remains
    assert!(session.world.is_alive(0));
    assert!(!session.world.is_alive(1));
}

#[test]
fn server_cooldown_is_shifted_into_local_time() {
    let mut session = Session::new();
    session.handle_inbound(&Msg::JoinAck { id: 7, body: body_at(0, 0), life: 3000 }, 0);
    // latency 50, offset -50: compensation is zero
    session.handle_inbound(&Msg::Latency { timestamp: 1000, server_timestamp: 1050 }, 1100);
    session.handle_inbound(
        &Msg::SimUpdates {
            timestamp: 10,
            updates: vec![EntityUpdate {
                id: 7,
                body: body_at(0, 0),
                current_fire_timeout: Some(300),
                last_handled_input: None,
                shot_confirmed: None,
            }],
        },
        1200,
    );
    assert_eq!(session.world.cannon(0).unwrap().cur_timeout, 300);
    // an implausible probe (sent after it returned) is dropped
    session.handle_inbound(&Msg::Latency { timestamp: 5000, server_timestamp: 100 }, 2000);
    assert_eq!(session.server_clock.latency, 50);
}

#[test]
fn render_sampling_blends_and_interpolates() {
    let mut session = Session::new();
    session.handle_inbound(&Msg::CreatePlayer { id: 5, body: body_at(0, 0), life: 3000 }, 0);
    session.handle_inbound(
        &Msg::SimUpdates { timestamp: 1, updates: vec![update_for(5, body_at(0, 0))] }, 100,
    );
    session.handle_inbound(
        &Msg::SimUpdates { timestamp: 2, updates: vec![update_for(5, body_at(10_000, 0))] }, 200,
    );
    // render at local time 183: sampling happens at 150, between snapshots
    session.sample_for_render(183);
    assert_eq!(session.world.body(0).unwrap().pos_x, 5_000);
}

#[test]
fn duplicate_ids_are_dropped() {
    let mut session = Session::new();
    session.handle_inbound(&Msg::JoinAck { id: 7, body: body_at(0, 0), life: 3000 }, 0);
    // a second join acknowledgement is ignored
    session.handle_inbound(&Msg::JoinAck { id: 8, body: body_at(5, 5), life: 3000 }, 0);
    assert_eq!(session.player_id, Some(7));
    assert_eq!(session.world.num_entities(), 1);
    // a create for an id already in use is ignored
    session.handle_inbound(&Msg::CreatePlayer { id: 7, body: body_at(5, 5), life: 3000 }, 0);
    assert_eq!(session.world.num_entities(), 1);
    session.handle_inbound(&Msg::CreateAsteroid { id: 9, body: body_at(5, 5), life: 3000 }, 0);
    assert_eq!(session.world.num_entities(), 2);
    session.handle_inbound(&Msg::CreateAsteroid { id: 9, body: body_at(6, 6), life: 3000 }, 0);
    assert_eq!(session.world.num_entities(), 2);
}

#[test]
fn server_shot_has_lifetime_only() {
    let mut session = Session::new();
    session.handle_inbound(&Msg::CreateShot { body: body_at(1, 2), ttl: 1500 }, 0);
    assert_eq!(session.world.num_entities(), 1);
    assert_eq!(session.world.ttl(0).unwrap().ttl, 1500);
    assert!(session.world.network_id(0).is_none());
    assert!(session.world.cannon(0).is_none());
}

#[test]
fn empty_delta_detection() {
    let empty = astero_core::input::InputDelta { turn: None, accel: None, fire: None };
    assert!(empty.is_empty());
    let fire = astero_core::input::InputDelta { turn: None, accel: None, fire: Some(true) };
    assert!(!fire.is_empty());
}

#[test]
fn blend_without_history_uses_current_pose() {
    let mut blender = astero_core::body::BlenderBody::new();
    let cur = body_at(1000, 0);
    blender.blend(&cur, 5, 10);
    assert_eq!(blender.get_blended(), Some(cur));
    // with a cached pose the blend lands between the two
    blender.save(body_at(0, 0));
    blender.blend(&cur, 5, 10);
    assert_eq!(blender.get_blended().unwrap().pos_x, 500);
}

#[test]
fn turning_keys_produce_direction_deltas() {
    let mut input = Input::new();
    let delta = input.key_down(Key::Left, false).unwrap();
    assert_eq!(delta.turn, Some(-1));
    let delta = input.key_down(Key::Right, false).unwrap();
    assert_eq!(delta.turn, Some(1));
    let delta = input.key_down(Key::Down, false).unwrap();
    assert_eq!(delta.accel, Some(-1));
    let delta = input.key_up(Key::Space);
    // releasing an unpressed fire key still reports no change
    assert_eq!(delta.unwrap().fire, None);
}
