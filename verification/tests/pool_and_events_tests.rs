use std::collections::VecDeque;

use mina_node_core::event_source::{
    event_source_effects, Event, P2pConnectionEvent, P2pEvent, RpcRequest,
};
use mina_node_core::external_snark_worker::{
    external_snark_worker_effects, ExternalSnarkWorkerAction, ExternalSnarkWorkerCommand,
    ExternalSnarkWorkerConfig,
};
use mina_node_core::genesis::{GenesisCommand, TransitionFrontierGenesisEffectfulAction};
use mina_node_core::kad::{ConnectionType, Message, MessageType, Peer, Record};
use mina_node_core::p2p_connection::P2pConnectionAction;
use mina_node_core::rpc::RpcAction;
use mina_node_core::snark_pool::{
    JobCommitment, JobState, OneOrTwo, SnarkJobCommitment, SnarkPoolConfig, SnarkPoolState,
};
use mina_node_core::state::Action;

fn job(id: u64) -> JobState {
    JobState { time: 1, id, job: OneOrTwo::One(id * 10), commitment: None, snark: None }
}

fn committed_job(id: u64, committed_at: u64) -> JobState {
    JobState {
        time: 1,
        id,
        job: OneOrTwo::Two(id, id + 1),
        commitment: Some(JobCommitment {
            commitment: SnarkJobCommitment { fee: 3, snarker: 9, timestamp: committed_at },
            received_t: committed_at,
            sender: 9,
        }),
        snark: None,
    }
}

#[test]
fn pool_inserts_finds_and_removes_jobs() {
    let mut pool = SnarkPoolState::new(SnarkPoolConfig { commitment_timeout: 100 });
    assert!(!pool.contains(5));
    pool.insert(job(5));
    pool.insert(job(6));
    assert!(pool.contains(5));
    assert_eq!(pool.get(5), Some(job(5)));
    assert_eq!(pool.get(6), Some(job(6)));
    assert_eq!(pool.last_index(), 1);
    let removed = pool.remove(5);
    assert_eq!(removed, Some(job(5)));
    assert!(!pool.contains(5));
    assert!(pool.contains(6));
}

#[test]
fn pool_retain_drops_exactly_the_refused_jobs() {
    let mut pool = SnarkPoolState::new(SnarkPoolConfig { commitment_timeout: 100 });
    for id in 1..=6u64 {
        pool.insert(job(id));
    }
    pool.retain(|id| id % 2 == 0);
    for id in 1..=6u64 {
        assert_eq!(pool.contains(id), id % 2 == 0, "job {id}");
    }
}

#[test]
fn pool_reports_timed_out_commitments_and_available_jobs() {
    let mut pool = SnarkPoolState::new(SnarkPoolConfig { commitment_timeout: 100 });
    pool.insert(job(1));
    pool.insert(committed_job(2, 50));
    pool.insert(committed_job(3, 400));
    // at time 200, the commitment from 50 is 150 old: timed out; the one
    // from 400 is not
    assert!(pool.is_commitment_timed_out(2, 200));
    assert!(!pool.is_commitment_timed_out(3, 200));
    assert!(!pool.is_commitment_timed_out(1, 200));
    let timed_out = pool.timed_out_commitments(200);
    assert_eq!(timed_out, vec![2]);
    let available: Vec<u64> = pool.available_jobs().iter().map(|j| j.id).collect();
    assert_eq!(available, vec![1]);
    assert!(pool.should_create_commitment(1));
    assert!(!pool.should_create_commitment(2));
    let in_range: Vec<u64> = pool.range(1, 3).iter().map(|e| e.0).collect();
    assert_eq!(in_range, vec![1, 2]);
}

#[test]
fn events_become_their_actions_and_the_tick_is_closed() {
    let mut events: VecDeque<Event> = VecDeque::new();
    events.push_back(Event::P2p(P2pEvent::Connection(P2pConnectionEvent::Opened(5))));
    events.push_back(Event::Rpc(77, RpcRequest::GetState));
    let mut queue: Vec<Action> = Vec::new();
    event_source_effects(&mut events, &mut queue);
    assert!(events.is_empty());
    // `Opened` confirms both directions, so four actions in all
    assert_eq!(queue.len(), 4);
    assert!(matches!(
        queue[0],
        Action::P2pConnection(P2pConnectionAction::OutgoingFinalizeSuccess(_))
    ));
    assert!(matches!(
        queue[1],
        Action::P2pConnection(P2pConnectionAction::IncomingFinalizeSuccess(_))
    ));
    match &queue[2] {
        Action::Rpc(RpcAction::GlobalStateGet(a)) => assert_eq!(a.rpc_id, 77),
        _ => panic!("expected the state query"),
    }
    assert!(matches!(queue[3], Action::CheckTimeouts(_)));
}

#[test]
fn a_tick_translates_at_most_its_bound_of_events() {
    let mut events: VecDeque<Event> = VecDeque::new();
    for i in 0..1500u64 {
        events.push_back(Event::Rpc(i, RpcRequest::GetState));
    }
    let mut queue: Vec<Action> = Vec::new();
    event_source_effects(&mut events, &mut queue);
    // 1024 processed, the rest wait; plus the closing timeout check
    assert_eq!(events.len(), 1500 - 1024);
    assert_eq!(queue.len(), 1024 + 1);
}

#[test]
fn worker_commands_follow_the_lifecycle_decisions() {
    let config = ExternalSnarkWorkerConfig { path: Some(11), public_key: 22, fee: 33 };
    let mut pool = SnarkPoolState::new(SnarkPoolConfig { commitment_timeout: 100 });
    pool.insert(job(4));
    let mut commands: Vec<ExternalSnarkWorkerCommand> = Vec::new();
    let mut queue: Vec<Action> = Vec::new();

    external_snark_worker_effects(
        &config,
        &pool,
        &ExternalSnarkWorkerAction::Start,
        &mut commands,
        &mut queue,
    );
    assert_eq!(commands, vec![ExternalSnarkWorkerCommand::Start { path: 11 }]);

    commands.clear();
    external_snark_worker_effects(
        &config,
        &pool,
        &ExternalSnarkWorkerAction::SubmitWork { job_id: 4 },
        &mut commands,
        &mut queue,
    );
    assert_eq!(
        commands,
        vec![ExternalSnarkWorkerCommand::Submit {
            job: OneOrTwo::One(40),
            public_key: 22,
            fee: 33,
        }]
    );

    commands.clear();
    external_snark_worker_effects(
        &config,
        &pool,
        &ExternalSnarkWorkerAction::SubmitWork { job_id: 99 },
        &mut commands,
        &mut queue,
    );
    assert!(commands.is_empty());

    external_snark_worker_effects(
        &config,
        &pool,
        &ExternalSnarkWorkerAction::WorkResult { result: 1 },
        &mut commands,
        &mut queue,
    );
    assert_eq!(queue, vec![Action::ExternalSnarkWorkerPruneWork]);
}

#[test]
fn genesis_actions_ask_for_exactly_their_work() {
    let mut commands: Vec<GenesisCommand> = Vec::new();
    TransitionFrontierGenesisEffectfulAction::LedgerLoadInit { config: 5 }.effects(&mut commands);
    TransitionFrontierGenesisEffectfulAction::ProveInit { block_hash: 6, input: 7 }.effects(
        &mut commands,
    );
    assert_eq!(
        commands,
        vec![
            GenesisCommand::LoadGenesis { config: 5 },
            GenesisCommand::Prove { block_hash: 6, input: 7 },
        ]
    );
}

#[test]
fn kad_messages_serialize_with_their_exact_size() {
    let record = Record { key: vec![1, 2], value: vec![3], time_received: vec![] };
    let peer = Peer {
        id: vec![9],
        addrs: vec![vec![4, 5], vec![6]],
        connection: ConnectionType::Connected,
    };
    let msg = Message {
        type_pb: MessageType::GetValue,
        cluster_level_raw: -1,
        key: vec![7],
        record: Some(record),
        closer_peers: vec![peer],
        provider_peers: vec![],
    };
    let size = msg.get_size();
    let mut bytes: Vec<u8> = Vec::new();
    msg.write_message(&mut bytes);
    assert_eq!(bytes.len(), size);
    // field order and wire defaults: type 1 under tag 8, the negative
    // cluster level sign-extended to ten varint bytes under tag 80, the
    // key under tag 18, the record embedded under tag 26 (its empty
    // receipt time omitted), the one peer embedded under tag 66
    let mut expected: Vec<u8> = vec![8, 1];
    expected.extend_from_slice(&[80]);
    expected.extend_from_slice(&[0xff, 0xff, 0xff, 0xff, 0xff, 0xff, 0xff, 0xff, 0xff, 0x01]);
    expected.extend_from_slice(&[18, 1, 7]);
    expected.extend_from_slice(&[26, 7, 10, 2, 1, 2, 18, 1, 3]);
    expected.extend_from_slice(&[66, 12, 10, 1, 9, 18, 2, 4, 5, 18, 1, 6, 24, 1]);
    assert_eq!(bytes, expected);
}

#[test]
fn kad_empty_message_serializes_to_nothing() {
    let msg = Message {
        type_pb: MessageType::PutValue,
        cluster_level_raw: 0,
        key: vec![],
        record: None,
        closer_peers: vec![],
        provider_peers: vec![],
    };
    assert_eq!(msg.get_size(), 0);
    let mut bytes: Vec<u8> = Vec::new();
    msg.write_message(&mut bytes);
    assert!(bytes.is_empty());
}

#[test]
fn kad_codes_map_to_their_kinds() {
    assert_eq!(MessageType::from_code(0), MessageType::PutValue);
    assert_eq!(MessageType::from_code(4), MessageType::FindNode);
    assert_eq!(MessageType::from_code(5), MessageType::Ping);
    assert_eq!(MessageType::from_code(99), MessageType::PutValue);
    assert_eq!(ConnectionType::from_code(1), ConnectionType::Connected);
    assert_eq!(ConnectionType::from_code(3), ConnectionType::CannotConnect);
    assert_eq!(ConnectionType::from_code(-1), ConnectionType::NotConnected);
}
