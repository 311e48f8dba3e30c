use vr_backup::backup::Backup;
use vr_backup::ctx::{VersionedReplicas, VrCtx};
use vr_backup::fresh::{is_fresh, Freshness};
use vr_backup::ids::{CorrelationId, Pid};
use vr_backup::msg::{
    ClientOp, ClientRequest, Commit, DoViewChange, GetState, Output, PeerMsg, Prepare, PrepareOk,
    Reconfiguration, Recovery, StartEpoch, StartView, StartViewChange, VrMsg,
};
use vr_backup::state::VrState;

fn pid(id: u64) -> Pid {
    Pid::new(id)
}

fn cid() -> CorrelationId {
    CorrelationId { pid: pid(9), request: 42 }
}

fn req(byte: u8) -> ClientOp {
    ClientOp::Request(ClientRequest { op: vec![byte], client_id: 7, request_num: byte as u64 })
}

fn config(epoch: u64, ids: &[u64]) -> VersionedReplicas {
    VersionedReplicas { epoch, op: 0, replicas: ids.iter().map(|i| pid(*i)).collect() }
}

/// Replica 1 of {1, 2, 3}; with view 1 the primary is replica 2.
fn ctx(epoch: u64, view: u64, op: u64, commit_num: u64) -> VrCtx {
    VrCtx {
        pid: pid(1),
        epoch,
        view,
        op,
        commit_num,
        log: (1..=op).map(|i| req(i as u8)).collect(),
        last_received_time: 0,
        last_normal_view: view,
        old_config: config(epoch, &[1, 2, 3]),
        new_config: config(epoch, &[1, 2, 3]),
        idle_timeout: 5,
        reconfiguration_in_progress: false,
    }
}

fn backup(epoch: u64, view: u64, op: u64, commit_num: u64) -> Backup {
    Backup::new(ctx(epoch, view, op, commit_num))
}

fn request_byte(o: &Output) -> u8 {
    match o {
        Output::Execute(r) => r.op[0],
        other => panic!("expected an execution, got {:?}", other),
    }
}

fn expect_backup(s: VrState) -> Backup {
    match s {
        VrState::Backup(b) => b,
        other => panic!("expected a backup, got {:?}", other),
    }
}

#[test]
fn prepare_next_op_appends_acknowledges_and_commits() {
    let b = backup(1, 1, 5, 5);
    let mut out = Vec::new();
    let m = Prepare { epoch: 1, view: 1, op: 6, commit_num: 6, msg: req(0xAA) };
    let b = expect_backup(b.handle(VrMsg::Prepare(m), pid(2), cid(), 100, &mut out));
    assert_eq!(b.ctx.op, 6);
    assert_eq!(b.ctx.commit_num, 6);
    assert_eq!(b.ctx.log.len(), 6);
    assert!(matches!(&b.ctx.log[5], ClientOp::Request(r) if r.op == vec![0xAA]));
    assert_eq!(b.ctx.last_received_time, 100);
    assert_eq!(out.len(), 2);
    match &out[0] {
        Output::Send(e) => {
            assert_eq!(e.to, pid(2));
            assert_eq!(e.from, pid(1));
            assert_eq!(e.cid, cid());
            assert_eq!(e.msg, PeerMsg::PrepareOk(PrepareOk { epoch: 1, view: 1, op: 6, from: pid(1) }));
        }
        other => panic!("expected a PrepareOk, got {:?}", other),
    }
    assert_eq!(request_byte(&out[1]), 0xAA);
}

#[test]
fn prepare_with_gap_turns_to_state_transfer() {
    let b = backup(1, 1, 5, 5);
    let mut out = Vec::new();
    let m = Prepare { epoch: 1, view: 1, op: 8, commit_num: 7, msg: req(0xBB) };
    match b.handle(VrMsg::Prepare(m), pid(2), cid(), 100, &mut out) {
        VrState::StateTransfer(c) => {
            assert_eq!(c.op, 5);
            assert_eq!(c.commit_num, 5);
            assert_eq!(c.log.len(), 5);
        }
        other => panic!("expected state transfer, got {:?}", other),
    }
    assert!(out.is_empty());
}

#[test]
fn prepare_one_past_next_is_a_gap_too() {
    let b = backup(1, 1, 5, 5);
    let mut out = Vec::new();
    let m = Prepare { epoch: 1, view: 1, op: 7, commit_num: 5, msg: req(1) };
    assert!(matches!(b.handle(VrMsg::Prepare(m), pid(2), cid(), 1, &mut out), VrState::StateTransfer(_)));
    assert!(out.is_empty());
}

#[test]
fn prepare_retransmission_is_ignored_but_heard() {
    let b = backup(1, 1, 5, 5);
    let mut out = Vec::new();
    let m = Prepare { epoch: 1, view: 1, op: 5, commit_num: 5, msg: req(1) };
    let b = expect_backup(b.handle(VrMsg::Prepare(m), pid(2), cid(), 33, &mut out));
    assert_eq!(b.ctx.op, 5);
    assert_eq!(b.ctx.log.len(), 5);
    assert_eq!(b.ctx.last_received_time, 33);
    assert!(out.is_empty());
}

#[test]
fn prepare_from_other_epoch_or_view_is_ignored() {
    for (epoch, view) in [(2, 1), (0, 1), (1, 2), (1, 0)] {
        let b = backup(1, 1, 5, 5);
        let mut out = Vec::new();
        let m = Prepare { epoch, view, op: 6, commit_num: 6, msg: req(1) };
        let b = expect_backup(b.handle(VrMsg::Prepare(m), pid(2), cid(), 33, &mut out));
        assert_eq!(b.ctx.op, 5);
        assert_eq!(b.ctx.last_received_time, 0);
        assert!(out.is_empty());
    }
}

#[test]
fn tick_after_idle_timeout_starts_view_change() {
    let mut c = ctx(1, 1, 5, 5);
    c.last_received_time = 10;
    let b = Backup::new(c);
    let mut out = Vec::new();
    match b.handle(VrMsg::Tick, pid(1), cid(), 20, &mut out) {
        VrState::StartViewChange(c) => {
            assert_eq!(c.view, 2);
            assert_eq!(c.last_received_time, 20);
        }
        other => panic!("expected a view change, got {:?}", other),
    }
    let to: Vec<Pid> = out
        .iter()
        .map(|o| match o {
            Output::Send(e) => {
                assert_eq!(e.msg, PeerMsg::StartViewChange(StartViewChange { epoch: 1, view: 2, op: 5 }));
                assert_eq!(e.from, pid(1));
                e.to
            }
            other => panic!("expected a proposal, got {:?}", other),
        })
        .collect();
    assert_eq!(to, vec![pid(2), pid(3)]);
}

#[test]
fn tick_exactly_at_timeout_fires() {
    let mut c = ctx(1, 4, 0, 0);
    c.last_received_time = 10;
    let mut out = Vec::new();
    let s = Backup::new(c).handle(VrMsg::Tick, pid(1), cid(), 15, &mut out);
    assert!(matches!(s, VrState::StartViewChange(ref c) if c.view == 5));
    assert!(!out.is_empty());
}

#[test]
fn tick_before_timeout_changes_nothing() {
    let mut c = ctx(1, 1, 5, 5);
    c.last_received_time = 10;
    let mut out = Vec::new();
    let b = expect_backup(Backup::new(c).handle(VrMsg::Tick, pid(1), cid(), 14, &mut out));
    assert_eq!(b.ctx.view, 1);
    assert_eq!(b.ctx.last_received_time, 10);
    assert!(out.is_empty());
}

#[test]
fn tick_with_clock_behind_last_message_changes_nothing() {
    let mut c = ctx(1, 1, 5, 5);
    c.last_received_time = 100;
    let mut out = Vec::new();
    let b = expect_backup(Backup::new(c).handle(VrMsg::Tick, pid(1), cid(), 3, &mut out));
    assert_eq!(b.ctx.view, 1);
    assert!(out.is_empty());
}

#[test]
fn start_view_replaces_state_and_replays_commits() {
    let b = backup(1, 1, 0, 0);
    assert_eq!(b.primary, pid(2));
    let mut out = Vec::new();
    let m = StartView { epoch: 1, view: 2, op: 3, log: vec![req(0xA), req(0xB), req(0xC)], commit_num: 3 };
    let b = expect_backup(b.handle(VrMsg::StartView(m), pid(3), cid(), 50, &mut out));
    assert_eq!(b.ctx.view, 2);
    assert_eq!(b.ctx.op, 3);
    assert_eq!(b.ctx.commit_num, 3);
    assert_eq!(b.ctx.last_normal_view, 2);
    assert_eq!(b.ctx.log.len(), 3);
    assert_eq!(b.primary, pid(3));
    assert_eq!(out.len(), 4);
    assert!(matches!(out[0], Output::NewPrimary(p) if p == pid(3)));
    assert_eq!(request_byte(&out[1]), 0xA);
    assert_eq!(request_byte(&out[2]), 0xB);
    assert_eq!(request_byte(&out[3]), 0xC);
}

#[test]
fn start_view_with_same_primary_announces_nothing_new() {
    let b = backup(1, 1, 0, 0);
    let mut out = Vec::new();
    let m = StartView { epoch: 1, view: 4, op: 1, log: vec![req(5)], commit_num: 0 };
    let b = expect_backup(b.handle(VrMsg::StartView(m), pid(2), cid(), 50, &mut out));
    assert_eq!(b.ctx.view, 4);
    assert_eq!(b.primary, pid(2));
    assert!(out.is_empty());
}

#[test]
fn start_view_with_lower_commit_takes_it_without_executing() {
    let b = backup(1, 1, 5, 5);
    let mut out = Vec::new();
    let m = StartView { epoch: 1, view: 2, op: 3, log: vec![req(1), req(2), req(3)], commit_num: 2 };
    let b = expect_backup(b.handle(VrMsg::StartView(m), pid(3), cid(), 50, &mut out));
    assert_eq!(b.ctx.commit_num, 2);
    assert_eq!(b.ctx.op, 3);
    assert!(out.iter().all(|o| !matches!(o, Output::Execute(_))));
}

#[test]
fn stale_start_view_changes_nothing() {
    for (epoch, view) in [(1, 1), (1, 0), (0, 9)] {
        let b = backup(1, 1, 2, 1);
        let mut out = Vec::new();
        let m = StartView { epoch, view, op: 3, log: vec![req(1), req(2), req(3)], commit_num: 3 };
        let b = expect_backup(b.handle(VrMsg::StartView(m), pid(3), cid(), 50, &mut out));
        assert_eq!(b.ctx.view, 1);
        assert_eq!(b.ctx.op, 2);
        assert_eq!(b.ctx.commit_num, 1);
        assert_eq!(b.ctx.log.len(), 2);
        assert_eq!(b.ctx.last_received_time, 0);
        assert!(out.is_empty());
    }
}

#[test]
fn start_view_from_later_epoch_is_accepted() {
    let b = backup(1, 5, 0, 0);
    let mut out = Vec::new();
    let m = StartView { epoch: 2, view: 0, op: 2, log: vec![req(1), reconfig(2, &[2, 1, 3])], commit_num: 2 };
    let b = expect_backup(b.handle(VrMsg::StartView(m), pid(2), cid(), 50, &mut out));
    assert_eq!(b.ctx.view, 0);
    assert_eq!(b.ctx.epoch, 2);
    assert_eq!(b.ctx.commit_num, 2);
    assert_eq!(b.primary, pid(2));
    assert!(matches!(out.last(), Some(Output::BroadcastEpochStarted)));
}

#[test]
fn epoch_and_view_never_go_back() {
    let b = backup(1, 4, 1, 0);
    let mut out = Vec::new();
    let m = Prepare { epoch: 1, view: 4, op: 2, commit_num: 2, msg: reconfig(3, &[2, 1]) };
    let b = expect_backup(b.handle(VrMsg::Prepare(m), pid(2), cid(), 5, &mut out));
    assert_eq!(b.ctx.epoch, 3);
    assert_eq!(b.ctx.view, 4);
    let m = StartView { epoch: 3, view: 2, op: 2, log: vec![], commit_num: 0 };
    let b = expect_backup(b.handle(VrMsg::StartView(m), pid(2), cid(), 6, &mut out));
    assert_eq!(b.ctx.view, 4);
    assert_eq!(b.ctx.epoch, 3);
}

#[test]
fn commit_at_or_below_commit_number_is_noop() {
    for target in [0, 3, 5] {
        let b = backup(1, 1, 6, 5);
        let mut out = Vec::new();
        let b = expect_backup(b.commit(target, &mut out));
        assert_eq!(b.ctx.commit_num, 5);
        assert_eq!(b.ctx.op, 6);
        assert_eq!(b.ctx.log.len(), 6);
        assert!(out.is_empty());
    }
}

#[test]
fn commit_executes_each_request_once_in_order() {
    let b = backup(1, 1, 5, 2);
    let mut out = Vec::new();
    let b = expect_backup(b.commit(5, &mut out));
    assert_eq!(b.ctx.commit_num, 5);
    let bytes: Vec<u8> = out.iter().map(request_byte).collect();
    assert_eq!(bytes, vec![3, 4, 5]);
}

fn reconfig(epoch: u64, ids: &[u64]) -> ClientOp {
    ClientOp::Reconfiguration(Reconfiguration {
        client_req_num: 1,
        epoch,
        replicas: ids.iter().map(|i| pid(*i)).collect(),
    })
}

fn with_log(log: Vec<ClientOp>) -> Backup {
    let mut c = ctx(1, 1, 0, 0);
    c.op = log.len() as u64;
    c.log = log;
    Backup::new(c)
}

#[test]
fn reconfiguration_removing_replica_leaves() {
    let b = with_log(vec![req(1), reconfig(2, &[4, 5])]);
    let mut out = Vec::new();
    match b.commit(2, &mut out) {
        VrState::Leaving(c) => {
            assert_eq!(c.epoch, 2);
            assert_eq!(c.commit_num, 2);
            assert_eq!(c.new_config.replicas, vec![pid(4), pid(5)]);
            assert_eq!(c.new_config.op, 2);
            assert_eq!(c.old_config.replicas, vec![pid(1), pid(2), pid(3)]);
        }
        other => panic!("expected to leave, got {:?}", other),
    }
    assert_eq!(request_byte(&out[0]), 1);
    assert!(matches!(&out[1], Output::Reconfigured { epoch: 2, replicas } if *replicas == vec![pid(4), pid(5)]));
    assert!(matches!(out[2], Output::NewPrimary(p) if p == pid(5)));
    assert_eq!(out.len(), 3);
}

#[test]
fn reconfiguration_making_replica_primary_leads() {
    let mut c = ctx(1, 1, 0, 0);
    c.log = vec![reconfig(2, &[2, 1])];
    c.op = 1;
    c.reconfiguration_in_progress = true;
    let mut out = Vec::new();
    match Backup::new(c).commit(1, &mut out) {
        VrState::Primary(c) => {
            assert_eq!(c.epoch, 2);
            assert!(!c.reconfiguration_in_progress);
        }
        other => panic!("expected to lead, got {:?}", other),
    }
    assert!(matches!(out.last(), Some(Output::BroadcastEpochStarted)));
}

#[test]
fn reconfiguration_keeping_replica_follower_stays_backup() {
    let b = with_log(vec![reconfig(2, &[1, 2])]);
    let mut out = Vec::new();
    let b = expect_backup(b.commit(1, &mut out));
    assert_eq!(b.ctx.epoch, 2);
    assert_eq!(b.primary, pid(2));
    assert_eq!(b.ctx.commit_num, 1);
    assert!(matches!(out.last(), Some(Output::BroadcastEpochStarted)));
}

#[test]
fn reconfiguration_not_at_log_end_does_not_decide() {
    let b = with_log(vec![reconfig(2, &[4, 5]), req(7)]);
    let mut out = Vec::new();
    let b = expect_backup(b.commit(1, &mut out));
    assert_eq!(b.ctx.epoch, 2);
    assert_eq!(b.ctx.commit_num, 1);
    assert!(out.iter().all(|o| !matches!(o, Output::BroadcastEpochStarted)));
}

#[test]
fn commit_message_paths() {
    let mut out = Vec::new();
    let b = expect_backup(backup(1, 1, 5, 3).handle(
        VrMsg::Commit(Commit { epoch: 1, view: 1, commit_num: 3 }), pid(2), cid(), 9, &mut out));
    assert_eq!(b.ctx.commit_num, 3);
    assert_eq!(b.ctx.last_received_time, 9);
    assert!(out.is_empty());

    let b = expect_backup(backup(1, 1, 5, 3).handle(
        VrMsg::Commit(Commit { epoch: 1, view: 1, commit_num: 5 }), pid(2), cid(), 9, &mut out));
    assert_eq!(b.ctx.commit_num, 5);
    assert_eq!(out.iter().map(request_byte).collect::<Vec<u8>>(), vec![4, 5]);

    let mut out = Vec::new();
    let s = backup(1, 1, 5, 3).handle(
        VrMsg::Commit(Commit { epoch: 1, view: 1, commit_num: 4 }), pid(2), cid(), 9, &mut out);
    assert!(matches!(s, VrState::StateTransfer(ref c) if c.commit_num == 3 && c.op == 5));
    assert!(out.is_empty());

    let s = backup(1, 1, 5, 3).handle(
        VrMsg::Commit(Commit { epoch: 1, view: 2, commit_num: 5 }), pid(2), cid(), 9, &mut out);
    assert!(matches!(s, VrState::Backup(ref b) if b.ctx.commit_num == 3 && b.ctx.last_received_time == 0));
    assert!(out.is_empty());
}

#[test]
fn stale_view_change_messages_are_ignored() {
    for (epoch, view) in [(2, 5), (0, 5), (1, 1), (1, 0)] {
        let mut out = Vec::new();
        let b = expect_backup(backup(1, 1, 2, 2).handle(
            VrMsg::StartViewChange(StartViewChange { epoch, view, op: 2 }), pid(3), cid(), 9, &mut out));
        assert_eq!(b.ctx.view, 1);
        assert_eq!(b.ctx.last_received_time, 0);
        let dvc = DoViewChange { epoch, view, op: 2, from: pid(3), last_normal_view: 0, log: vec![], commit_num: 0 };
        let b = expect_backup(b.handle(VrMsg::DoViewChange(dvc), pid(3), cid(), 9, &mut out));
        assert_eq!(b.ctx.view, 1);
        assert!(out.is_empty());
    }
}

#[test]
fn later_view_change_messages_are_handed_on() {
    let mut out = Vec::new();
    let m = StartViewChange { epoch: 1, view: 2, op: 2 };
    let s = backup(1, 1, 2, 2).handle(VrMsg::StartViewChange(m), pid(3), cid(), 9, &mut out);
    assert!(matches!(s, VrState::JoinViewChange(ref c, from, msg) if c.view == 1 && from == pid(3) && msg == m));
    let dvc = DoViewChange { epoch: 1, view: 3, op: 2, from: pid(3), last_normal_view: 0, log: vec![], commit_num: 0 };
    let s = backup(1, 1, 2, 2).handle(VrMsg::DoViewChange(dvc), pid(3), cid(), 9, &mut out);
    assert!(matches!(s, VrState::DoViewChange(_, from, ref msg) if from == pid(3) && msg.view == 3));
    assert!(out.is_empty());
}

#[test]
fn get_state_answered_only_in_same_view() {
    let mut out = Vec::new();
    let s = backup(1, 1, 4, 4).handle(VrMsg::GetState(GetState { epoch: 1, view: 1, op: 2 }), pid(3), cid(), 9, &mut out);
    assert!(matches!(s, VrState::Backup(_)));
    assert_eq!(out.len(), 1);
    assert!(matches!(out[0], Output::SendNewState { to, op: 2, cid: c } if to == pid(3) && c == cid()));
    let mut out = Vec::new();
    let s = backup(1, 1, 4, 4).handle(VrMsg::GetState(GetState { epoch: 1, view: 2, op: 2 }), pid(3), cid(), 9, &mut out);
    assert!(matches!(s, VrState::Backup(_)));
    assert!(out.is_empty());
}

#[test]
fn recovery_and_start_epoch_are_answered() {
    let mut out = Vec::new();
    let s = backup(1, 1, 4, 4).handle(VrMsg::Recovery(Recovery { epoch: 1, nonce: 77 }), pid(3), cid(), 9, &mut out);
    assert!(matches!(s, VrState::Backup(_)));
    let s = expect_backup(s).handle(VrMsg::StartEpoch(StartEpoch { epoch: 2, op: 4 }), pid(5), cid(), 9, &mut out);
    assert!(matches!(s, VrState::Backup(_)));
    assert_eq!(out.len(), 2);
    assert!(matches!(out[0], Output::RecoveryResponse { to, nonce: 77, .. } if to == pid(3)));
    assert!(matches!(out[1], Output::EpochStarted { to, .. } if to == pid(5)));
}

#[test]
fn other_messages_are_ignored() {
    let mut out = Vec::new();
    let m = PrepareOk { epoch: 1, view: 1, op: 4, from: pid(3) };
    let b = expect_backup(backup(1, 1, 4, 4).handle(VrMsg::PrepareOk(m), pid(3), cid(), 9, &mut out));
    assert_eq!(b.ctx.op, 4);
    assert_eq!(b.ctx.last_received_time, 0);
    assert!(out.is_empty());
}

#[test]
fn freshness_filter_table() {
    assert!(is_fresh(1, 1, 1, 1, Freshness::SameView));
    assert!(!is_fresh(1, 1, 1, 2, Freshness::SameView));
    assert!(!is_fresh(1, 1, 2, 1, Freshness::SameView));
    assert!(is_fresh(1, 1, 1, 2, Freshness::LaterView));
    assert!(!is_fresh(1, 1, 1, 1, Freshness::LaterView));
    assert!(!is_fresh(1, 1, 2, 2, Freshness::LaterView));
    assert!(is_fresh(1, 5, 2, 0, Freshness::LaterRound));
    assert!(is_fresh(1, 5, 1, 6, Freshness::LaterRound));
    assert!(!is_fresh(1, 5, 1, 5, Freshness::LaterRound));
    assert!(!is_fresh(1, 5, 0, 9, Freshness::LaterRound));
}

#[test]
fn primary_rotates_through_membership() {
    assert_eq!(ctx(1, 0, 0, 0).compute_primary(), pid(1));
    assert_eq!(ctx(1, 4, 0, 0).compute_primary(), pid(2));
    assert_eq!(ctx(1, 8, 0, 0).compute_primary(), pid(3));
    assert!(ctx(1, 3, 0, 0).is_primary());
    assert!(!ctx(1, 3, 0, 0).is_leaving());
}

#[test]
fn prepare_ok_message_names_current_round() {
    let b = backup(3, 7, 2, 1);
    assert_eq!(b.prepare_ok_msg(), PeerMsg::PrepareOk(PrepareOk { epoch: 3, view: 7, op: 2, from: pid(1) }));
}

#[test]
fn become_backup_adopts_announced_state() {
    let mut out = Vec::new();
    let b = expect_backup(backup(1, 1, 0, 0).become_backup(3, 2, vec![req(1), req(2)], 1, 70, &mut out));
    assert_eq!(b.ctx.view, 3);
    assert_eq!(b.ctx.op, 2);
    assert_eq!(b.ctx.commit_num, 1);
    assert_eq!(b.ctx.last_received_time, 70);
    assert_eq!(b.primary, pid(1));
    assert!(matches!(out[0], Output::NewPrimary(p) if p == pid(1)));
    assert_eq!(request_byte(&out[1]), 1);
}

#[test]
fn handle_now_stamps_clock_reading() {
    let mut out = Vec::new();
    let m = Prepare { epoch: 1, view: 1, op: 1, commit_num: 0, msg: req(1) };
    let b = expect_backup(backup(1, 1, 0, 0).handle_now(VrMsg::Prepare(m), pid(2), cid(), &mut out));
    assert_eq!(b.ctx.op, 1);
    assert!(b.ctx.last_received_time > 0);
}
