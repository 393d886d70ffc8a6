//! End-to-end runs of the executor, the completion queue, and the
//! lane/stream primitives.

use hel::{
    create_stream, sleep_for, sleep_until, submit_async, Error, Executor, LaneAction, Operation,
    Script, ScriptStep, TargetSel, TaskFuture, TaskRef, Time,
};

fn new_exec() -> Executor<Script> {
    Executor::new().expect("executor creation must succeed")
}

#[test]
fn spawned_tasks_run_in_fifo_order() {
    let mut exec = new_exec();
    let (xa, y) = create_stream(exec.inner(), false).unwrap();
    let xb = xa.clone_handle(exec.inner().kernel_mut()).unwrap();

    let task_a = Script::new(vec![ScriptStep::Submit {
        target: TargetSel::Fixed { handle: xa },
        op: Operation::Batch {
            actions: vec![LaneAction::SendBuffer { data: b"a".to_vec() }],
        },
    }]);
    let task_b = Script::new(vec![ScriptStep::Submit {
        target: TargetSel::Fixed { handle: xb },
        op: Operation::Batch {
            actions: vec![LaneAction::SendBuffer { data: b"b".to_vec() }],
        },
    }]);

    exec.spawn(task_a);
    exec.spawn(task_b);

    // both tasks submit on their first poll, in spawn order, and suspend
    assert!(!exec.run_once());
    // a task that reported "not ready" is not polled again until woken
    assert!(!exec.run_once());

    exec.wait().unwrap();
    exec.wait().unwrap();
    assert!(exec.run_once());
    assert!(exec.run_once());

    // the peer end sees the sends in the order the tasks were polled
    let mut recv1 = submit_async(
        exec.inner(),
        &y,
        Operation::Batch { actions: vec![LaneAction::ReceiveInline] },
    )
    .unwrap();
    let mut el1 = exec.block_on(&mut recv1).unwrap();
    assert_eq!(el1.take_bytes(0).unwrap(), b"a".to_vec());

    let mut recv2 = submit_async(
        exec.inner(),
        &y,
        Operation::Batch { actions: vec![LaneAction::ReceiveInline] },
    )
    .unwrap();
    let mut el2 = exec.block_on(&mut recv2).unwrap();
    assert_eq!(el2.take_bytes(0).unwrap(), b"b".to_vec());
}

#[test]
fn one_wait_resolves_exactly_one_operation() {
    let mut exec = new_exec();
    let mut fut = sleep_for(exec.inner(), 0).unwrap();

    // exactly one wait resolves the one submitted operation
    exec.wait().unwrap();
    // a second wait has nothing left to resolve
    assert_eq!(exec.wait(), Err(Error::WouldBlockForever));
    assert_eq!(exec.wait(), Err(Error::WouldBlockForever));

    match fut.poll(exec.inner(), TaskRef::Main) {
        hel::Poll::Ready(el) => {
            assert_eq!(el.context(), fut.token());
            assert_eq!(el.part_count(), 1);
            assert!(el.check_done(0).is_ok());
        }
        hel::Poll::Pending => panic!("the completion must already be there"),
    }
}

#[test]
fn block_on_returns_final_value_and_stops_polling() {
    let mut exec = new_exec();

    // a task that stays suspended: a receive on a lane nobody sends on
    let (quiet, _peer) = create_stream(exec.inner(), false).unwrap();
    let parked = Script::new(vec![ScriptStep::Submit {
        target: TargetSel::Fixed { handle: quiet },
        op: Operation::Batch { actions: vec![LaneAction::ReceiveInline] },
    }]);
    exec.spawn(parked);
    assert!(!exec.run_once());

    let mut fut = sleep_for(exec.inner(), 0).unwrap();
    let el = exec.block_on(&mut fut).unwrap();
    assert_eq!(el.part_count(), 1);

    // block_on returned even though the parked task remains suspended,
    // and nothing re-enqueued that task
    assert!(!exec.run_once());
}

#[test]
fn stream_roundtrip_push_then_pull() {
    let mut exec = new_exec();
    let (s1a, s1b) = create_stream(exec.inner(), false).unwrap();
    let (s2a, s2b) = create_stream(exec.inner(), false).unwrap();

    // push one end of the second stream across the first stream
    let mut push = submit_async(
        exec.inner(),
        &s1a,
        Operation::Batch {
            actions: vec![LaneAction::PushDescriptor { handle: s2a }],
        },
    )
    .unwrap();
    let push_el = exec.block_on(&mut push).unwrap();
    assert!(push_el.check_done(0).is_ok());

    let mut pull = submit_async(
        exec.inner(),
        &s1b,
        Operation::Batch { actions: vec![LaneAction::PullDescriptor] },
    )
    .unwrap();
    let mut pull_el = exec.block_on(&mut pull).unwrap();
    let pulled = pull_el.take_descriptor(0).unwrap();

    // the pulled handle references the very lane that was pushed: bytes
    // sent through it arrive at the second stream's other end
    let mut send = submit_async(
        exec.inner(),
        &pulled,
        Operation::Batch {
            actions: vec![LaneAction::SendBuffer { data: b"ping".to_vec() }],
        },
    )
    .unwrap();
    exec.block_on(&mut send).unwrap();

    let mut recv = submit_async(
        exec.inner(),
        &s2b,
        Operation::Batch { actions: vec![LaneAction::ReceiveInline] },
    )
    .unwrap();
    let mut recv_el = exec.block_on(&mut recv).unwrap();
    assert_eq!(recv_el.take_bytes(0).unwrap(), b"ping".to_vec());
}

#[test]
fn waking_a_departed_task_is_a_harmless_no_op() {
    let mut exec = new_exec();
    let quick = Script::new(vec![]);
    exec.spawn(quick);
    // the task completes and its slot is torn down
    assert!(exec.run_once());
    // waking its stale reference neither panics nor schedules anything
    exec.wake(TaskRef::Spawned { index: 0 });
    assert!(!exec.run_once());
    // same for a reference that never existed
    exec.wake(TaskRef::Spawned { index: 17 });
    assert!(!exec.run_once());
}

#[test]
fn offer_with_inline_send_reaches_accept_byte_for_byte() {
    let mut exec = new_exec();
    let (local, remote) = create_stream(exec.inner(), false).unwrap();
    let payload = vec![0x68u8, 0x65, 0x6c, 0x6c, 0x6f, 0x00, 0x2a];

    // the responder accepts the conversation, receives the inline bytes,
    // and echoes them back over the conversation lane
    let acceptor = Script::new(vec![
        ScriptStep::Submit {
            target: TargetSel::Fixed { handle: remote },
            op: Operation::Accept { actions: vec![LaneAction::ReceiveInline] },
        },
        ScriptStep::Echo {
            data_step: 0,
            data_part: 1,
            target: TargetSel::FromPart { step: 0, part: 0 },
        },
    ]);
    exec.spawn(acceptor);

    let mut offerer = Script::new(vec![ScriptStep::Submit {
        target: TargetSel::Fixed { handle: local },
        op: Operation::Offer {
            with_lane: true,
            actions: vec![
                LaneAction::SendBuffer { data: payload.clone() },
                LaneAction::ReceiveInline,
            ],
        },
    }]);
    exec.block_on(&mut offerer).unwrap();
    assert!(!offerer.failed());

    let el = &offerer.results()[0];
    // part 1 is the send, part 2 the inline reply: the same bytes came back
    assert!(el.check_done(1).is_ok());
    assert_eq!(el.bytes_ref(2).expect("an echo must have arrived"), &payload);
}

#[test]
fn zero_length_sleep_resolves_without_deadlock() {
    let mut exec = new_exec();
    // nothing else is pending: the sleep alone must drive the loop
    let mut fut = sleep_for(exec.inner(), 0).unwrap();
    let el = exec.block_on(&mut fut).unwrap();
    assert!(el.check_done(0).is_ok());
}

#[test]
fn timed_sleep_advances_the_clock_to_its_deadline() {
    let mut exec = new_exec();
    let start = exec.inner().now();
    let deadline = Time::from_nanos(start.nanos() + 2_000);
    let mut fut = sleep_until(exec.inner(), deadline).unwrap();
    let el = exec.block_on(&mut fut).unwrap();
    assert!(el.check_done(0).is_ok());
    assert_eq!(exec.inner().now().nanos(), deadline.nanos());
}

#[test]
fn independent_tasks_resume_on_their_own_completions() {
    let mut exec = new_exec();
    let (l1, r1) = create_stream(exec.inner(), false).unwrap();
    let (l2, r2) = create_stream(exec.inner(), false).unwrap();

    let echo1 = Script::new(vec![
        ScriptStep::Submit {
            target: TargetSel::Fixed { handle: r1 },
            op: Operation::Accept { actions: vec![LaneAction::ReceiveInline] },
        },
        ScriptStep::Echo {
            data_step: 0,
            data_part: 1,
            target: TargetSel::FromPart { step: 0, part: 0 },
        },
    ]);
    let echo2 = Script::new(vec![
        ScriptStep::Submit {
            target: TargetSel::Fixed { handle: r2 },
            op: Operation::Accept { actions: vec![LaneAction::ReceiveInline] },
        },
        ScriptStep::Echo {
            data_step: 0,
            data_part: 1,
            target: TargetSel::FromPart { step: 0, part: 0 },
        },
    ]);
    exec.spawn(echo1);
    exec.spawn(echo2);

    let mut main = Script::new(vec![
        ScriptStep::Submit {
            target: TargetSel::Fixed { handle: l2 },
            op: Operation::Offer {
                with_lane: true,
                actions: vec![
                    LaneAction::SendBuffer { data: b"two".to_vec() },
                    LaneAction::ReceiveInline,
                ],
            },
        },
        ScriptStep::Submit {
            target: TargetSel::Fixed { handle: l1 },
            op: Operation::Offer {
                with_lane: true,
                actions: vec![
                    LaneAction::SendBuffer { data: b"one".to_vec() },
                    LaneAction::ReceiveInline,
                ],
            },
        },
    ]);
    exec.block_on(&mut main).unwrap();
    assert!(!main.failed());

    // each conversation got exactly its own bytes back
    assert_eq!(main.results()[0].bytes_ref(2).unwrap(), &b"two".to_vec());
    assert_eq!(main.results()[1].bytes_ref(2).unwrap(), &b"one".to_vec());
}

#[test]
fn submission_against_the_wrong_kind_of_handle_is_rejected() {
    let mut exec = new_exec();
    let (_a, b) = create_stream(exec.inner(), false).unwrap();

    // a sleep must target the queue, not a lane
    let sleep_err = submit_async(exec.inner(), &b, Operation::Sleep { deadline: 0 });
    assert_eq!(sleep_err.err(), Some(Error::InvalidHandle));

    // a lane operation must target a lane, not the queue
    let qh = exec.inner().clone_queue_handle().unwrap();
    let recv_err = submit_async(
        exec.inner(),
        &qh,
        Operation::Batch { actions: vec![LaneAction::ReceiveInline] },
    );
    assert_eq!(recv_err.err(), Some(Error::InvalidHandle));
}

#[test]
fn oversized_message_fails_the_receive_with_truncation() {
    let mut exec = new_exec();
    let (a, b) = create_stream(exec.inner(), false).unwrap();

    let mut send = submit_async(
        exec.inner(),
        &a,
        Operation::Batch {
            actions: vec![LaneAction::SendBuffer { data: b"abcdef".to_vec() }],
        },
    )
    .unwrap();
    exec.block_on(&mut send).unwrap();

    let mut recv = submit_async(
        exec.inner(),
        &b,
        Operation::Batch {
            actions: vec![LaneAction::ReceiveBuffer { max_len: 3 }],
        },
    )
    .unwrap();
    let mut el = exec.block_on(&mut recv).unwrap();
    match el.take_bytes(0) {
        Err(Error::OperationFailed { code }) => assert_eq!(code, hel::kernel::CODE_TRUNCATED),
        other => panic!("expected a truncation failure, got {:?}", other),
    }
}

#[test]
fn cloned_handles_reach_the_same_object() {
    let mut exec = new_exec();
    let (a, b) = create_stream(exec.inner(), false).unwrap();
    let a2 = a.clone_handle(exec.inner().kernel_mut()).unwrap();
    assert_ne!(a.raw(), a2.raw());

    let mut send = submit_async(
        exec.inner(),
        &a2,
        Operation::Batch {
            actions: vec![LaneAction::SendBuffer { data: b"via clone".to_vec() }],
        },
    )
    .unwrap();
    exec.block_on(&mut send).unwrap();

    let mut recv = submit_async(
        exec.inner(),
        &b,
        Operation::Batch { actions: vec![LaneAction::ReceiveInline] },
    )
    .unwrap();
    let mut el = exec.block_on(&mut recv).unwrap();
    assert_eq!(el.take_bytes(0).unwrap(), b"via clone".to_vec());
}

#[test]
fn device_conversation_fetches_a_property() {
    let mut exec = new_exec();
    let (driver_end, server_end) = create_stream(exec.inner(), false).unwrap();
    let device = hel::hw::device::Device::new(driver_end);

    // the device server's reply: a head whose preamble announces the
    // tail, and a tail carrying one NUL-terminated property string
    let tail = b"apple,asc-mailbox-v4\0".to_vec();
    let mut reply_head = vec![7, 0, 0, 0];
    reply_head.extend_from_slice(&(tail.len() as u32).to_le_bytes());

    let server = Script::new(vec![
        ScriptStep::Submit {
            target: TargetSel::Fixed { handle: server_end },
            op: Operation::Accept { actions: vec![LaneAction::ReceiveInline] },
        },
        ScriptStep::Submit {
            target: TargetSel::FromPart { step: 0, part: 0 },
            op: Operation::Batch {
                actions: vec![
                    LaneAction::SendBuffer { data: reply_head.clone() },
                    LaneAction::SendBuffer { data: tail.clone() },
                ],
            },
        },
    ]);
    exec.spawn(server);

    let mut conv = device
        .get_dt_property(exec.inner(), b"compatible".to_vec())
        .unwrap();
    exec.block_on(&mut conv).unwrap();
    assert!(!conv.failed());

    // the offer element: conversation lane, the send, and the reply head
    let head_bytes = conv.results()[0].bytes_ref(2).unwrap();
    let (id, tail_size) = hel::hw::device::reply_preamble(head_bytes).unwrap();
    assert_eq!(id, 7);
    assert_eq!(tail_size as usize, tail.len());

    // the follow-up element carries the property payload
    let tail_bytes = conv.results()[1].bytes_ref(0).unwrap();
    let prop = hel::hw::device::DtProperty::from_bytes(tail_bytes);
    assert_eq!(prop.get_str(0), Some("apple,asc-mailbox-v4"));
}

#[test]
fn serving_a_remote_lane_hands_it_to_the_bus() {
    let mut exec = new_exec();
    let (mgmt_local, mgmt_bus) = create_stream(exec.inner(), false).unwrap();
    let (served_local, served_remote) = create_stream(exec.inner(), false).unwrap();

    let manager = hel::mbus::entity::EntityManager::new(
        hel::mbus::entity::Entity::from_id(3),
        mgmt_local,
    );

    // the bus side: accept the conversation, read the request head, pull
    // the served lane and acknowledge
    let bus = Script::new(vec![
        ScriptStep::Submit {
            target: TargetSel::Fixed { handle: mgmt_bus },
            op: Operation::Accept { actions: vec![LaneAction::ReceiveInline] },
        },
        ScriptStep::Submit {
            target: TargetSel::FromPart { step: 0, part: 0 },
            op: Operation::Batch { actions: vec![LaneAction::PullDescriptor] },
        },
        ScriptStep::Echo {
            data_step: 0,
            data_part: 1,
            target: TargetSel::FromPart { step: 0, part: 0 },
        },
    ]);
    exec.spawn(bus);

    let mut serve = manager
        .serve_remote_lane(exec.inner(), served_remote, b"serve".to_vec())
        .unwrap();
    exec.block_on(&mut serve).unwrap();
    assert!(!serve.failed());
    // the acknowledgement echoes the request head
    assert_eq!(serve.results()[2].bytes_ref(0).unwrap(), &b"serve".to_vec());

    // the lane the bus pulled is the served stream's remote end: bytes
    // sent on the local end would now reach the bus's peer; keep both
    // ends alive to show the transfer succeeded
    let _ = served_local;
}

#[test]
fn message_at_a_parked_accept_fails_the_accept() {
    let mut exec = new_exec();
    let (a, b) = create_stream(exec.inner(), false).unwrap();

    let mut acceptor = Script::new(vec![ScriptStep::Submit {
        target: TargetSel::Fixed { handle: b },
        op: Operation::Accept { actions: vec![LaneAction::ReceiveInline] },
    }]);
    // park the accept
    exec.spawn(Script::new(vec![]));
    assert!(exec.run_once());
    match acceptor.poll(exec.inner(), TaskRef::Main) {
        hel::Poll::Pending => {}
        hel::Poll::Ready(_) => panic!("nothing was offered yet"),
    }

    // a plain message arrives where a conversation was awaited
    let mut send = submit_async(
        exec.inner(),
        &a,
        Operation::Batch {
            actions: vec![LaneAction::SendBuffer { data: b"oops".to_vec() }],
        },
    )
    .unwrap();
    // driving the send to completion also retrieves the failed accept's
    // completion, since the accept's waiter was registered first
    exec.block_on(&mut send).unwrap();

    match acceptor.poll(exec.inner(), TaskRef::Main) {
        hel::Poll::Ready(()) => {}
        hel::Poll::Pending => panic!("the failed accept must have completed"),
    }
    let mut els = acceptor.into_results();
    match els[0].take_lane(0) {
        Err(Error::OperationFailed { code }) => {
            assert_eq!(code, hel::kernel::CODE_SHAPE_MISMATCH)
        }
        other => panic!("expected a shape mismatch, got {:?}", other),
    }
}

#[test]
fn a_wait_that_could_never_finish_is_fatal_to_the_run_loop() {
    let mut exec = new_exec();
    let (quiet, _peer) = create_stream(exec.inner(), false).unwrap();
    let mut stuck = Script::new(vec![ScriptStep::Submit {
        target: TargetSel::Fixed { handle: quiet },
        op: Operation::Batch { actions: vec![LaneAction::ReceiveInline] },
    }]);
    // nothing will ever send on the lane and nothing else is in flight
    assert_eq!(exec.block_on(&mut stuck), Err(Error::WouldBlockForever));
}
