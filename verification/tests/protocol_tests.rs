use inky_el133::buffer::PixelBuffer;
use inky_el133::color::RED;
use inky_el133::protocol::{
    plan_commit_frame, plan_initialize, plan_reset, plan_send_command, plan_show, wait_busy_plan,
    wait_busy_poll, BusOp, ChipSelect, Line, PollVerdict, ProtocolStep, WaitPlan, CMD_AGID,
    CMD_ANTM, CMD_CCSET, CMD_CDI, CMD_CMD66, CMD_DRF, CMD_DTM, CMD_PLL, CMD_POF, CMD_PON,
    CMD_PSR, CMD_PWS, CMD_TCON, CMD_TFT_VCOM_POWER, CMD_TRES, COMMAND_SETTLE_MS, INIT_BUSY_MS,
    POLL_INTERVAL_MS, POWER_BUSY_MS, REFRESH_BUSY_MS, RESET_SETTLE_MS,
};
use inky_el133::{HEIGHT, WIDTH};

#[test]
fn reset_plan_pulses_the_reset_line() {
    assert_eq!(
        plan_reset(),
        vec![
            BusOp::SetLine(Line::Reset, false),
            BusOp::SleepMs(RESET_SETTLE_MS),
            BusOp::SetLine(Line::Reset, true),
            BusOp::SleepMs(RESET_SETTLE_MS),
        ]
    );
}

#[test]
fn send_command_without_payload_skips_the_data_phase() {
    let ops = plan_send_command(ChipSelect::CS0, CMD_PON, &[]);
    assert_eq!(
        ops,
        vec![
            BusOp::SetLine(Line::Cs0, false),
            BusOp::SetLine(Line::Dc, false),
            BusOp::SleepMs(COMMAND_SETTLE_MS),
            BusOp::Write(vec![CMD_PON]),
            BusOp::SetLine(Line::Cs0, true),
            BusOp::SetLine(Line::Cs1, true),
            BusOp::SetLine(Line::Dc, false),
        ]
    );
}

#[test]
fn send_command_to_both_chips_asserts_both_selects() {
    let ops = plan_send_command(ChipSelect::Both, CMD_PSR, &[0xDF, 0x69]);
    assert_eq!(
        ops,
        vec![
            BusOp::SetLine(Line::Cs0, false),
            BusOp::SetLine(Line::Cs1, false),
            BusOp::SetLine(Line::Dc, false),
            BusOp::SleepMs(COMMAND_SETTLE_MS),
            BusOp::Write(vec![CMD_PSR]),
            BusOp::SetLine(Line::Dc, true),
            BusOp::Write(vec![0xDF, 0x69]),
            BusOp::SetLine(Line::Cs0, true),
            BusOp::SetLine(Line::Cs1, true),
            BusOp::SetLine(Line::Dc, false),
        ]
    );
}

#[test]
fn long_payload_is_written_in_chunks_that_concatenate_to_the_payload() {
    let payload: Vec<u8> = (0..5000u32).map(|i| (i % 251) as u8).collect();
    let ops = plan_send_command(ChipSelect::CS1, CMD_DTM, &payload);
    // Select, command phase, settle, command byte, data phase, two chunks,
    // then the three unconditional deasserts.
    assert_eq!(ops.len(), 10);
    assert_eq!(ops[0], BusOp::SetLine(Line::Cs1, false));
    assert_eq!(ops[4], BusOp::SetLine(Line::Dc, true));
    let (first, second) = match (&ops[5], &ops[6]) {
        (BusOp::Write(a), BusOp::Write(b)) => (a.clone(), b.clone()),
        other => panic!("expected two chunk writes, got {:?}", other),
    };
    assert_eq!(first.len(), 4096);
    assert_eq!(second.len(), 904);
    let mut joined = first;
    joined.extend_from_slice(&second);
    assert_eq!(joined, payload);
}

#[test]
fn payload_of_exactly_one_chunk_is_a_single_write() {
    let payload: Vec<u8> = vec![0xAA; 4096];
    let ops = plan_send_command(ChipSelect::CS0, CMD_DTM, &payload);
    assert_eq!(ops.len(), 9);
    assert_eq!(ops[5], BusOp::Write(payload));
    assert_eq!(ops[6], BusOp::SetLine(Line::Cs0, true));
}

#[test]
fn payload_one_past_the_chunk_size_splits_off_one_byte() {
    let payload: Vec<u8> = vec![0x55; 4097];
    let ops = plan_send_command(ChipSelect::CS0, CMD_DTM, &payload);
    assert_eq!(ops.len(), 10);
    assert_eq!(ops[5], BusOp::Write(vec![0x55; 4096]));
    assert_eq!(ops[6], BusOp::Write(vec![0x55]));
}

#[test]
fn wait_not_ready_at_entry_sleeps_the_full_budget_without_polling() {
    assert_eq!(
        wait_busy_plan(false, 32000),
        WaitPlan::SleepFull { duration_ms: 32000 }
    );
    assert_eq!(
        wait_busy_plan(false, 200),
        WaitPlan::SleepFull { duration_ms: 200 }
    );
}

#[test]
fn wait_ready_at_entry_polls_at_the_fixed_interval() {
    assert_eq!(
        wait_busy_plan(true, 200),
        WaitPlan::Poll { interval_ms: POLL_INTERVAL_MS, timeout_ms: 200 }
    );
}

#[test]
fn poll_verdicts_follow_the_line_and_the_elapsed_time() {
    assert_eq!(wait_busy_poll(true, 0, 200), PollVerdict::Done);
    assert_eq!(wait_busy_poll(true, 9999, 200), PollVerdict::Done);
    assert_eq!(wait_busy_poll(false, 201, 200), PollVerdict::TimedOut);
    assert_eq!(
        wait_busy_poll(false, 200, 200),
        PollVerdict::SleepAndRetry { sleep_ms: POLL_INTERVAL_MS }
    );
}

#[test]
fn initialization_table_is_issued_in_the_vendor_order() {
    let steps = plan_initialize();
    assert_eq!(steps.len(), 18);
    assert_eq!(steps[0], ProtocolStep::WaitBusy(INIT_BUSY_MS));
    assert_eq!(
        steps[1],
        ProtocolStep::Send(
            ChipSelect::CS0,
            CMD_ANTM,
            vec![0xC0, 0x1C, 0x1C, 0xCC, 0xCC, 0xCC, 0x15, 0x15, 0x55]
        )
    );
    assert_eq!(
        steps[2],
        ProtocolStep::Send(ChipSelect::Both, CMD_CMD66, vec![0x49, 0x55, 0x13, 0x5D, 0x05, 0x10])
    );
    assert_eq!(steps[3], ProtocolStep::Send(ChipSelect::Both, CMD_PSR, vec![0xDF, 0x69]));
    assert_eq!(steps[4], ProtocolStep::Send(ChipSelect::Both, CMD_PLL, vec![0x08]));
    assert_eq!(steps[5], ProtocolStep::Send(ChipSelect::Both, CMD_CDI, vec![0xF7]));
    assert_eq!(steps[6], ProtocolStep::Send(ChipSelect::Both, CMD_TCON, vec![0x03, 0x03]));
    assert_eq!(steps[7], ProtocolStep::Send(ChipSelect::Both, CMD_AGID, vec![0x10]));
    assert_eq!(steps[8], ProtocolStep::Send(ChipSelect::Both, CMD_PWS, vec![0x22]));
    assert_eq!(steps[9], ProtocolStep::Send(ChipSelect::Both, CMD_CCSET, vec![0x01]));
    assert_eq!(
        steps[10],
        ProtocolStep::Send(ChipSelect::Both, CMD_TRES, vec![0x04, 0xB0, 0x03, 0x20])
    );
    // The power block goes to controller 0 alone, ending with TFT VCOM power.
    for step in &steps[11..] {
        match step {
            ProtocolStep::Send(cs, _, _) => assert_eq!(*cs, ChipSelect::CS0),
            other => panic!("expected a send, got {:?}", other),
        }
    }
    assert_eq!(
        steps[17],
        ProtocolStep::Send(ChipSelect::CS0, CMD_TFT_VCOM_POWER, vec![0x02])
    );
}

#[test]
fn commit_of_a_red_fill_sends_uniform_payloads_in_the_exact_order() {
    let mut buf = PixelBuffer::new(WIDTH, HEIGHT);
    buf.fill(RED).unwrap();
    let steps = plan_show(&buf);
    assert_eq!(steps.len(), 8);
    match &steps[0] {
        ProtocolStep::Send(cs, cmd, payload) => {
            assert_eq!(*cs, ChipSelect::CS0);
            assert_eq!(*cmd, CMD_DTM);
            assert_eq!(payload.len(), WIDTH * 600 / 2);
            assert!(payload.iter().all(|&byte| byte == 0x33));
        }
        other => panic!("expected data transmission to controller 0, got {:?}", other),
    }
    match &steps[1] {
        ProtocolStep::Send(cs, cmd, payload) => {
            assert_eq!(*cs, ChipSelect::CS1);
            assert_eq!(*cmd, CMD_DTM);
            assert_eq!(payload.len(), WIDTH * (HEIGHT - 600) / 2);
            assert!(payload.iter().all(|&byte| byte == 0x33));
        }
        other => panic!("expected data transmission to controller 1, got {:?}", other),
    }
    assert_eq!(steps[2], ProtocolStep::Send(ChipSelect::Both, CMD_PON, vec![]));
    assert_eq!(steps[3], ProtocolStep::WaitBusy(POWER_BUSY_MS));
    assert_eq!(steps[4], ProtocolStep::Send(ChipSelect::Both, CMD_DRF, vec![0x00]));
    assert_eq!(steps[5], ProtocolStep::WaitBusy(REFRESH_BUSY_MS));
    assert_eq!(steps[6], ProtocolStep::Send(ChipSelect::Both, CMD_POF, vec![0x00]));
    assert_eq!(steps[7], ProtocolStep::WaitBusy(POWER_BUSY_MS));
}

#[test]
fn commit_frame_keeps_the_payloads_it_is_given() {
    let steps = plan_commit_frame(vec![1, 2, 3], vec![4, 5]);
    assert_eq!(steps[0], ProtocolStep::Send(ChipSelect::CS0, CMD_DTM, vec![1, 2, 3]));
    assert_eq!(steps[1], ProtocolStep::Send(ChipSelect::CS1, CMD_DTM, vec![4, 5]));
}
