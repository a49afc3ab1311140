use atsam4l_flash::command::{FlashCommand, FlashOp, FlashStep};
use atsam4l_flash::error::FlashError;
use atsam4l_flash::geometry::{pack_word, FLASH_PAGE_SIZE, FLASH_SIZE};
use atsam4l_flash::model::{byte_of_word, SimulatedFlash};
use atsam4l_flash::plan::{check_range, plan_erase, plan_write};
use atsam4l_flash::session::{FlashSession, SessionAction};

fn erased_pages(steps: &[FlashStep]) -> Vec<u32> {
    steps
        .iter()
        .filter_map(|s| match s {
            FlashStep::ErasePage { page } => Some(*page),
            FlashStep::ProgramDoubleword { .. } => None,
        })
        .collect()
}

fn program_pages(steps: &[FlashStep]) -> Vec<u32> {
    steps
        .iter()
        .filter_map(|s| match s {
            FlashStep::ErasePage { .. } => None,
            FlashStep::ProgramDoubleword { page, .. } => Some(*page),
        })
        .collect()
}

/// Runs the session to its end against a simulated controller that is always ready.
fn drive(session: &mut FlashSession, flash: &mut SimulatedFlash) -> (Vec<FlashOp>, SessionAction) {
    let mut performed = Vec::new();
    loop {
        match session.step(true) {
            SessionAction::Perform(op) => {
                flash.apply(&op);
                performed.push(op);
            }
            other => return (performed, other),
        }
    }
}

#[test]
fn erase_sub_page_range_erases_its_page() {
    let steps = plan_erase(0x1F400, 10).unwrap();
    assert_eq!(steps, vec![FlashStep::ErasePage { page: 0x1F400 / 512 }]);
    let mut session = FlashSession::new(10);
    session.begin_erase(0x1F400, 10).unwrap();
    let mut flash = SimulatedFlash::new(0x00);
    let (ops, end) = drive(&mut session, &mut flash);
    assert_eq!(end, SessionAction::Finished);
    assert_eq!(ops, vec![FlashOp::Command { command: FlashCommand::ErasePage, page: 250 }]);
    assert!(flash.read(0x1F400, 512).iter().all(|b| *b == 0xFF));
    assert_eq!(flash.byte_at(0x1F3FF), 0x00);
    assert_eq!(flash.byte_at(0x1F600), 0x00);
}

#[test]
fn write_39_bytes_leaves_rest_of_doublewords_erased() {
    let data = [0xA4u8; 513];
    let steps = plan_write(0x48300, &data, 39).unwrap();
    assert_eq!(erased_pages(&steps), vec![0x48300 / 512]);
    assert_eq!(program_pages(&steps), vec![577; 5]);
    let mut flash = SimulatedFlash::new(0x00);
    flash.perform_steps(&steps);
    assert_eq!(flash.read(0x48300, 39), vec![0xA4; 39]);
    // the last doubleword, 0x48320..0x48328, holds one erased byte
    assert_eq!(flash.byte_at(0x48327), 0xFF);
    assert!(flash.read(0x48327, 0x48400 - 0x48327).iter().all(|b| *b == 0xFF));
    assert!(flash.read(0x48200, 0x100).iter().all(|b| *b == 0xFF));
    assert_eq!(flash.byte_at(0x481FF), 0x00);
    assert_eq!(flash.byte_at(0x48400), 0x00);
}

#[test]
fn write_500_bytes_commits_to_tracked_page() {
    let data = [0xA5u8; 500];
    let steps = plan_write(0x43800, &data, 500).unwrap();
    assert_eq!(erased_pages(&steps), vec![540]);
    assert_eq!(program_pages(&steps), vec![540; 63]);
    let mut flash = SimulatedFlash::new(0x00);
    flash.perform_steps(&steps);
    assert_eq!(flash.read(0x43800, 500), vec![0xA5; 500]);
    assert!(flash.read(0x439F4, 12).iter().all(|b| *b == 0xFF));
}

#[test]
fn write_across_page_boundary_advances_page() {
    let data: Vec<u8> = (0u8..32).collect();
    let steps = plan_write(0x439F0, &data, 32).unwrap();
    assert_eq!(erased_pages(&steps), vec![540, 541]);
    assert_eq!(program_pages(&steps), vec![540, 540, 541, 541]);
    let mut flash = SimulatedFlash::new(0x11);
    flash.perform_steps(&steps);
    assert_eq!(flash.read(0x439F0, 32), data);
    assert!(flash.read(0x43800, 0x1F0).iter().all(|b| *b == 0xFF));
    assert!(flash.read(0x43A10, 0x1F0).iter().all(|b| *b == 0xFF));
    assert_eq!(flash.byte_at(0x437FF), 0x11);
    assert_eq!(flash.byte_at(0x43C00), 0x11);
}

#[test]
fn full_page_write_erases_exactly_one_page() {
    let data = [0x3Cu8; 512];
    let steps = plan_write(0x400, &data, 512).unwrap();
    assert_eq!(erased_pages(&steps), vec![2]);
    assert_eq!(program_pages(&steps), vec![2; 64]);
    let erase = plan_erase(0x400, 512).unwrap();
    assert_eq!(erase, vec![FlashStep::ErasePage { page: 2 }]);
}

#[test]
fn range_inside_one_page_erases_once() {
    assert_eq!(plan_erase(0x1F5FF, 1).unwrap(), vec![FlashStep::ErasePage { page: 250 }]);
    let steps = plan_write(0x1F401, &[1, 2, 3], 3).unwrap();
    assert_eq!(erased_pages(&steps), vec![250]);
}

#[test]
fn erase_spanning_pages_erases_each_in_order() {
    let steps = plan_erase(0x3FF, 2).unwrap();
    assert_eq!(steps, vec![FlashStep::ErasePage { page: 1 }, FlashStep::ErasePage { page: 2 }]);
}

#[test]
fn erase_whole_page_reads_erased() {
    let mut flash = SimulatedFlash::new(0x00);
    flash.perform_steps(&plan_erase(0x7FE00, 512).unwrap());
    assert!(flash.read(0x7FE00, 512).iter().all(|b| *b == 0xFF));
    assert_eq!(flash.byte_at(0x7FDFF), 0x00);
}

#[test]
fn write_in_page_reads_back() {
    let data: Vec<u8> = (0..100u32).map(|i| (i * 7) as u8).collect();
    let mut flash = SimulatedFlash::new(0x42);
    flash.perform_steps(&plan_write(0x1000, &data, 100).unwrap());
    assert_eq!(flash.read(0x1000, 100), data);
    assert!(flash.read(0x1064, 512 - 100).iter().all(|b| *b == 0xFF));
}

#[test]
fn erase_twice_equals_erase_once() {
    let steps = plan_erase(0x2010, 1000).unwrap();
    let mut once = SimulatedFlash::new(0x5A);
    once.perform_steps(&steps);
    let mut twice = SimulatedFlash::new(0x5A);
    twice.perform_steps(&steps);
    twice.perform_steps(&steps);
    assert_eq!(once.read(0, FLASH_SIZE), twice.read(0, FLASH_SIZE));
}

#[test]
fn unaligned_write_stages_erased_bytes() {
    let data = [1u8, 2, 3, 4, 5, 6, 7, 8, 9, 10];
    let steps = plan_write(0x1003, &data, 10).unwrap();
    assert_eq!(
        steps,
        vec![
            FlashStep::ErasePage { page: 8 },
            FlashStep::ProgramDoubleword { page: 8, address: 0x1000, low: 0x01FF_FFFF, high: 0x0504_0302 },
            FlashStep::ProgramDoubleword { page: 8, address: 0x1008, low: 0x0908_0706, high: 0xFFFF_FF0A },
        ]
    );
}

#[test]
fn invalid_ranges_are_refused() {
    assert_eq!(plan_erase(0x100, 0), Err(FlashError::InvalidRange));
    assert_eq!(plan_erase(FLASH_SIZE - 4, 5), Err(FlashError::InvalidRange));
    assert_eq!(plan_write(FLASH_SIZE, &[1], 1), Err(FlashError::InvalidRange));
    assert_eq!(plan_write(0x100, &[1], 0), Err(FlashError::InvalidRange));
    assert_eq!(check_range(FLASH_SIZE - 8, 8), Ok(()));
    assert_eq!(check_range(u32::MAX, 2), Err(FlashError::InvalidRange));
    let mut session = FlashSession::new(1);
    assert_eq!(session.begin_erase(0, 0), Err(FlashError::InvalidRange));
    assert!(!session.is_busy());
}

#[test]
fn last_page_can_be_written() {
    let data = [0x77u8; 8];
    let steps = plan_write(FLASH_SIZE - 8, &data, 8).unwrap();
    assert_eq!(erased_pages(&steps), vec![1023]);
    let mut flash = SimulatedFlash::new(0);
    flash.perform_steps(&steps);
    assert_eq!(flash.read(FLASH_SIZE - 8, 8), vec![0x77; 8]);
}

#[test]
fn second_request_while_in_flight_is_busy() {
    let mut session = FlashSession::new(3);
    session.begin_erase(0, 512).unwrap();
    assert!(session.is_busy());
    assert_eq!(session.begin_write(0, &[1], 1), Err(FlashError::Busy));
    assert!(matches!(session.step(true), SessionAction::Perform(_)));
    // the erase command is in flight until the controller reports ready
    assert_eq!(session.begin_erase(0, 512), Err(FlashError::Busy));
    assert_eq!(session.step(true), SessionAction::Finished);
    assert!(!session.is_busy());
    assert_eq!(session.begin_erase(512, 512), Ok(()));
}

#[test]
fn stuck_controller_times_out() {
    let mut session = FlashSession::new(2);
    session.begin_erase(0, 1).unwrap();
    assert_eq!(
        session.step(false),
        SessionAction::Perform(FlashOp::Command { command: FlashCommand::ErasePage, page: 0 })
    );
    assert_eq!(session.step(false), SessionAction::AwaitReady);
    assert_eq!(session.step(false), SessionAction::AwaitReady);
    assert_eq!(session.step(false), SessionAction::TimedOut);
    assert_eq!(session.step(true), SessionAction::TimedOut);
    assert!(!session.is_busy());
    assert_eq!(session.begin_erase(0, 1), Ok(()));
}

#[test]
fn session_waits_for_ready_between_commands() {
    let mut session = FlashSession::new(5);
    session.begin_write(0x10, &[9, 8, 7, 6, 5, 4, 3, 2], 8).unwrap();
    let mut actions = Vec::new();
    // the controller reports busy once after each command
    let mut busy_once = false;
    loop {
        let a = session.step(!busy_once);
        busy_once = false;
        match a {
            SessionAction::Perform(op) => {
                busy_once = matches!(op, FlashOp::Command { .. });
                actions.push(a);
            }
            SessionAction::AwaitReady => actions.push(a),
            _ => {
                assert_eq!(a, SessionAction::Finished);
                break;
            }
        }
    }
    let cmd = |command, page| SessionAction::Perform(FlashOp::Command { command, page });
    assert_eq!(
        actions,
        vec![
            cmd(FlashCommand::ErasePage, 0),
            SessionAction::AwaitReady,
            cmd(FlashCommand::ClearPageBuffer, 0),
            SessionAction::AwaitReady,
            SessionAction::Perform(FlashOp::StoreWord { address: 0x10, value: 0x0607_0809 }),
            SessionAction::Perform(FlashOp::StoreWord { address: 0x14, value: 0x0203_0405 }),
            cmd(FlashCommand::WritePage, 0),
            SessionAction::AwaitReady,
        ]
    );
}

#[test]
fn session_run_matches_planned_effect() {
    let data: Vec<u8> = (0..700u32).map(|i| (i % 251) as u8).collect();
    let mut session = FlashSession::new(0);
    session.begin_write(0x20305, &data, 700).unwrap();
    let mut driven = SimulatedFlash::new(0xC3);
    let (_, end) = drive(&mut session, &mut driven);
    assert_eq!(end, SessionAction::Finished);
    let mut planned = SimulatedFlash::new(0xC3);
    planned.perform_steps(&plan_write(0x20305, &data, 700).unwrap());
    assert_eq!(driven.read(0, FLASH_SIZE), planned.read(0, FLASH_SIZE));
    assert_eq!(driven.read(0x20305, 700), data);
}

#[test]
fn ill_formed_steps_are_refused() {
    let mut session = FlashSession::new(1);
    assert_eq!(session.begin(vec![FlashStep::ErasePage { page: 1024 }]), Err(FlashError::InvalidRange));
    let bad = FlashStep::ProgramDoubleword { page: 3, address: 0x200, low: 0, high: 0 };
    assert!(!bad.is_well_formed());
    assert_eq!(session.begin(vec![bad]), Err(FlashError::InvalidRange));
    assert_eq!(session.begin(vec![FlashStep::ErasePage { page: 1023 }]), Ok(()));
}

#[test]
fn words_pack_little_endian() {
    assert_eq!(pack_word(0x01, 0x02, 0x03, 0x04), 0x0403_0201);
    assert_eq!(byte_of_word(0x0403_0201, 0), 0x01);
    assert_eq!(byte_of_word(0x0403_0201, 3), 0x04);
    assert_eq!(FLASH_PAGE_SIZE, 512);
}

#[test]
fn command_codes_match_controller() {
    assert_eq!(FlashCommand::WritePage.code(), 1);
    assert_eq!(FlashCommand::ErasePage.code(), 2);
    assert_eq!(FlashCommand::ClearPageBuffer.code(), 3);
    let step = FlashStep::ProgramDoubleword { page: 1, address: 0x208, low: 5, high: 6 };
    assert_eq!(step.op_count(), 4);
    assert_eq!(step.op_at(2), FlashOp::StoreWord { address: 0x20C, value: 6 });
    assert!(FlashOp::Command { command: FlashCommand::ClearPageBuffer, page: 0 }.needs_ready());
    assert!(!FlashOp::StoreWord { address: 0, value: 0 }.needs_ready());
}
