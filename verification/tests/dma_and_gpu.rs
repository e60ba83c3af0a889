use rspsx::console::dma::{Blocks, Chunks, Direction, Step, Transfer};
use rspsx::console::handle_dma::{linked_list_packet, step_address, undo_step_address, DmaPlan};
use rspsx::console::Console;
use rspsx::console::dma::DMAChannel;
use rspsx::console::gpu::GPU;
use rspsx::gpu::command::Command;

#[test]
fn ordering_table_links_backwards() {
    let t = Transfer::new(6, 0x0010_000c, Chunks::NumWords(3), Direction::ToRAM, Step::Backward, 0);
    match Console::plan_dma(&t) {
        DmaPlan::WriteRam(writes) => {
            assert_eq!(writes, vec![(0x0010_000c, 0x0010_0008), (0x0010_0008, 0x0010_0004), (0x0010_0004, 0x00ff_ffff)]);
        },
        _ => panic!("expected RAM writes"),
    }
}

#[test]
fn read_words_forward_and_blocks() {
    let t = Transfer::new(2, 0x8000_1000, Chunks::NumWords(2), Direction::FromRAM, Step::Forward, 0);
    match Console::plan_dma(&t) {
        DmaPlan::ReadRam { addresses, final_address } => {
            assert_eq!(addresses, vec![0x1000, 0x1004]);
            assert_eq!(final_address, None);
        },
        _ => panic!("expected RAM reads"),
    }
    let t = Transfer::new(2, 0x2000, Chunks::Blocks(Blocks::new(2, 2)), Direction::FromRAM, Step::Forward, 1);
    match Console::plan_dma(&t) {
        DmaPlan::ReadRam { addresses, final_address } => {
            assert_eq!(addresses, vec![0x2000, 0x2004, 0x2008, 0x200c]);
            assert_eq!(final_address, Some(0x200c));
        },
        _ => panic!("expected RAM reads"),
    }
}

#[test]
fn linked_list_starts_at_masked_address() {
    let t = Transfer::new(2, 0x8012_3457, Chunks::LinkedList, Direction::FromRAM, Step::Forward, 2);
    match Console::plan_dma(&t) {
        DmaPlan::LinkedList { header_address } => assert_eq!(header_address, 0x0012_3454),
        _ => panic!("expected a linked list"),
    }
}

#[test]
fn linked_list_packet_reads_after_header() {
    let (addresses, next) = linked_list_packet(&Step::Forward, 0x100, 0x0200_0200);
    assert_eq!(addresses, vec![0x104, 0x108, 0x10c]);
    assert_eq!(next, Some(0x200));
    let (addresses, next) = linked_list_packet(&Step::Forward, 0x100, 0x00ff_ffff);
    assert_eq!(addresses, vec![0x104]);
    assert_eq!(next, None);
}

#[test]
fn dma_steps_wrap_in_24_bits() {
    assert_eq!(step_address(&Step::Forward, 0x00ff_fffc), 0);
    assert_eq!(step_address(&Step::Backward, 0), 0x00ff_fffc);
    assert_eq!(undo_step_address(&Step::Forward, 0x10), 0xc);
    assert_eq!(undo_step_address(&Step::Backward, 0x10), 0x14);
}

#[test]
fn stepping_back_undoes_a_step() {
    for step in [Step::Forward, Step::Backward].iter() {
        for &a in &[0u32, 4, 0x1234, 0x00ff_fff8, 0x00ff_fffc] {
            assert_eq!(undo_step_address(step, step_address(step, a)), a);
            assert_eq!(step_address(step, undo_step_address(step, a)), a);
        }
    }
}

#[test]
fn byte_command_round_trip() {
    let c = Command::new(0xe1a2_b3c4);
    assert_eq!(c.id(), 0xe1);
    assert_eq!(c.serialize(), 0xe1a2_b3c4);
    assert_eq!(c.num_bytes(), 4);
    assert!(c.completed());
}

#[test]
fn byte_command_collects_parameters() {
    let mut c = Command::new(0x2800_ff00);
    assert!(!c.completed());
    for _ in 0..4 {
        c.append_parameters(0x0102_0304);
    }
    assert_eq!(c.num_bytes(), 20);
    assert!(c.completed());
}

#[test]
fn byte_command_polyline_ends_with_terminator() {
    let mut c = Command::new(0x4800_0000);
    for _ in 0..2 {
        c.append_parameters(0x0000_0001);
    }
    assert!(!c.completed());
    c.append_parameters(0x5555_5555);
    assert!(c.completed());
}

#[test]
fn byte_command_copy_waits_for_data() {
    let mut c = Command::new(0xa000_0000);
    c.append_parameters(0x0000_0000);
    // one by one halfword: 2 bytes of data needed, 11 parameter bytes already
    c.append_parameters(0x0001_0001);
    assert!(c.completed());
}

#[test]
fn appended_parameters_keep_the_command_id() {
    let mut c = rspsx::console::gpu::command::Command::new(0x2c80_8080);
    for k in 0..10u32 {
        c.append_parameters(0xff00_0000 | k);
        assert_eq!(c.id(), 0x2c);
    }
    assert_eq!(c.num_words(), 11);
    assert_eq!(c.idx(0), 0x2c80_8080);
}

#[test]
fn gpu_dma_channel_queues_whole_commands() {
    let mut gpu = GPU::new(false);
    gpu.send(vec![0xe100_0005, 0x2000_00ff, 0x0001_0002]);
    assert_eq!(gpu.command_buffer.len(), 1);
    assert_eq!(gpu.command_buffer[0].as_ref().clone(), vec![0xe100_0005]);
    assert!(gpu.waiting_for_parameters);
    assert_eq!(gpu.partial_command.as_ref().unwrap().as_ref().clone(), vec![0x2000_00ff, 0x0001_0002]);
    gpu.send(vec![0x0003_0004, 0x0005_0006]);
    assert_eq!(gpu.command_buffer.len(), 2);
    assert_eq!(gpu.command_buffer[1].as_ref().clone(), vec![0x2000_00ff, 0x0001_0002, 0x0003_0004, 0x0005_0006]);
    assert!(gpu.partial_command.is_none());
    assert!(!gpu.waiting_for_parameters);
    assert_eq!(gpu.receive(), 0);
}

#[test]
fn transfer_channel_widens_the_channel_number() {
    let t = Transfer::new(6, 0x10, Chunks::NumWords(4), Direction::ToRAM, Step::Backward, 0);
    assert_eq!(t.channel(), 6u32);
    assert_eq!(t.channel_num(), 6u8);
}
