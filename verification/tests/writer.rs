use rumbac::command::Command;
use rumbac::error::Error;
use rumbac::feats::Feats;
use rumbac::flash::{identify, Flash};
use rumbac::writer::{plan_write, write_len, WRITE_BUF_SIZE};

fn flash(addr: u32, pages: u32, size: u32, user: u32) -> Flash {
    Flash { addr, pages, size, planes: 1, lock_regions: 0, user, stack: 0 }
}

fn feats(write_buffer: bool, reset: bool) -> Feats {
    Feats { chip_erase: false, write_buffer, checksum_buffer: false, identify_chip: true, reset }
}

fn image(len: usize) -> Vec<u8> {
    (0..len).map(|i| (i % 253) as u8 + 1).collect()
}

#[test]
fn buffer_holds_4096_bytes() {
    assert_eq!(WRITE_BUF_SIZE, 4096);
}

#[test]
fn full_buffer_is_written_as_it_is() {
    assert_eq!(write_len(4096, 4096), 4096);
    assert_eq!(write_len(4096, 64), 4096);
    assert_eq!(write_len(4096, 3000), 4096);
    assert_eq!(write_len(4096, u32::MAX), 4096);
}

#[test]
fn short_buffer_is_rounded_up_to_whole_pages() {
    assert_eq!(write_len(1, 4096), 4096);
    assert_eq!(write_len(4095, 4096), 4096);
    assert_eq!(write_len(100, 64), 128);
    assert_eq!(write_len(128, 64), 128);
    assert_eq!(write_len(129, 64), 192);
    assert_eq!(write_len(1, 1), 1);
    assert_eq!(write_len(4095, 1), 4095);
    assert_eq!(write_len(0, 64), 0);
    assert_eq!(write_len(2999, 3000), 3000);
    assert_eq!(write_len(3000, 3000), 3000);
}

#[test]
fn rounded_length_is_capped_at_the_buffer() {
    assert_eq!(write_len(3001, 3000), 4096);
    assert_eq!(write_len(3500, 3000), 4096);
    assert_eq!(write_len(4000, 8192), 4096);
    assert_eq!(write_len(1, u32::MAX), 4096);
    assert_eq!(write_len(4095, 4097), 4096);
}

#[test]
fn one_page_image_is_one_exchange() {
    let f = identify(b"nRF52840-QIAA").unwrap();
    let data = image(4096);
    let plan = plan_write(&feats(true, false), &f, &data).unwrap();
    assert_eq!(plan.enter, Command::EnterWriteMode);
    assert_eq!(plan.reset, None);
    assert_eq!(plan.chunks.len(), 1);
    let chunk = &plan.chunks[0];
    assert_eq!(chunk.upload.encode(), b"S00000000,00001000#".to_vec());
    assert_eq!(chunk.data, data);
    assert_eq!(chunk.select.encode(), b"Y00000000,00000000#".to_vec());
    assert_eq!(chunk.program.encode(), b"Y00000000,00001000#".to_vec());
    assert_eq!(chunk.program, Command::Program { addr: f.addr, size: 4096 });
}

#[test]
fn one_page_image_is_programmed_at_the_base() {
    let f = flash(0x0800_0000, 16, 4096, 0x2000_0100);
    let plan = plan_write(&feats(true, true), &f, &image(4096)).unwrap();
    assert_eq!(plan.chunks.len(), 1);
    assert_eq!(plan.chunks[0].upload, Command::Upload { offset: 0x2000_0100, size: 4096 });
    assert_eq!(plan.chunks[0].select, Command::Program { addr: 0x2000_0100, size: 0 });
    assert_eq!(plan.chunks[0].program, Command::Program { addr: 0x0800_0000, size: 4096 });
    assert_eq!(plan.chunks[0].program.encode(), b"Y08000000,00001000#".to_vec());
    assert_eq!(plan.reset, Some(Command::Reset));
}

#[test]
fn nothing_is_planned_without_write_buffer() {
    let f = identify(b"nRF52840-QIAA").unwrap();
    assert_eq!(plan_write(&feats(false, true), &f, &image(4096)), Err(Error::WriteBufferMissing));
    assert_eq!(plan_write(&feats(false, false), &f, &[]), Err(Error::WriteBufferMissing));
}

#[test]
fn nothing_is_planned_for_an_image_larger_than_flash() {
    let f = flash(0, 2, 64, 0);
    assert_eq!(
        plan_write(&feats(true, true), &f, &image(129)),
        Err(Error::InputTooLarge { size: 129, capacity: 128 })
    );
    assert!(plan_write(&feats(true, true), &f, &image(128)).is_ok());
    let nrf = identify(b"nRF52840-QIAA").unwrap();
    assert_eq!(
        plan_write(&feats(true, true), &nrf, &vec![0u8; 1_048_577]),
        Err(Error::InputTooLarge { size: 1_048_577, capacity: 1_048_576 })
    );
}

#[test]
fn size_is_checked_before_the_write_buffer() {
    let f = flash(0, 2, 64, 0);
    assert_eq!(
        plan_write(&feats(false, true), &f, &image(200)),
        Err(Error::InputTooLarge { size: 200, capacity: 128 })
    );
}

#[test]
fn empty_image_sends_no_chunk() {
    let f = identify(b"nRF52840-QIAA").unwrap();
    let plan = plan_write(&feats(true, true), &f, &[]).unwrap();
    assert_eq!(plan.enter, Command::EnterWriteMode);
    assert!(plan.chunks.is_empty());
    assert_eq!(plan.reset, Some(Command::Reset));
}

#[test]
fn whole_pages_are_written_without_padding() {
    for (page, pages) in [(4096u32, 3usize), (1024, 5), (64, 100), (4096, 256), (1, 5000), (2048, 1)] {
        let f = flash(0x4000, 8192, page, 0x20);
        assert!(f.is_well_formed());
        let data = image(page as usize * pages);
        let plan = plan_write(&feats(true, false), &f, &data).unwrap();
        assert_eq!(plan.chunks.len(), (data.len() + 4095) / 4096);
        let mut sent = Vec::new();
        for (i, chunk) in plan.chunks.iter().enumerate() {
            assert_eq!(chunk.data.len() % page as usize, 0);
            assert_eq!(chunk.upload, Command::Upload { offset: 0x20, size: chunk.data.len() as u32 });
            assert_eq!(chunk.select, Command::Program { addr: 0x20, size: 0 });
            assert_eq!(
                chunk.program,
                Command::Program { addr: 0x4000 + 4096 * i as u32, size: chunk.data.len() as u32 }
            );
            sent.extend_from_slice(&chunk.data);
        }
        assert_eq!(sent, data);
    }
}

#[test]
fn short_image_is_one_padded_chunk() {
    let f = identify(b"nRF52840-QIAA").unwrap();
    let data = image(100);
    let plan = plan_write(&feats(true, false), &f, &data).unwrap();
    assert_eq!(plan.chunks.len(), 1);
    let chunk = &plan.chunks[0];
    assert_eq!(chunk.data.len(), 4096);
    assert_eq!(&chunk.data[..100], &data[..]);
    assert!(chunk.data[100..].iter().all(|b| *b == 0));
    assert_eq!(chunk.upload, Command::Upload { offset: 0, size: 4096 });
    assert_eq!(chunk.program, Command::Program { addr: 0, size: 4096 });
}

#[test]
fn short_image_is_rounded_to_small_pages() {
    let f = flash(0x100, 64, 64, 8);
    let data = image(100);
    let plan = plan_write(&feats(true, false), &f, &data).unwrap();
    assert_eq!(plan.chunks.len(), 1);
    assert_eq!(plan.chunks[0].data.len(), 128);
    assert_eq!(&plan.chunks[0].data[..100], &data[..]);
    assert_eq!(&plan.chunks[0].data[100..], &[0u8; 28][..]);
    assert_eq!(plan.chunks[0].upload.encode(), b"S00000008,00000080#".to_vec());
    assert_eq!(plan.chunks[0].program.encode(), b"Y00000100,00000080#".to_vec());
}

#[test]
fn last_chunk_is_padded_and_earlier_ones_are_full() {
    let f = identify(b"nRF52840-QIAA").unwrap();
    let data = image(4096 * 2 + 10);
    let plan = plan_write(&feats(true, true), &f, &data).unwrap();
    assert_eq!(plan.chunks.len(), 3);
    assert_eq!(plan.chunks[0].data, data[..4096].to_vec());
    assert_eq!(plan.chunks[1].data, data[4096..8192].to_vec());
    assert_eq!(plan.chunks[2].data.len(), 4096);
    assert_eq!(&plan.chunks[2].data[..10], &data[8192..]);
    assert!(plan.chunks[2].data[10..].iter().all(|b| *b == 0));
    assert_eq!(plan.chunks[1].program, Command::Program { addr: 4096, size: 4096 });
    assert_eq!(plan.chunks[2].program, Command::Program { addr: 8192, size: 4096 });
}

#[test]
fn cap_cuts_a_trailing_page_that_does_not_fit_the_buffer() {
    let f = flash(0, 10, 3000, 0);
    let data = image(3500);
    let plan = plan_write(&feats(true, false), &f, &data).unwrap();
    assert_eq!(plan.chunks.len(), 1);
    assert_eq!(plan.chunks[0].data.len(), 4096);
    assert_eq!(&plan.chunks[0].data[..3500], &data[..]);
    assert_eq!(plan.chunks[0].program, Command::Program { addr: 0, size: 4096 });
}

#[test]
fn pages_that_do_not_divide_the_buffer_are_not_kept_whole() {
    let f = flash(0, 10, 3000, 0);
    let data = image(6000);
    let plan = plan_write(&feats(true, false), &f, &data).unwrap();
    assert_eq!(plan.chunks.len(), 2);
    assert_eq!(plan.chunks[0].data.len(), 4096);
    assert_eq!(plan.chunks[1].data.len(), 3000);
    assert_eq!(&plan.chunks[1].data[..1904], &data[4096..]);
    assert_eq!(plan.chunks[1].program, Command::Program { addr: 4096, size: 3000 });
}

#[test]
fn image_may_fill_flash_up_to_the_last_address() {
    let f = flash(0xFFFF_E000, 2, 4096, 0);
    let plan = plan_write(&feats(true, false), &f, &image(8192)).unwrap();
    assert_eq!(plan.chunks[1].program, Command::Program { addr: 0xFFFF_F000, size: 4096 });
    assert_eq!(plan.chunks[1].program.encode(), b"YFFFFF000,00001000#".to_vec());
}
