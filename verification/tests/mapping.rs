use crabos::memory::frame_distributer::FrameAllocator;
use crabos::memory::mapper::Mapper;
use crabos::memory::paging::{mmap, page_count, plan_mapping, EntryFlags, MapRequest, MmapError};

struct Frames {
    left: Vec<u64>,
    asked: usize,
}

impl Frames {
    fn yielding(frames: &[u64]) -> Frames {
        Frames { left: frames.to_vec(), asked: 0 }
    }
}

impl FrameAllocator for Frames {
    fn allocate_frame(&mut self) -> Option<u64> {
        self.asked += 1;
        if self.left.is_empty() {
            None
        } else {
            Some(self.left.remove(0))
        }
    }
}

struct Recorder {
    installed: Vec<MapRequest>,
    tables_per_mapping: usize,
}

impl Recorder {
    fn new() -> Recorder {
        Recorder { installed: Vec::new(), tables_per_mapping: 0 }
    }
}

impl Mapper for Recorder {
    fn map<A: FrameAllocator>(
        &mut self,
        page_addr: u64,
        physical_addr: u64,
        frame_allocator: &mut A,
        flags: EntryFlags,
    ) {
        for _ in 0..self.tables_per_mapping {
            frame_allocator.allocate_frame();
        }
        self.installed.push(MapRequest { page_addr, physical_addr, flags });
    }
}

fn present_writable() -> EntryFlags {
    EntryFlags::present() | EntryFlags::writable()
}

#[test]
fn two_pages_get_two_frames_in_order() {
    let mut frames = Frames::yielding(&[10, 11]);
    let mut recorder = Recorder::new();
    let result = mmap(0x1000, 8192, &mut recorder, &mut frames);
    assert_eq!(result, Ok(2));
    assert_eq!(
        recorder.installed,
        vec![
            MapRequest { page_addr: 0x1000, physical_addr: 10, flags: present_writable() },
            MapRequest { page_addr: 0x2000, physical_addr: 11, flags: present_writable() },
        ]
    );
    assert_eq!(recorder.installed[0].flags.bits(), 0x3);
    assert_eq!(recorder.installed[1].flags.bits(), 0x3);
    assert_eq!(frames.asked, 2);
}

#[test]
fn a_partial_last_page_is_mapped_too() {
    let mut frames = Frames::yielding(&[0x10_000, 0x20_000, 0x30_000, 0x40_000]);
    let mut recorder = Recorder::new();
    let result = mmap(0x4000, 8193, &mut recorder, &mut frames);
    assert_eq!(result, Ok(3));
    let pages: Vec<u64> = recorder.installed.iter().map(|request| request.page_addr).collect();
    assert_eq!(pages, vec![0x4000, 0x5000, 0x6000]);
    let backing: Vec<u64> = recorder.installed.iter().map(|request| request.physical_addr).collect();
    assert_eq!(backing, vec![0x10_000, 0x20_000, 0x30_000]);
    assert_eq!(frames.asked, 3);
}

#[test]
fn an_empty_range_maps_nothing() {
    let mut frames = Frames::yielding(&[]);
    let mut recorder = Recorder::new();
    assert_eq!(mmap(0x1000, 0, &mut recorder, &mut frames), Ok(0));
    assert!(recorder.installed.is_empty());
    assert_eq!(frames.asked, 0);
}

#[test]
fn a_misaligned_start_is_rejected_before_any_frame_is_taken() {
    let mut frames = Frames::yielding(&[10, 11]);
    let mut recorder = Recorder::new();
    assert_eq!(mmap(0x1001, 8192, &mut recorder, &mut frames), Err(MmapError::Misaligned));
    assert_eq!(mmap(0xfff, 0, &mut recorder, &mut frames), Err(MmapError::Misaligned));
    assert!(recorder.installed.is_empty());
    assert_eq!(frames.asked, 0);
}

#[test]
fn running_out_of_frames_stops_at_once_and_keeps_what_was_mapped() {
    let mut frames = Frames::yielding(&[10, 11]);
    let mut recorder = Recorder::new();
    let result = mmap(0x8000, 4 * 4096, &mut recorder, &mut frames);
    assert_eq!(result, Err(MmapError::OutOfFrames { mapped: 2 }));
    assert_eq!(recorder.installed.len(), 2);
    assert_eq!(recorder.installed[1].page_addr, 0x9000);
    assert_eq!(frames.asked, 3);
}

#[test]
fn no_frame_at_all() {
    let mut frames = Frames::yielding(&[]);
    let mut recorder = Recorder::new();
    let result = mmap(0, 1, &mut recorder, &mut frames);
    assert_eq!(result, Err(MmapError::OutOfFrames { mapped: 0 }));
    assert!(recorder.installed.is_empty());
}

#[test]
fn frames_for_tables_come_between_the_frames_for_pages() {
    let mut frames = Frames::yielding(&[1, 2, 3, 4, 5, 6]);
    let mut recorder = Recorder::new();
    recorder.tables_per_mapping = 2;
    let result = mmap(0x1000, 8192, &mut recorder, &mut frames);
    assert_eq!(result, Ok(2));
    let backing: Vec<u64> = recorder.installed.iter().map(|request| request.physical_addr).collect();
    assert_eq!(backing, vec![1, 4]);
}

#[test]
fn pages_come_in_strictly_increasing_order() {
    let supply: Vec<u64> = (0..100).map(|n| 0x100_000 + n * 4096).collect();
    let mut frames = Frames::yielding(&supply);
    let mut recorder = Recorder::new();
    let result = mmap(0x7000_0000, 100 * 4096 - 1, &mut recorder, &mut frames);
    assert_eq!(result, Ok(100));
    for (index, request) in recorder.installed.iter().enumerate() {
        assert_eq!(request.page_addr, 0x7000_0000 + index as u64 * 4096);
        assert_eq!(request.physical_addr, supply[index]);
        assert_eq!(request.flags, present_writable());
    }
}

#[test]
fn the_last_page_of_the_address_space() {
    let mut frames = Frames::yielding(&[0x1000]);
    let mut recorder = Recorder::new();
    let start = u64::MAX - 4095;
    let result = mmap(start, 4095, &mut recorder, &mut frames);
    assert_eq!(result, Ok(1));
    assert_eq!(recorder.installed[0].page_addr, start);
}

#[test]
fn page_count_rounds_up() {
    assert_eq!(page_count(0), 0);
    assert_eq!(page_count(1), 1);
    assert_eq!(page_count(4095), 1);
    assert_eq!(page_count(4096), 1);
    assert_eq!(page_count(4097), 2);
    assert_eq!(page_count(8192), 2);
    assert_eq!(page_count(usize::MAX), usize::MAX / 4096 + 1);
}

#[test]
fn plan_for_a_frame_is_present_and_writable_only() {
    let step = plan_mapping(0x3000, 5, Some(0x9000));
    assert_eq!(
        step,
        Ok(MapRequest { page_addr: 0x8000, physical_addr: 0x9000, flags: present_writable() })
    );
    assert_eq!(step.unwrap().flags.bits(), 0b11);
}

#[test]
fn plan_without_a_frame_is_out_of_frames() {
    assert_eq!(plan_mapping(0x3000, 5, None), Err(MmapError::OutOfFrames { mapped: 5 }));
    assert_eq!(plan_mapping(0, 0, None), Err(MmapError::OutOfFrames { mapped: 0 }));
}
