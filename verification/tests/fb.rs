use nebula::bytes::same_bytes;
use nebula::fb::{
    blit_bgra, DeviceError, Framebuffer, Mapping, ScreenInfo, FIX_INFO_LEN, VAR_INFO_LEN,
};
use nebula::theme::Color;

fn screen(width: u32, height: u32, stride: u32) -> ScreenInfo {
    ScreenInfo { width, height, stride, bpp: 32 }
}

/// Stands in for the mapped region and counts the presents that wrote.
struct Region {
    bytes: Vec<u8>,
    writes: usize,
}

impl Region {
    fn new(len: usize) -> Region {
        Region { bytes: vec![0xEE; len], writes: 0 }
    }

    fn show(&mut self, fb: &mut Framebuffer) -> bool {
        let wrote = fb.present(&mut self.bytes);
        if wrote {
            self.writes += 1;
        }
        wrote
    }
}

#[test]
fn mapped_length_is_stride_times_height() {
    assert_eq!(screen(1920, 1080, 7680).mapped_len(), Ok(8_294_400));
    assert_eq!(screen(2, 2, 12).mapped_len(), Ok(24));
    assert_eq!(screen(0, 5, 16).mapped_len(), Ok(80));
}

#[test]
fn empty_screen_is_a_device_error() {
    assert_eq!(screen(10, 0, 40).mapped_len(), Err(DeviceError::EmptyScreen));
    assert_eq!(screen(10, 10, 0).mapped_len(), Err(DeviceError::EmptyScreen));
    assert!(matches!(Framebuffer::new(screen(10, 0, 40)), Err(DeviceError::EmptyScreen)));
}

#[test]
fn new_presenter_has_a_zeroed_back_buffer() {
    let mut fb = Framebuffer::new(screen(2, 3, 12)).ok().unwrap();
    assert_eq!(fb.width(), 2);
    assert_eq!(fb.height(), 3);
    assert_eq!(fb.info, screen(2, 3, 12));
    assert_eq!(fb.back_buffer_mut().len(), 36);
    assert!(fb.back_buffer_mut().iter().all(|b| *b == 0));
    assert!(fb.is_dirty());
}

#[test]
fn first_frame_is_always_presented() {
    let mut fb = Framebuffer::new(screen(2, 1, 8)).ok().unwrap();
    let mut region = Region::new(8);
    assert!(region.show(&mut fb));
    assert_eq!(region.bytes, vec![0u8; 8]);
    assert!(!fb.is_dirty());
}

#[test]
fn identical_frame_is_not_written_again() {
    let mut fb = Framebuffer::new(screen(2, 2, 8)).ok().unwrap();
    let mut region = Region::new(16);
    fb.back_buffer_mut().copy_from_slice(&[7u8; 16]);
    assert!(region.show(&mut fb));
    assert_eq!(region.writes, 1);
    // Scribble over the region: a present that skips must leave it alone.
    region.bytes.copy_from_slice(&[0x42; 16]);
    for _ in 0..5 {
        fb.back_buffer_mut().copy_from_slice(&[7u8; 16]);
        assert!(!fb.is_dirty());
        assert!(!region.show(&mut fb));
    }
    assert_eq!(region.writes, 1);
    assert_eq!(region.bytes, vec![0x42; 16]);
}

#[test]
fn changed_pixel_reaches_the_region_with_red_and_blue_swapped() {
    let mut fb = Framebuffer::new(screen(2, 2, 8)).ok().unwrap();
    let mut region = Region::new(16);
    region.show(&mut fb);
    let frame: Vec<u8> = (1..=16).collect();
    fb.back_buffer_mut().copy_from_slice(&frame);
    assert!(fb.is_dirty());
    assert!(region.show(&mut fb));
    assert_eq!(
        region.bytes,
        vec![3, 2, 1, 4, 7, 6, 5, 8, 11, 10, 9, 12, 15, 14, 13, 16]
    );
    for p in 0..4 {
        assert_eq!(region.bytes[4 * p], frame[4 * p + 2]);
        assert_eq!(region.bytes[4 * p + 1], frame[4 * p + 1]);
        assert_eq!(region.bytes[4 * p + 2], frame[4 * p]);
        assert_eq!(region.bytes[4 * p + 3], frame[4 * p + 3]);
    }
    // The back buffer itself is not reordered.
    assert_eq!(fb.back_buffer_mut().to_vec(), frame);
    assert!(!region.show(&mut fb));
}

#[test]
fn one_changed_byte_is_enough() {
    let mut fb = Framebuffer::new(screen(4, 4, 16)).ok().unwrap();
    let mut region = Region::new(64);
    region.show(&mut fb);
    fb.back_buffer_mut()[63] = 1;
    assert!(region.show(&mut fb));
    assert_eq!(region.bytes[63], 1);
    fb.back_buffer_mut()[63] = 0;
    assert!(region.show(&mut fb));
    assert_eq!(region.bytes[63], 0);
    assert_eq!(region.writes, 3);
}

#[test]
fn dirty_mark_forces_a_blit() {
    let mut fb = Framebuffer::new(screen(1, 1, 4)).ok().unwrap();
    let mut region = Region::new(4);
    region.show(&mut fb);
    assert!(!fb.is_dirty());
    fb.mark_dirty();
    assert!(fb.is_dirty());
    region.bytes.copy_from_slice(&[9, 9, 9, 9]);
    assert!(region.show(&mut fb));
    assert_eq!(region.bytes, vec![0, 0, 0, 0]);
    assert!(!fb.is_dirty());
    assert!(!region.show(&mut fb));
}

#[test]
fn stride_padding_is_carried_along() {
    // Two pixels a row, four bytes of padding behind them.
    let mut fb = Framebuffer::new(screen(2, 2, 12)).ok().unwrap();
    let mut region = Region::new(24);
    let frame: Vec<u8> = (100..124).collect();
    fb.back_buffer_mut().copy_from_slice(&frame);
    assert!(region.show(&mut fb));
    assert_eq!(&region.bytes[0..4], &[102, 101, 100, 103]);
    assert_eq!(&region.bytes[12..16], &[114, 113, 112, 115]);
    assert_eq!(&region.bytes[8..12], &[110, 109, 108, 111]);
}

#[test]
fn blit_stops_at_the_shorter_buffer() {
    let src: Vec<u8> = (1..=10).collect();
    let mut dst = vec![0xAA; 7];
    blit_bgra(&src, &mut dst);
    assert_eq!(dst, vec![3, 2, 1, 4, 0xAA, 0xAA, 0xAA]);
    let mut dst = vec![0xAA; 12];
    blit_bgra(&src, &mut dst);
    assert_eq!(dst, vec![3, 2, 1, 4, 7, 6, 5, 8, 0xAA, 0xAA, 0xAA, 0xAA]);
    let mut dst: Vec<u8> = Vec::new();
    blit_bgra(&src, &mut dst);
    assert!(dst.is_empty());
    let mut dst = vec![1, 2, 3];
    blit_bgra(&[], &mut dst);
    assert_eq!(dst, vec![1, 2, 3]);
}

#[test]
fn byte_runs_compare_by_length_and_content() {
    assert!(same_bytes(&[], &[]));
    assert!(same_bytes(&[1, 2, 3], &[1, 2, 3]));
    assert!(!same_bytes(&[1, 2, 3], &[1, 2, 4]));
    assert!(!same_bytes(&[0, 2, 3], &[1, 2, 3]));
    assert!(!same_bytes(&[1, 2], &[1, 2, 3]));
    assert!(!same_bytes(&[1, 2, 3], &[]));
}

#[test]
fn clear_fills_every_pixel() {
    let mut fb = Framebuffer::new(screen(2, 2, 8)).ok().unwrap();
    fb.clear(Color::rgba(10, 20, 30, 40));
    assert_eq!(
        fb.back_buffer_mut().to_vec(),
        vec![10, 20, 30, 40, 10, 20, 30, 40, 10, 20, 30, 40, 10, 20, 30, 40]
    );
    let mut region = Region::new(16);
    region.show(&mut fb);
    assert_eq!(&region.bytes[0..4], &[30, 20, 10, 40]);
}

#[test]
fn clear_leaves_row_padding_alone() {
    let mut fb = Framebuffer::new(screen(1, 2, 6)).ok().unwrap();
    fb.back_buffer_mut().copy_from_slice(&[9u8; 12]);
    fb.clear(Color::rgb(1, 2, 3));
    assert_eq!(fb.back_buffer_mut().to_vec(), vec![1, 2, 3, 255, 9, 9, 1, 2, 3, 255, 9, 9]);
}

#[test]
fn clear_with_three_bytes_a_pixel_writes_no_alpha() {
    let mut fb =
        Framebuffer::new(ScreenInfo { width: 2, height: 1, stride: 7, bpp: 24 }).ok().unwrap();
    fb.back_buffer_mut().copy_from_slice(&[9u8; 7]);
    fb.clear(Color::rgba(1, 2, 3, 4));
    assert_eq!(fb.back_buffer_mut().to_vec(), vec![1, 2, 3, 1, 2, 3, 9]);
}

#[test]
fn clear_with_wide_pixels_leaves_the_rest_of_each_pixel() {
    let mut fb =
        Framebuffer::new(ScreenInfo { width: 2, height: 1, stride: 12, bpp: 48 }).ok().unwrap();
    fb.back_buffer_mut().copy_from_slice(&[9u8; 12]);
    fb.clear(Color::rgba(1, 2, 3, 4));
    assert_eq!(fb.back_buffer_mut().to_vec(), vec![1, 2, 3, 4, 9, 9, 1, 2, 3, 4, 9, 9]);
}

#[test]
fn clear_does_not_present() {
    let mut fb = Framebuffer::new(screen(1, 1, 4)).ok().unwrap();
    let mut region = Region::new(4);
    region.show(&mut fb);
    fb.clear(Color::rgb(0, 0, 0));
    assert!(region.show(&mut fb) == false || region.writes == 2);
    fb.clear(Color::rgb(5, 6, 7));
    assert!(fb.is_dirty());
    assert!(region.show(&mut fb));
    assert_eq!(region.bytes, vec![7, 6, 5, 255]);
}

#[test]
fn colors_are_plain_quadruplets() {
    assert_eq!(Color::rgb(1, 2, 3), Color { r: 1, g: 2, b: 3, a: 255 });
    assert_eq!(Color::rgba(1, 2, 3, 4), Color { r: 1, g: 2, b: 3, a: 4 });
}

#[test]
fn mapping_is_released_once() {
    let mut m = Mapping::new(4096);
    assert!(m.is_live());
    assert_eq!(m.release(), Some(4096));
    assert!(!m.is_live());
    assert!(m.released);
    assert_eq!(m.release(), None);
    assert_eq!(m.release(), None);
    assert_eq!(m.len, 4096);
}

#[test]
fn empty_mapping_has_nothing_to_release() {
    let mut m = Mapping::new(0);
    assert!(!m.is_live());
    assert_eq!(m.release(), None);
    assert!(m.released);
}

#[test]
fn geometry_is_read_out_of_the_kernel_records() {
    let mut var_info = [0xAAu8; VAR_INFO_LEN];
    let mut fix_info = [0xBBu8; FIX_INFO_LEN];
    var_info[0..4].copy_from_slice(&1920u32.to_le_bytes());
    var_info[4..8].copy_from_slice(&1080u32.to_le_bytes());
    var_info[24..28].copy_from_slice(&32u32.to_le_bytes());
    fix_info[48..52].copy_from_slice(&7680u32.to_le_bytes());
    assert_eq!(
        ScreenInfo::from_kernel(&var_info, &fix_info),
        Ok(ScreenInfo { width: 1920, height: 1080, stride: 7680, bpp: 32 })
    );
    // Longer buffers are fine, shorter ones are a failed query.
    let long = [0u8; 200];
    assert_eq!(
        ScreenInfo::from_kernel(&long, &long),
        Ok(ScreenInfo { width: 0, height: 0, stride: 0, bpp: 0 })
    );
    assert_eq!(ScreenInfo::from_kernel(&var_info[..159], &fix_info), Err(DeviceError::Query));
    assert_eq!(ScreenInfo::from_kernel(&var_info, &fix_info[..79]), Err(DeviceError::Query));
    assert_eq!(ScreenInfo::from_kernel(&[], &[]), Err(DeviceError::Query));
}

#[test]
fn device_errors_have_messages() {
    assert_eq!(DeviceError::Open.message(), "cannot open device");
    assert_eq!(DeviceError::Query.message(), "geometry query failed");
    assert_eq!(DeviceError::EmptyScreen.message(), "zero fb size");
    assert_eq!(DeviceError::TooLarge.message(), "fb size exceeds the address space");
    assert_eq!(DeviceError::Mapping.message(), "cannot map device");
}
