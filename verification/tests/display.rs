use minime::display::{
    frame_fits_check, load_fits_check, pitched_fits_check, rotate, Canvas, DisplayError, Rect,
};
use minime::drm::{check_resources, ConnectorReport, DrmError, DrmProbe, DrmReply};

fn paint(c: &mut Canvas, r: u8, g: u8, b: u8, a: u8) {
    let color = tiny_skia::Color::from_rgba8(r, g, b, a);
    c.pixmap_mut().fill(color);
}

#[test]
fn canvas_starts_blank() {
    let c = Canvas::new(3, 2).unwrap();
    assert_eq!(c.width(), 3);
    assert_eq!(c.height(), 2);
    assert!(c.pixmap().data().iter().all(|&b| b == 0));
    assert!(Canvas::new(0, 5).is_none());
}

#[test]
fn framebuffer_canvas_needs_32_bits() {
    assert_eq!(
        Canvas::for_framebuffer(16, 4, 4).err(),
        Some(DisplayError::UnsupportedDepth(16))
    );
    assert_eq!(
        Canvas::for_framebuffer(32, 0, 4).err(),
        Some(DisplayError::PixmapUnavailable)
    );
    assert!(Canvas::for_framebuffer(32, 4, 4).is_ok());
}

#[test]
fn load_without_save_fails() {
    let mut c = Canvas::new(2, 2).unwrap();
    assert_eq!(
        c.load(Rect { x: 0, y: 0, w: 2, h: 2 }),
        Err(DisplayError::NoSavedImage)
    );
}

#[test]
fn save_then_load_restores_rect_only() {
    let mut c = Canvas::new(4, 3).unwrap();
    paint(&mut c, 255, 0, 0, 255);
    c.save();
    paint(&mut c, 0, 0, 255, 255);
    c.load(Rect { x: 1, y: 1, w: 2, h: 5 }).unwrap();
    let px = |c: &Canvas, x: usize, y: usize| {
        let d = c.pixmap().data();
        let i = (y * 4 + x) * 4;
        [d[i], d[i + 1], d[i + 2], d[i + 3]]
    };
    assert_eq!(px(&c, 1, 1), [255, 0, 0, 255]);
    assert_eq!(px(&c, 2, 2), [255, 0, 0, 255]);
    assert_eq!(px(&c, 0, 1), [0, 0, 255, 255]);
    assert_eq!(px(&c, 3, 1), [0, 0, 255, 255]);
    assert_eq!(px(&c, 1, 0), [0, 0, 255, 255]);
    // A negative corner is moved to 0, not clipped.
    paint(&mut c, 0, 0, 255, 255);
    c.load(Rect { x: -5, y: -5, w: 1, h: 1 }).unwrap();
    assert_eq!(px(&c, 0, 0), [255, 0, 0, 255]);
    assert_eq!(px(&c, 1, 0), [0, 0, 255, 255]);
}

#[test]
fn covering_load_restores_everything() {
    let mut c = Canvas::new(5, 4).unwrap();
    paint(&mut c, 10, 20, 30, 255);
    c.save();
    let saved = c.pixmap().data().to_vec();
    paint(&mut c, 1, 2, 3, 255);
    c.load(Rect { x: 0, y: 0, w: 100, h: 100 }).unwrap();
    assert_eq!(c.pixmap().data(), &saved[..]);
}

#[test]
fn pop_reports_what_is_left() {
    let mut c = Canvas::new(2, 2).unwrap();
    c.save();
    c.save();
    assert!(c.pop());
    assert!(!c.pop());
    assert!(!c.pop());
}

#[test]
fn rotation_positions() {
    assert_eq!(rotate(1, 2, 10, 20, 0), (1, 2));
    assert_eq!(rotate(1, 2, 10, 20, 90), (7, 1));
    assert_eq!(rotate(1, 2, 10, 20, 180), (8, 17));
    assert_eq!(rotate(1, 2, 10, 20, 270), (2, 18));
    assert_eq!(rotate(1, 2, 10, 20, 45), (1, 2));
}

#[test]
fn flush_writes_bgra_rotated() {
    let mut c = Canvas::new(2, 1).unwrap();
    {
        let p = c.pixmap_mut();
        let d = p.data_mut();
        d.copy_from_slice(&[1, 2, 3, 255, 4, 5, 6, 255]);
    }
    // Upright on a 2x1 panel.
    let mut frame = vec![0u8; 8];
    assert!(frame_fits_check(2, 1, 2, 1, 0, frame.len()));
    c.flush_rotated(&mut frame, 2, 1, 0);
    assert_eq!(frame, vec![3, 2, 1, 255, 6, 5, 4, 255]);
    // At 90 degrees on a 1x2 panel the pixels go down the column.
    let mut frame = vec![9u8; 8];
    assert!(frame_fits_check(2, 1, 1, 2, 90, frame.len()));
    c.flush_rotated(&mut frame, 1, 2, 90);
    assert_eq!(frame, vec![3, 2, 1, 255, 6, 5, 4, 255]);
    // At 180 degrees the row is reversed.
    let mut frame = vec![0u8; 8];
    c.flush_rotated(&mut frame, 2, 1, 180);
    assert_eq!(frame, vec![6, 5, 4, 255, 3, 2, 1, 255]);
    assert!(!frame_fits_check(2, 1, 2, 1, 0, 7));
    assert!(!frame_fits_check(2, 3, 2, 1, 90, 100));
}

#[test]
fn flush_pitched_keeps_padding() {
    let mut c = Canvas::new(1, 2).unwrap();
    c.pixmap_mut()
        .data_mut()
        .copy_from_slice(&[1, 2, 3, 4, 5, 6, 7, 8]);
    let mut dst = vec![0xeeu8; 12];
    assert!(pitched_fits_check(1, 2, 6, dst.len()));
    c.flush_pitched(&mut dst, 6);
    assert_eq!(dst, vec![1, 2, 3, 4, 0xee, 0xee, 5, 6, 7, 8, 0xee, 0xee]);
    assert!(!pitched_fits_check(1, 2, 6, 9));
}

#[test]
fn load_bounds_check() {
    assert!(load_fits_check(Rect { x: -3, y: 2, w: 10, h: 10 }));
    assert!(!load_fits_check(Rect { x: 5, y: 0, w: u32::MAX, h: 1 }));
}

#[test]
fn drm_probe_picks_first_connected_output() {
    assert_eq!(check_resources(0, 1), Err(DrmError::NoConnectorsOrCrtcs));
    assert_eq!(check_resources(2, 1), Ok(()));
    let crtcs = vec![31u32, 32];
    let s = DrmProbe::start(3);
    assert_eq!(s, DrmProbe::Query(0));
    let s = s.advance(3, &crtcs, DrmReply::Connector(None));
    assert_eq!(s, DrmProbe::Query(1));
    let s = s.advance(
        3,
        &crtcs,
        DrmReply::Connector(Some(ConnectorReport { connection: 2, count_modes: 4 })),
    );
    assert_eq!(s, DrmProbe::Query(2));
    let s = s.advance(
        3,
        &crtcs,
        DrmReply::Connector(Some(ConnectorReport { connection: 1, count_modes: 1 })),
    );
    assert_eq!(s, DrmProbe::FetchModes(2));
    let s = s.advance(3, &crtcs, DrmReply::Modes(Some(40)));
    assert_eq!(s, DrmProbe::QueryEncoder(2, 40));
    let s = s.advance(3, &crtcs, DrmReply::Encoder(Some(0)));
    assert_eq!(s, DrmProbe::Chosen(2, 31));
    assert_eq!(s.outcome(), Some(Ok((2, 31))));
    let s = DrmProbe::FetchModes(0).advance(1, &crtcs, DrmReply::Modes(Some(0)));
    assert_eq!(s, DrmProbe::Chosen(0, 31));
    let s = DrmProbe::QueryEncoder(0, 5).advance(1, &vec![], DrmReply::Encoder(Some(77)));
    assert_eq!(s, DrmProbe::Chosen(0, 77));
    let s = DrmProbe::QueryEncoder(0, 5).advance(1, &vec![], DrmReply::Encoder(None));
    assert_eq!(s.outcome(), Some(Err(DrmError::NoActiveOutput)));
    assert_eq!(DrmProbe::start(0), DrmProbe::Failed);
    assert_eq!(DrmProbe::Query(0).outcome(), None);
}

#[test]
fn load_without_save_fails_for_any_rect() {
    let mut c = Canvas::new(2, 2).unwrap();
    assert_eq!(c.saved_count(), 0);
    assert_eq!(
        c.load(Rect { x: 5, y: 0, w: u32::MAX, h: u32::MAX }),
        Err(DisplayError::NoSavedImage)
    );
    c.save();
    assert_eq!(c.saved_count(), 1);
}
