use gop_surface::{
    Action, AdapterError, Color, DirectAdapter, Event, FrameLoop, NativePixel, Pixel, Region,
    ShadowAdapter, VideoFill,
};

fn red() -> Color {
    Color::new(255, 0, 0)
}

fn green() -> Color {
    Color::new(0, 255, 0)
}

fn blue() -> Color {
    Color::new(0, 0, 255)
}

fn black() -> Color {
    Color::black()
}

/// A stand-in for the video device: a frame that fill commands paint.
struct FakeScreen {
    width: usize,
    cells: Vec<NativePixel>,
    fills: Vec<VideoFill>,
}

impl FakeScreen {
    fn new(width: usize, height: usize) -> FakeScreen {
        FakeScreen { width, cells: vec![NativePixel::new(0, 0, 0); width * height], fills: vec![] }
    }

    fn apply(&mut self, f: VideoFill) {
        for y in f.dest.1..f.dest.1 + f.dims.1 {
            for x in f.dest.0..f.dest.0 + f.dims.0 {
                self.cells[y * self.width + x] = f.pixel;
            }
        }
        self.fills.push(f);
    }

    fn color(&self, x: usize, y: usize) -> Color {
        self.cells[y * self.width + x].to_color()
    }
}

fn shadow_cells(s: &ShadowAdapter) -> Vec<Option<Color>> {
    let (w, h) = s.size();
    let mut out = vec![];
    for y in 0..h as i32 {
        for x in 0..w as i32 {
            out.push(s.pixel(x, y));
        }
    }
    out
}

#[test]
fn new_surface_is_black() {
    let s = ShadowAdapter::new(3, 2);
    assert_eq!(s.size(), (3, 2));
    assert!(shadow_cells(&s).iter().all(|c| *c == Some(black())));
    assert_eq!(s.flush().buffer.len(), 6);
}

#[test]
fn native_pixel_keeps_channels() {
    let c = Color::new(10, 20, 30);
    let p = c.to_native();
    assert_eq!((p.red, p.green, p.blue, p.reserved), (10, 20, 30, 0));
    assert_eq!(p.to_color(), c);
    assert_eq!((c.r(), c.g(), c.b()), (10, 20, 30));
}

#[test]
fn shadow_draw_then_read_every_cell() {
    let mut s = ShadowAdapter::new(3, 2);
    for y in 0..2 {
        for x in 0..3 {
            let c = Color::new(x as u8 * 40, y as u8 * 90, 7);
            assert_eq!(s.draw_pixel(x, y, c), Ok(()));
            assert_eq!(s.pixel(x, y), Some(c));
        }
    }
    assert_eq!(s.pixel(2, 1), Some(Color::new(80, 90, 7)));
    assert_eq!(s.pixel(0, 0), Some(Color::new(0, 0, 7)));
}

#[test]
fn direct_draw_then_read_through_fake_screen() {
    let d = DirectAdapter::new(3, 2);
    let mut screen = FakeScreen::new(3, 2);
    let c = Color::new(1, 2, 3);
    let f = d.draw_pixel(2, 1, c).unwrap();
    assert_eq!(f, VideoFill { pixel: c.to_native(), dest: (2, 1), dims: (1, 1) });
    screen.apply(f);
    assert_eq!(screen.color(2, 1), c);
    assert_eq!(screen.color(1, 1), black());
}

#[test]
fn draw_iter_later_pixel_wins() {
    let mut s = ShadowAdapter::new(2, 2);
    let pixels = [
        Pixel { x: 0, y: 1, color: red() },
        Pixel { x: 1, y: 0, color: green() },
        Pixel { x: 0, y: 1, color: blue() },
    ];
    assert_eq!(s.draw_iter(&pixels), Ok(()));
    assert_eq!(shadow_cells(&s), vec![Some(black()), Some(green()), Some(blue()), Some(black())]);
}

#[test]
fn draw_iter_out_of_bounds_changes_nothing() {
    let mut s = ShadowAdapter::new(2, 2);
    let pixels = [Pixel { x: 0, y: 0, color: red() }, Pixel { x: 2, y: 0, color: red() }];
    assert_eq!(s.draw_iter(&pixels), Err(AdapterError::OutOfBounds));
    assert!(shadow_cells(&s).iter().all(|c| *c == Some(black())));
}

#[test]
fn fill_solid_inside_and_outside() {
    let mut s = ShadowAdapter::new(4, 3);
    s.clear(blue());
    assert_eq!(s.fill_solid(Region::new(1, 1, 2, 2), green()), Ok(()));
    for y in 0..3 {
        for x in 0..4 {
            let inside = (1..3).contains(&x) && (1..3).contains(&y);
            let want = if inside { green() } else { blue() };
            assert_eq!(s.pixel(x, y), Some(want), "cell ({x}, {y})");
        }
    }
}

#[test]
fn fill_solid_empty_region_changes_nothing() {
    let mut s = ShadowAdapter::new(2, 2);
    assert_eq!(s.fill_solid(Region::new(2, 2, 0, 0), red()), Ok(()));
    assert!(shadow_cells(&s).iter().all(|c| *c == Some(black())));
}

#[test]
fn fill_contiguous_row_major_in_region() {
    let mut s = ShadowAdapter::new(4, 3);
    let colors: Vec<Color> = (0..6).map(|i| Color::new(i, 0, 0)).collect();
    assert_eq!(s.fill_contiguous(Region::new(1, 1, 3, 2), &colors), Ok(()));
    for i in 0..6i32 {
        let x = 1 + i % 3;
        let y = 1 + i / 3;
        assert_eq!(s.pixel(x, y), Some(colors[i as usize]));
    }
    assert_eq!(s.pixel(0, 1), Some(black()));
    assert_eq!(s.pixel(0, 2), Some(black()));
    assert_eq!(s.pixel(3, 0), Some(black()));
}

#[test]
fn fill_contiguous_length_mismatch_writes_nothing() {
    let mut s = ShadowAdapter::new(4, 3);
    let short = vec![red(); 3];
    assert_eq!(s.fill_contiguous(Region::new(0, 0, 2, 2), &short), Err(AdapterError::InputMismatch));
    let long = vec![red(); 5];
    assert_eq!(s.fill_contiguous(Region::new(0, 0, 2, 2), &long), Err(AdapterError::InputMismatch));
    assert!(shadow_cells(&s).iter().all(|c| *c == Some(black())));
}

#[test]
fn fill_contiguous_out_of_bounds_before_length() {
    let mut s = ShadowAdapter::new(4, 3);
    let short = vec![red(); 1];
    assert_eq!(s.fill_contiguous(Region::new(3, 0, 2, 1), &short), Err(AdapterError::OutOfBounds));
}

#[test]
fn clear_equals_fill_of_bounds() {
    let mut a = ShadowAdapter::new(3, 3);
    let mut b = ShadowAdapter::new(3, 3);
    a.draw_pixel(1, 1, red()).unwrap();
    b.draw_pixel(1, 1, red()).unwrap();
    a.clear(green());
    let full = b.bounds();
    assert_eq!(full, Region::new(0, 0, 3, 3));
    assert_eq!(b.fill_solid(full, green()), Ok(()));
    assert_eq!(a.flush().buffer, b.flush().buffer);
    assert!(shadow_cells(&a).iter().all(|c| *c == Some(green())));
}

#[test]
fn flush_twice_gives_same_transfer() {
    let mut s = ShadowAdapter::new(2, 3);
    s.draw_pixel(1, 2, red()).unwrap();
    let first = s.flush();
    let (b1, d1, m1) = (first.buffer.to_vec(), first.dest, first.dims);
    let second = s.flush();
    assert_eq!(second.buffer, &b1[..]);
    assert_eq!(second.dest, d1);
    assert_eq!(second.dims, m1);
    assert_eq!(m1, (2, 3));
}

#[test]
fn out_of_bounds_is_rejected() {
    let mut s = ShadowAdapter::new(4, 3);
    assert_eq!(s.draw_pixel(4, 0, red()), Err(AdapterError::OutOfBounds));
    assert_eq!(s.draw_pixel(0, 3, red()), Err(AdapterError::OutOfBounds));
    assert_eq!(s.draw_pixel(-1, 0, red()), Err(AdapterError::OutOfBounds));
    assert_eq!(s.fill_solid(Region::new(0, 2, 1, 2), red()), Err(AdapterError::OutOfBounds));
    assert_eq!(s.fill_solid(Region::new(-1, 0, 1, 1), red()), Err(AdapterError::OutOfBounds));
    assert_eq!(s.fill_solid(Region::new(3, 0, u32::MAX, 1), red()), Err(AdapterError::OutOfBounds));
    assert_eq!(s.pixel(4, 0), None);
    assert!(shadow_cells(&s).iter().all(|c| *c == Some(black())));
    assert_eq!(s.draw_pixel(3, 2, red()), Ok(()));

    let d = DirectAdapter::new(4, 3);
    assert_eq!(d.draw_pixel(4, 0, red()), Err(AdapterError::OutOfBounds));
    assert_eq!(d.fill_solid(Region::new(0, 2, 1, 2), red()), Err(AdapterError::OutOfBounds));
    assert_eq!(d.fill_contiguous(Region::new(0, 2, 1, 2), &[red(), red()]), Err(AdapterError::OutOfBounds));
}

#[test]
fn shadow_two_by_two_scenario() {
    let mut s = ShadowAdapter::new(2, 2);
    s.draw_pixel(0, 0, red()).unwrap();
    s.draw_pixel(1, 1, blue()).unwrap();
    let t = s.flush();
    let want: Vec<NativePixel> = [red(), black(), black(), blue()].iter().map(|c| c.to_native()).collect();
    assert_eq!(t.buffer, &want[..]);
    assert_eq!(t.dest, (0, 0));
    assert_eq!(t.dims, (2, 2));
}

#[test]
fn direct_fill_solid_scenario() {
    let d = DirectAdapter::new(4, 4);
    let mut screen = FakeScreen::new(4, 4);
    screen.apply(d.fill_solid(Region::new(1, 1, 2, 2), green()).unwrap());
    assert_eq!(screen.fills, vec![VideoFill { pixel: green().to_native(), dest: (1, 1), dims: (2, 2) }]);
    for y in 0..4 {
        for x in 0..4 {
            let inside = (1..3).contains(&x) && (1..3).contains(&y);
            assert_eq!(screen.color(x, y), if inside { green() } else { black() });
        }
    }
}

#[test]
fn direct_fill_contiguous_builds_region_buffer() {
    let d = DirectAdapter::new(4, 4);
    let colors = [red(), green(), blue(), black(), red(), green()];
    let t = d.fill_contiguous(Region::new(1, 2, 3, 2), &colors).unwrap();
    let want: Vec<NativePixel> = colors.iter().map(|c| c.to_native()).collect();
    assert_eq!(t.buffer, want);
    assert_eq!(t.dest, (1, 2));
    assert_eq!(t.dims, (3, 2));
    assert_eq!(d.fill_contiguous(Region::new(1, 2, 3, 2), &colors[..5]).unwrap_err(), AdapterError::InputMismatch);
}

#[test]
fn direct_clear_fills_whole_screen() {
    let d = DirectAdapter::new(5, 3);
    assert_eq!(d.size(), (5, 3));
    assert_eq!(d.clear(red()), VideoFill { pixel: red().to_native(), dest: (0, 0), dims: (5, 3) });
    assert_eq!(d.fill_solid(d.bounds(), red()), Ok(d.clear(red())));
}

#[test]
fn acquisition_failure_aborts_without_adapter() {
    let s = FrameLoop::new();
    assert_eq!(s.action(), Action::Acquire);
    let (next, action) = s.step(Event::AcquisitionFailed);
    assert_eq!(next, FrameLoop::Aborted { error: AdapterError::DeviceUnavailable });
    assert_eq!(action, Action::Abort { error: AdapterError::DeviceUnavailable });
    assert!(next.is_finished());
}

#[test]
fn frame_loop_renders_until_key() {
    let (s, a) = FrameLoop::new().step(Event::Acquired);
    assert_eq!(a, Action::Render { frame: 0 });
    let (s, a) = s.step(Event::FrameEnded { result: Ok(()), key_pressed: false });
    assert_eq!(a, Action::Render { frame: 1 });
    let (s, a) = s.step(Event::FrameEnded { result: Err(AdapterError::DeviceError), key_pressed: false });
    assert_eq!(a, Action::Render { frame: 2 });
    assert!(!s.is_finished());
    let (s, a) = s.step(Event::FrameEnded { result: Ok(()), key_pressed: true });
    assert_eq!((s, a), (FrameLoop::Resetting, Action::Reset));
    assert_eq!(s.step(Event::Acquired).0, FrameLoop::Resetting);
}

#[test]
fn frame_loop_aborts_on_caller_error() {
    let s = FrameLoop::Rendering { frame: 7 };
    let (s, a) = s.step(Event::FrameEnded { result: Err(AdapterError::OutOfBounds), key_pressed: false });
    assert_eq!(s, FrameLoop::Aborted { error: AdapterError::OutOfBounds });
    assert_eq!(a, Action::Abort { error: AdapterError::OutOfBounds });
}

#[test]
fn frame_counter_wraps() {
    let s = FrameLoop::Rendering { frame: u64::MAX };
    let (_, a) = s.step(Event::FrameEnded { result: Ok(()), key_pressed: false });
    assert_eq!(a, Action::Render { frame: 0 });
}
