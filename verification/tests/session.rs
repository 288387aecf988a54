use morphology::decode::LoadError;
use morphology::image::Image;
use morphology::kernel::{Kernel, KernelError, KernelVal};
use morphology::session::{cell_color, Msg, Outcome, Session};

fn grid(kernel: &Kernel) -> Vec<KernelVal> {
    let side = kernel.get_dimension();
    let mut out = Vec::new();
    for y in 0..side {
        for x in 0..side {
            out.push(kernel.get(x, y));
        }
    }
    out
}

fn pixmap() -> Vec<u8> {
    let mut raw = Vec::new();
    for i in 0..9 {
        let v = if i == 4 {
            0
        } else if i == 8 {
            200
        } else {
            255
        };
        raw.push(v);
        raw.push(v);
        raw.push(v);
        raw.push(255);
    }
    let buffer = image::RgbaImage::from_raw(3, 3, raw).unwrap();
    let mut encoded = std::io::Cursor::new(Vec::new());
    buffer.write_to(&mut encoded, image::ImageOutputFormat::Bmp).unwrap();
    encoded.into_inner()
}

fn bytes_of(image: &Option<Image>) -> Vec<u8> {
    image.as_ref().unwrap().get_bitmap_data().clone()
}

fn white_with_black_center() -> Vec<u8> {
    let mut out = vec![255u8; 36];
    out[16] = 0;
    out[17] = 0;
    out[18] = 0;
    out
}

fn all_black() -> Vec<u8> {
    let mut out = Vec::new();
    for _ in 0..9 {
        out.push(0u8);
        out.push(0);
        out.push(0);
        out.push(255);
    }
    out
}

#[test]
fn a_new_session_has_a_flat_kernel_of_side_three_and_no_image() {
    let session = Session::new();
    assert!(!session.is_loading());
    assert!(session.image().is_none());
    assert!(session.original_image().is_none());
    assert_eq!(session.kernel().get_dimension(), 3);
    assert_eq!(grid(session.kernel()), vec![KernelVal::One; 9]);
    assert_eq!(session.canvas_size(), (0, 0));
}

#[test]
fn picking_a_file_starts_loading() {
    let mut session = Session::new();
    assert_eq!(session.update(Msg::FileUpload), Outcome::Redraw);
    assert!(session.is_loading());
    assert!(session.image().is_none());
    assert_eq!(grid(session.kernel()), vec![KernelVal::One; 9]);
}

#[test]
fn a_loaded_file_becomes_the_original_and_the_current_image() {
    let mut session = Session::new();
    session.update(Msg::FileUpload);
    assert_eq!(session.update(Msg::FileLoaded(pixmap())), Outcome::Redraw);
    assert!(!session.is_loading());
    assert_eq!(bytes_of(session.image()), white_with_black_center());
    assert_eq!(bytes_of(session.original_image()), white_with_black_center());
    assert_eq!(session.canvas_size(), (3, 3));
}

#[test]
fn a_file_that_is_no_image_fails_the_load_and_keeps_the_images() {
    let mut session = Session::new();
    session.update(Msg::FileLoaded(pixmap()));
    session.update(Msg::Erode);
    session.update(Msg::FileUpload);
    assert_eq!(
        session.update(Msg::FileLoaded(b"nothing to see".to_vec())),
        Outcome::LoadFailed(LoadError::DecodeFailure)
    );
    assert!(!session.is_loading());
    assert_eq!(bytes_of(session.image()), all_black());
    assert_eq!(bytes_of(session.original_image()), white_with_black_center());
    let mut fresh = Session::new();
    assert_eq!(
        fresh.update(Msg::FileLoaded(Vec::new())),
        Outcome::LoadFailed(LoadError::DecodeFailure)
    );
    assert!(fresh.image().is_none());
    assert!(fresh.original_image().is_none());
}

#[test]
fn finish_load_takes_the_result_of_a_load() {
    let mut session = Session::new();
    session.update(Msg::FileUpload);
    let image = Image::from_rgba8(vec![255; 8], 1, 2).unwrap();
    assert_eq!(session.finish_load(Ok(image)), Outcome::Redraw);
    assert!(!session.is_loading());
    assert_eq!(bytes_of(session.image()), vec![255u8; 8]);
    assert_eq!(bytes_of(session.original_image()), vec![255u8; 8]);
    assert_eq!(session.canvas_size(), (1, 2));
    session.update(Msg::FileUpload);
    assert_eq!(
        session.finish_load(Err(LoadError::DecodeFailure)),
        Outcome::LoadFailed(LoadError::DecodeFailure)
    );
    assert!(!session.is_loading());
    assert_eq!(bytes_of(session.image()), vec![255u8; 8]);
}

#[test]
fn operations_change_the_current_image_only() {
    let mut session = Session::new();
    session.update(Msg::FileLoaded(pixmap()));
    assert_eq!(session.update(Msg::Erode), Outcome::Redraw);
    assert_eq!(bytes_of(session.image()), all_black());
    assert_eq!(bytes_of(session.original_image()), white_with_black_center());
    assert_eq!(session.update(Msg::Dilate), Outcome::Redraw);
    assert_eq!(bytes_of(session.image()), all_black());
    assert_eq!(grid(session.kernel()), vec![KernelVal::One; 9]);
}

#[test]
fn each_operation_is_the_one_of_its_name() {
    let start = Image::new_with_data(pixmap()).map_err(|_| ()).unwrap();
    let mut kernel = Kernel::new();
    kernel.change_dimension(3).unwrap();
    kernel.set(0, 1, KernelVal::Zero);
    kernel.set(2, 2, KernelVal::DontCare);
    let mut base = Session::new();
    base.update(Msg::FileLoaded(pixmap()));
    base.update(Msg::ToggleKernel(0, 1, false));
    base.update(Msg::ToggleKernelDontCare(2, 2));
    assert_eq!(grid(base.kernel()), grid(&kernel));

    let mut session = Session::new();
    session.update(Msg::FileLoaded(pixmap()));
    session.update(Msg::ToggleKernel(0, 1, false));
    session.update(Msg::ToggleKernelDontCare(2, 2));
    session.update(Msg::Dilate);
    assert_eq!(&bytes_of(session.image()), start.dilate(kernel.clone()).get_bitmap_data());

    let mut session = Session::new();
    session.update(Msg::FileLoaded(pixmap()));
    session.update(Msg::ToggleKernel(0, 1, false));
    session.update(Msg::ToggleKernelDontCare(2, 2));
    session.update(Msg::Erode);
    assert_eq!(&bytes_of(session.image()), start.erode(kernel.clone()).get_bitmap_data());

    let mut session = Session::new();
    session.update(Msg::FileLoaded(pixmap()));
    session.update(Msg::ToggleKernel(0, 1, false));
    session.update(Msg::ToggleKernelDontCare(2, 2));
    session.update(Msg::Open);
    assert_eq!(&bytes_of(session.image()), start.open(kernel.clone()).get_bitmap_data());
    assert_eq!(bytes_of(session.image()), all_black());

    let mut session = Session::new();
    session.update(Msg::FileLoaded(pixmap()));
    session.update(Msg::ToggleKernel(0, 1, false));
    session.update(Msg::ToggleKernelDontCare(2, 2));
    session.update(Msg::Close);
    assert_eq!(&bytes_of(session.image()), start.close(kernel.clone()).get_bitmap_data());
    assert_eq!(bytes_of(session.image()), vec![255u8; 36]);

    let mut session = Session::new();
    session.update(Msg::FileLoaded(pixmap()));
    session.update(Msg::ToggleKernel(0, 1, false));
    session.update(Msg::ToggleKernelDontCare(2, 2));
    session.update(Msg::HitAndMiss);
    assert_eq!(&bytes_of(session.image()), start.hit_or_miss(kernel.clone()).get_bitmap_data());

    let mut session = Session::new();
    session.update(Msg::FileLoaded(pixmap()));
    session.update(Msg::ToggleKernel(0, 1, false));
    session.update(Msg::ToggleKernelDontCare(2, 2));
    session.update(Msg::Thinning);
    assert_eq!(&bytes_of(session.image()), start.thinning(kernel.clone()).get_bitmap_data());

    let mut session = Session::new();
    session.update(Msg::FileLoaded(pixmap()));
    session.update(Msg::ToggleKernel(0, 1, false));
    session.update(Msg::ToggleKernelDontCare(2, 2));
    session.update(Msg::Thickening);
    assert_eq!(&bytes_of(session.image()), start.thickening(kernel).get_bitmap_data());
}

#[test]
fn operations_chain() {
    let mut session = Session::new();
    session.update(Msg::FileLoaded(pixmap()));
    session.update(Msg::ToggleKernelDontCare(0, 0));
    session.update(Msg::ToggleKernelDontCare(1, 0));
    session.update(Msg::ToggleKernelDontCare(2, 0));
    session.update(Msg::ToggleKernelDontCare(0, 1));
    session.update(Msg::ToggleKernelDontCare(2, 1));
    session.update(Msg::ToggleKernelDontCare(0, 2));
    session.update(Msg::ToggleKernelDontCare(1, 2));
    session.update(Msg::ToggleKernelDontCare(2, 2));
    session.update(Msg::ToggleKernel(1, 1, false));
    // The kernel now wants black under its center and nothing else.
    session.update(Msg::Thickening);
    assert_eq!(bytes_of(session.image()), vec![255u8; 36]);
    session.update(Msg::HitAndMiss);
    assert_eq!(bytes_of(session.image()), all_black());
    session.update(Msg::Thickening);
    assert_eq!(bytes_of(session.image()), vec![255u8; 36]);
    assert_eq!(bytes_of(session.original_image()), white_with_black_center());
}

#[test]
fn operations_without_an_image_do_nothing() {
    for msg in [
        Msg::Dilate,
        Msg::Erode,
        Msg::Open,
        Msg::Close,
        Msg::HitAndMiss,
        Msg::Thinning,
        Msg::Thickening,
    ] {
        let mut session = Session::new();
        assert_eq!(session.update(msg), Outcome::Redraw);
        assert!(session.image().is_none());
        assert!(session.original_image().is_none());
        assert!(!session.is_loading());
        assert_eq!(grid(session.kernel()), vec![KernelVal::One; 9]);
    }
}

#[test]
fn a_new_radius_resets_the_kernel() {
    let mut session = Session::new();
    session.update(Msg::ToggleKernel(1, 1, false));
    assert_eq!(session.update(Msg::RadiusChanged(5)), Outcome::Redraw);
    assert_eq!(session.kernel().get_dimension(), 5);
    assert_eq!(grid(session.kernel()), vec![KernelVal::One; 25]);
}

#[test]
fn an_even_radius_is_refused_and_the_kernel_stays() {
    let mut session = Session::new();
    session.update(Msg::ToggleKernel(1, 1, false));
    session.update(Msg::ToggleKernelDontCare(2, 0));
    let before = grid(session.kernel());
    assert_eq!(
        session.update(Msg::RadiusChanged(4)),
        Outcome::KernelRefused(KernelError::InvalidArgument)
    );
    assert_eq!(session.kernel().get_dimension(), 3);
    assert_eq!(grid(session.kernel()), before);
    assert_eq!(
        session.update(Msg::RadiusChanged(0)),
        Outcome::KernelRefused(KernelError::InvalidArgument)
    );
    assert_eq!(grid(session.kernel()), before);
}

#[test]
fn a_click_toggles_between_foreground_and_background() {
    let mut session = Session::new();
    assert_eq!(session.update(Msg::ToggleKernel(2, 1, false)), Outcome::Redraw);
    assert_eq!(session.kernel().get(2, 1), KernelVal::Zero);
    assert_eq!(session.kernel().get(1, 2), KernelVal::One);
    session.update(Msg::ToggleKernel(2, 1, true));
    assert_eq!(session.kernel().get(2, 1), KernelVal::One);
    assert_eq!(grid(session.kernel()), vec![KernelVal::One; 9]);
}

#[test]
fn striking_out_sets_dont_care_and_a_click_brings_foreground_back() {
    let mut session = Session::new();
    assert_eq!(session.update(Msg::ToggleKernelDontCare(0, 2)), Outcome::Redraw);
    assert_eq!(session.kernel().get(0, 2), KernelVal::DontCare);
    session.update(Msg::ToggleKernelDontCare(0, 2));
    assert_eq!(session.kernel().get(0, 2), KernelVal::DontCare);
    session.update(Msg::ToggleKernel(0, 2, false));
    assert_eq!(session.kernel().get(0, 2), KernelVal::One);
    session.update(Msg::ToggleKernel(0, 2, false));
    session.update(Msg::ToggleKernelDontCare(0, 2));
    assert_eq!(session.kernel().get(0, 2), KernelVal::DontCare);
}

#[test]
fn accepts_tells_which_messages_can_be_taken() {
    let session = Session::new();
    assert!(session.accepts(&Msg::ToggleKernel(2, 2, false)));
    assert!(!session.accepts(&Msg::ToggleKernel(3, 0, false)));
    assert!(!session.accepts(&Msg::ToggleKernel(0, 3, true)));
    assert!(session.accepts(&Msg::ToggleKernelDontCare(0, 0)));
    assert!(!session.accepts(&Msg::ToggleKernelDontCare(3, 3)));
    assert!(!session.accepts(&Msg::ToggleKernelDontCare(4294967295, 0)));
    assert!(session.accepts(&Msg::RadiusChanged(0)));
    assert!(session.accepts(&Msg::RadiusChanged(4)));
    assert!(session.accepts(&Msg::RadiusChanged(25)));
    assert!(session.accepts(&Msg::RadiusChanged(65535)));
    assert!(session.accepts(&Msg::RadiusChanged(4294967294)));
    assert!(session.accepts(&Msg::FileUpload));
    assert!(session.accepts(&Msg::FileLoaded(Vec::new())));
    assert!(session.accepts(&Msg::Dilate));
    assert!(session.accepts(&Msg::Thickening));
}

#[test]
fn cells_are_shown_in_three_colors() {
    assert_eq!(cell_color(KernelVal::One), "black");
    assert_eq!(cell_color(KernelVal::Zero), "white");
    assert_eq!(cell_color(KernelVal::DontCare), "red");
}
