//! An editing session: the raster as loaded, the raster as it stands, and
//! the structuring element, driven one message at a time.

use crate::decode::{load_of, LoadError};
use crate::image::{Image, ImageView};
use crate::kernel::{Kernel, KernelError, KernelVal, KernelView};
use vstd::prelude::*;

verus! {

/// What the user did, or what the shell around the session got done.
pub enum Msg {
    /// A file was picked; its bytes are on their way.
    FileUpload,
    /// The bytes of the picked file have arrived.
    FileLoaded(Vec<u8>),
    /// A new side length for the structuring element was entered.
    RadiusChanged(u32),
    /// Dilate the current raster by the structuring element.
    Dilate,
    /// Erode the current raster by the structuring element.
    Erode,
    /// Open the current raster by the flat element of the kernel's size.
    Open,
    /// Close the current raster by the flat element of the kernel's size.
    Close,
    /// Replace the current raster by its raster of matches.
    HitAndMiss,
    /// Thin the current raster where the structuring element matches.
    Thinning,
    /// Thicken the current raster where the structuring element matches.
    Thickening,
    /// The cell in the given column and row was clicked.
    ToggleKernel(u32, u32, bool),
    /// The cell in the given column and row was struck out.
    ToggleKernelDontCare(u32, u32),
}

/// How a message ended.
#[derive(Clone, Copy, Debug, PartialEq, Eq, Structural)]
pub enum Outcome {
    /// The message was taken in; the state is to be shown again.
    Redraw,
    /// The structuring element refused the new side length.
    KernelRefused(KernelError),
    /// The file could not be made into a raster.
    LoadFailed(LoadError),
}

/// The mathematical content of a session.
pub struct SessionView {
    pub is_loading: bool,
    pub original_image: Option<ImageView>,
    pub image: Option<ImageView>,
    pub kernel: KernelView,
}

impl SessionView {
    /// The cell that a click makes of `val`: background of foreground,
    /// foreground of anything else.
    pub open spec fn toggled(val: KernelVal) -> KernelVal {
        if val == KernelVal::One {
            KernelVal::Zero
        } else {
            KernelVal::One
        }
    }

    /// The session with `image` as its current raster, where it has one.
    pub open spec fn with_image(self, image: ImageView) -> SessionView {
        if self.image.is_some() {
            SessionView { image: Some(image), ..self }
        } else {
            self
        }
    }

    /// The session after a load that ended as `result`: a raster becomes
    /// both the original and the current one; a failure leaves both alone.
    pub open spec fn finish_load(self, result: Option<ImageView>) -> SessionView {
        match result {
            Some(image) => SessionView {
                is_loading: false,
                original_image: Some(image),
                image: Some(image),
                kernel: self.kernel,
            },
            None => SessionView { is_loading: false, ..self },
        }
    }

    /// The session after `msg`.
    pub open spec fn update(self, msg: Msg) -> SessionView {
        match msg {
            Msg::FileUpload => SessionView { is_loading: true, ..self },
            Msg::FileLoaded(data) => self.finish_load(load_of(data@)),
            Msg::RadiusChanged(value) => if value % 2 == 1 {
                SessionView { kernel: KernelView::full(value as nat), ..self }
            } else {
                self
            },
            Msg::Dilate => self.with_image(self.image.unwrap().dilate(self.kernel)),
            Msg::Erode => self.with_image(self.image.unwrap().erode(self.kernel)),
            Msg::Open => self.with_image(self.image.unwrap().open(self.kernel)),
            Msg::Close => self.with_image(self.image.unwrap().close(self.kernel)),
            Msg::HitAndMiss => self.with_image(self.image.unwrap().hit_or_miss(self.kernel)),
            Msg::Thinning => self.with_image(self.image.unwrap().thinning(self.kernel)),
            Msg::Thickening => self.with_image(self.image.unwrap().thickening(self.kernel)),
            Msg::ToggleKernel(x, y, _) => SessionView {
                kernel: self.kernel.set(
                    x as int,
                    y as int,
                    Self::toggled(self.kernel.get(x as int, y as int)),
                ),
                ..self
            },
            Msg::ToggleKernelDontCare(x, y) => SessionView {
                kernel: self.kernel.set(x as int, y as int, KernelVal::DontCare),
                ..self
            },
        }
    }

    /// How `msg` ends.
    pub open spec fn outcome(self, msg: Msg) -> Outcome {
        match msg {
            Msg::FileLoaded(data) => if load_of(data@).is_some() {
                Outcome::Redraw
            } else {
                Outcome::LoadFailed(LoadError::DecodeFailure)
            },
            Msg::RadiusChanged(value) => if value % 2 == 1 {
                Outcome::Redraw
            } else {
                Outcome::KernelRefused(KernelError::InvalidArgument)
            },
            _ => Outcome::Redraw,
        }
    }

    /// Whether the structuring element is well formed and every raster of
    /// the session is well formed and shows only opaque black and white.
    pub open spec fn settled(self) -> bool {
        &&& self.kernel.wf()
        &&& self.image matches Some(image) ==> image.wf() && image.binary()
        &&& self.original_image matches Some(image) ==> image.wf() && image.binary()
    }

    /// Whether the session can take `msg`: a cell that a message names must
    /// exist.
    pub open spec fn accepts(self, msg: Msg) -> bool {
        match msg {
            Msg::ToggleKernel(x, y, _) => self.kernel.contains(x as int, y as int),
            Msg::ToggleKernelDontCare(x, y) => self.kernel.contains(x as int, y as int),
            _ => true,
        }
    }
}

/// The color in which a cell of the structuring element is shown.
pub open spec fn spec_cell_color(val: KernelVal) -> Seq<char> {
    match val {
        KernelVal::One => "black"@,
        KernelVal::Zero => "white"@,
        KernelVal::DontCare => "red"@,
    }
}

/// The color in which a cell of the structuring element is shown: black for
/// foreground, white for background, red for a cell that does not care.
pub fn cell_color(val: KernelVal) -> (color: &'static str)
    ensures
        color@ == spec_cell_color(val),
{
    match val {
        KernelVal::One => "black",
        KernelVal::Zero => "white",
        KernelVal::DontCare => "red",
    }
}

/// An editing session.
pub struct Session {
    is_loading: bool,
    original_image: Option<Image>,
    image: Option<Image>,
    kernel: Kernel,
}

/// The content of a raster that may be missing.
pub open spec fn view_of(image: Option<Image>) -> Option<ImageView> {
    match image {
        Some(image) => Some(image@),
        None => None,
    }
}

impl View for Session {
    type V = SessionView;

    closed spec fn view(&self) -> SessionView {
        SessionView {
            is_loading: self.is_loading,
            original_image: view_of(self.original_image),
            image: view_of(self.image),
            kernel: self.kernel@,
        }
    }
}

impl Session {
    /// A session with no raster and the flat element of side three.
    pub fn new() -> (session: Session)
        ensures
            session@ == (SessionView {
                is_loading: false,
                original_image: None,
                image: None,
                kernel: KernelView::full(3),
            }),
    {
        let mut kernel = Kernel::new();
        kernel.change_dimension(3).unwrap();
        Session { is_loading: false, original_image: None, image: None, kernel }
    }

    /// Whether the bytes of a picked file are still awaited.
    pub fn is_loading(&self) -> (loading: bool)
        ensures
            loading == self@.is_loading,
    {
        self.is_loading
    }

    /// The raster as it was loaded.
    pub fn original_image(&self) -> (image: &Option<Image>)
        ensures
            view_of(*image) == self@.original_image,
    {
        &self.original_image
    }

    /// The raster as it stands.
    pub fn image(&self) -> (image: &Option<Image>)
        ensures
            view_of(*image) == self@.image,
    {
        &self.image
    }

    /// The structuring element.
    pub fn kernel(&self) -> (kernel: &Kernel)
        ensures
            kernel@ == self@.kernel,
    {
        &self.kernel
    }

    /// The size of the surface that shows the current raster: the raster's
    /// width and height, or nothing by nothing while there is no raster.
    pub fn canvas_size(&self) -> (size: (u32, u32))
        ensures
            match self@.image {
                Some(image) => size.0 == image.width && size.1 == image.height,
                None => size == (0u32, 0u32),
            },
    {
        match &self.image {
            Some(image) => (image.get_width(), image.get_height()),
            None => (0, 0),
        }
    }

    /// Whether `update` can take `msg`.
    pub fn accepts(&self, msg: &Msg) -> (ok: bool)
        ensures
            ok == self@.accepts(*msg),
    {
        let side = self.kernel.get_dimension();
        match msg {
            Msg::ToggleKernel(x, y, _) => *x < side && *y < side,
            Msg::ToggleKernelDontCare(x, y) => *x < side && *y < side,
            _ => true,
        }
    }

    /// Ends a load with what came of it: a raster becomes both the original
    /// and the current one; a failure leaves both as they were.
    pub fn finish_load(&mut self, result: Result<Image, LoadError>) -> (outcome: Outcome)
        ensures
            final(self)@ == old(self)@.finish_load(
                match result {
                    Ok(image) => Some(image@),
                    Err(_) => None,
                },
            ),
            outcome == match result {
                Ok(_) => Outcome::Redraw,
                Err(error) => Outcome::LoadFailed(error),
            },
    {
        self.is_loading = false;
        match result {
            Ok(image) => {
                self.image = Some(image.clone());
                self.original_image = Some(image);
                Outcome::Redraw
            },
            Err(error) => Outcome::LoadFailed(error),
        }
    }

    /// Takes in one message.
    pub fn update(&mut self, msg: Msg) -> (outcome: Outcome)
        requires
            old(self)@.accepts(msg),
        ensures
            final(self)@ == old(self)@.update(msg),
            outcome == old(self)@.outcome(msg),
    {
        match msg {
            Msg::FileUpload => {
                self.is_loading = true;
                Outcome::Redraw
            },
            Msg::FileLoaded(data) => self.finish_load(Image::new_with_data(data)),
            Msg::RadiusChanged(value) => {
                match self.kernel.change_dimension(value) {
                    Ok(()) => Outcome::Redraw,
                    Err(error) => Outcome::KernelRefused(error),
                }
            },
            Msg::Dilate => {
                if let Some(image) = &self.image {
                    self.image = Some(image.dilate(self.kernel.clone()));
                }
                Outcome::Redraw
            },
            Msg::Erode => {
                if let Some(image) = &self.image {
                    self.image = Some(image.erode(self.kernel.clone()));
                }
                Outcome::Redraw
            },
            Msg::Open => {
                if let Some(image) = &self.image {
                    self.image = Some(image.open(self.kernel.clone()));
                }
                Outcome::Redraw
            },
            Msg::Close => {
                if let Some(image) = &self.image {
                    self.image = Some(image.close(self.kernel.clone()));
                }
                Outcome::Redraw
            },
            Msg::HitAndMiss => {
                if let Some(image) = &self.image {
                    self.image = Some(image.hit_or_miss(self.kernel.clone()));
                }
                Outcome::Redraw
            },
            Msg::Thinning => {
                if let Some(image) = &self.image {
                    self.image = Some(image.thinning(self.kernel.clone()));
                }
                Outcome::Redraw
            },
            Msg::Thickening => {
                if let Some(image) = &self.image {
                    self.image = Some(image.thickening(self.kernel.clone()));
                }
                Outcome::Redraw
            },
            Msg::ToggleKernel(x, y, _) => {
                let current = self.kernel.get(x, y);
                if current == KernelVal::One {
                    self.kernel.set(x, y, KernelVal::Zero);
                } else {
                    self.kernel.set(x, y, KernelVal::One);
                }
                Outcome::Redraw
            },
            Msg::ToggleKernelDontCare(x, y) => {
                self.kernel.set(x, y, KernelVal::DontCare);
                Outcome::Redraw
            },
        }
    }
}

} // verus!
