//! The render side: the overlay window's state and what one tick does to it.
//!
//! The window starts click-through and stays so while the GUI wants no input;
//! it takes input for as long as the GUI asks for the pointer or the keyboard.
//! This is decided anew on every tick. A tick also takes at most one frame off
//! the relay. A frame that decodes replaces the picture on display; one that
//! does not is skipped and the picture stays.

use crate::frame::Frame;
use crate::relay::FrameRelay;
use egui_extras::image::RetainedImage;
use vstd::prelude::*;

verus! {

/// Opacity of a fully opaque window, in percent.
pub const FULL_OPACITY: u8 = 100;

/// Width and height of a decoded image in pixels.
#[derive(Debug, Clone, Copy, PartialEq, Eq, Structural)]
pub struct ImageSize {
    pub width: usize,
    pub height: usize,
}

/// Whether the window takes input or lets it through.
#[derive(Debug, Clone, Copy, PartialEq, Eq, Structural)]
pub enum PassthroughMode {
    /// The window intercepts pointer and keyboard input.
    Interactive,
    /// Input falls through to whatever lies beneath the window.
    Passive,
}

/// What the GUI layer reports on a tick.
#[derive(Debug, Clone, Copy, PartialEq, Eq, Structural)]
pub struct GuiWants {
    /// The GUI wants pointer input, as when the cursor hovers a widget.
    pub pointer: bool,
    /// The GUI wants keyboard input.
    pub keyboard: bool,
}

/// How large the picture is drawn.
#[derive(Debug, Clone, Copy, PartialEq, Eq, Structural)]
pub enum ImageSizing {
    /// At the layout's own width and height.
    Fixed,
    /// At the picture's size in pixels.
    Natural,
}

/// Where the picture goes. These are matters of presentation; no client has a
/// say in them.
#[derive(Debug, Clone, Copy, PartialEq, Eq, Structural)]
pub struct Layout {
    pub x: usize,
    pub y: usize,
    pub width: usize,
    pub height: usize,
    pub sizing: ImageSizing,
}

/// A rectangle to draw the picture into.
#[derive(Debug, Clone, Copy, PartialEq, Eq, Structural)]
pub struct DrawImage {
    pub x: usize,
    pub y: usize,
    pub width: usize,
    pub height: usize,
}

/// How the window is set up when it is created. Nothing here changes later.
#[derive(Debug, Clone, Copy, PartialEq, Eq, Structural)]
pub struct WindowConfig {
    pub decorated: bool,
    pub collapsible: bool,
    pub title_bar: bool,
    pub transparent_background: bool,
    pub shadow: bool,
    pub border: bool,
    pub opacity_percent: u8,
    pub maximized: bool,
    pub always_on_top: bool,
}

/// What the render loop is told on a tick.
#[derive(Debug, Clone, Copy, PartialEq, Eq, Structural)]
pub struct TickInput {
    pub wants: GuiWants,
    /// The overlay has been asked to shut down.
    pub stop_requested: bool,
}

/// What the window system is to do after a tick.
#[derive(Debug, Clone, Copy, PartialEq, Eq, Structural)]
pub struct TickPlan {
    /// Close the window and end the loop.
    pub close: bool,
    /// The pass-through flag to set on the window.
    pub mouse_passthrough: bool,
    /// The picture was replaced on this tick and has to be uploaded again.
    pub frame_changed: bool,
    /// Where to draw the picture, if there is one.
    pub draw: Option<DrawImage>,
}

/// The window as the render loop knows it.
pub struct WindowView {
    pub decorated: bool,
    pub opacity_percent: u8,
    pub mouse_passthrough: bool,
    pub displayed_frame: Option<Seq<u8>>,
    pub image_size: Option<ImageSize>,
    pub layout: Layout,
}

/// The pass-through flag that goes with what the GUI wants: input is let
/// through exactly when the GUI wants neither pointer nor keyboard.
pub open spec fn passthrough_for(wants: GuiWants) -> bool {
    !(wants.pointer || wants.keyboard)
}

/// The size of the image that `bytes` decode to, as `(width, height)`, or
/// `None` if they are no image that the decoder knows.
pub uninterp spec fn image_dimensions(bytes: Seq<u8>) -> Option<(usize, usize)>;

/// The natural size of the picture in `frame`, if it is one.
pub open spec fn natural_size(frame: Seq<u8>) -> Option<ImageSize> {
    match image_dimensions(frame) {
        Some((width, height)) => Some(ImageSize { width, height }),
        None => None,
    }
}

/// Whether a tick that finds `incoming` on the relay replaces the picture.
pub open spec fn replaces_picture(incoming: Option<Seq<u8>>) -> bool {
    incoming matches Some(frame) && natural_size(frame) is Some
}

impl Layout {
    /// The rectangle in which a picture of size `natural` is drawn.
    pub open spec fn place(self, natural: ImageSize) -> DrawImage {
        match self.sizing {
            ImageSizing::Fixed => DrawImage {
                x: self.x,
                y: self.y,
                width: self.width,
                height: self.height,
            },
            ImageSizing::Natural => DrawImage {
                x: self.x,
                y: self.y,
                width: natural.width,
                height: natural.height,
            },
        }
    }
}

impl WindowView {
    /// The window as it is created: undecorated, opaque, click-through,
    /// showing nothing.
    pub open spec fn initial(layout: Layout) -> WindowView {
        WindowView {
            decorated: false,
            opacity_percent: FULL_OPACITY,
            mouse_passthrough: true,
            displayed_frame: None,
            image_size: None,
            layout,
        }
    }

    /// Opacity is a percentage, and a picture on display has a size.
    pub open spec fn wf(self) -> bool {
        &&& self.opacity_percent <= FULL_OPACITY
        &&& self.displayed_frame is Some <==> self.image_size is Some
    }

    /// The state of the pass-through machine.
    pub open spec fn mode(self) -> PassthroughMode {
        if self.mouse_passthrough {
            PassthroughMode::Passive
        } else {
            PassthroughMode::Interactive
        }
    }

    /// The window after `frame` was offered together with the outcome of
    /// decoding it: with a size the frame becomes the picture, without one the
    /// window stays as it is.
    pub open spec fn present(self, frame: Seq<u8>, size: Option<ImageSize>) -> WindowView {
        match size {
            Some(_) => WindowView { displayed_frame: Some(frame), image_size: size, ..self },
            None => self,
        }
    }

    /// The window after the GUI's wants were taken into account.
    pub open spec fn poll_input(self, wants: GuiWants) -> WindowView {
        WindowView { mouse_passthrough: passthrough_for(wants), ..self }
    }

    /// The window after a tick that found `incoming` on the relay.
    pub open spec fn tick(self, incoming: Option<Seq<u8>>, wants: GuiWants) -> WindowView {
        match incoming {
            Some(frame) => self.present(frame, natural_size(frame)).poll_input(wants),
            None => self.poll_input(wants),
        }
    }

    /// What is to be done after a tick that left the window in this state.
    pub open spec fn plan(self, frame_changed: bool) -> TickPlan {
        TickPlan {
            close: false,
            mouse_passthrough: self.mouse_passthrough,
            frame_changed,
            draw: match self.image_size {
                Some(size) => Some(self.layout.place(size)),
                None => None,
            },
        }
    }

    /// What is to be done on a tick that found a stop request.
    pub open spec fn closing_plan(self) -> TickPlan {
        TickPlan { close: true, frame_changed: false, ..self.plan(false) }
    }
}

/// The overlay window's state. Only the render loop changes it, once per tick.
pub struct OverlayWindowState {
    decorated: bool,
    opacity_percent: u8,
    mouse_passthrough: bool,
    displayed_frame: Option<Frame>,
    image_size: Option<ImageSize>,
    layout: Layout,
}

impl View for OverlayWindowState {
    type V = WindowView;

    closed spec fn view(&self) -> WindowView {
        WindowView {
            decorated: self.decorated,
            opacity_percent: self.opacity_percent,
            mouse_passthrough: self.mouse_passthrough,
            displayed_frame: match self.displayed_frame {
                Some(frame) => Some(frame@),
                None => None,
            },
            image_size: self.image_size,
            layout: self.layout,
        }
    }
}

/// The overlay's content: the title of its window and the encoded picture it
/// shows. `overlay` is empty until a first frame has been taken on.
#[derive(Debug, Clone, PartialEq, Eq)]
pub struct JobGauge {
    pub text: String,
    pub overlay: Vec<u8>,
}

impl Layout {
    /// The picture at (200, 200), drawn 177 by 112.
    pub fn standard() -> (layout: Layout)
        ensures
            layout == (Layout { x: 200, y: 200, width: 177, height: 112, sizing: ImageSizing::Fixed }),
    {
        Layout { x: 200, y: 200, width: 177, height: 112, sizing: ImageSizing::Fixed }
    }

    /// The picture at (200, 200), drawn at its own size.
    pub fn natural() -> (layout: Layout)
        ensures
            layout == (Layout {
                x: 200,
                y: 200,
                width: 177,
                height: 112,
                sizing: ImageSizing::Natural,
            }),
    {
        Layout { x: 200, y: 200, width: 177, height: 112, sizing: ImageSizing::Natural }
    }

    /// The rectangle in which a picture of size `natural` is drawn.
    pub fn rectangle(&self, natural: ImageSize) -> (r: DrawImage)
        ensures
            r == self.place(natural),
    {
        match self.sizing {
            ImageSizing::Fixed => DrawImage {
                x: self.x,
                y: self.y,
                width: self.width,
                height: self.height,
            },
            ImageSizing::Natural => DrawImage {
                x: self.x,
                y: self.y,
                width: natural.width,
                height: natural.height,
            },
        }
    }
}

impl WindowConfig {
    /// The overlay's window: no decoration, no title bar, not collapsible,
    /// transparent background, no shadow, no border, fully opaque content,
    /// maximized so that every spot on the screen can be drawn on, and above
    /// all other windows.
    pub fn overlay() -> (config: WindowConfig)
        ensures
            config == (WindowConfig {
                decorated: false,
                collapsible: false,
                title_bar: false,
                transparent_background: true,
                shadow: false,
                border: false,
                opacity_percent: FULL_OPACITY,
                maximized: true,
                always_on_top: true,
            }),
    {
        WindowConfig {
            decorated: false,
            collapsible: false,
            title_bar: false,
            transparent_background: true,
            shadow: false,
            border: false,
            opacity_percent: FULL_OPACITY,
            maximized: true,
            always_on_top: true,
        }
    }
}

/// Decodes image bytes with `egui_extras::image::RetainedImage::from_image_bytes`
/// and reads the size off the result.
///
/// Trusted: whether that function accepts the bytes, and the width and height
/// of the image it returns, depend on the bytes alone.
#[verifier::external_body]
fn probe_image(bytes: &Vec<u8>) -> (size: Option<(usize, usize)>)
    ensures
        size == image_dimensions(bytes@),
{
    match RetainedImage::from_image_bytes("overlay", bytes.as_slice()) {
        Ok(image) => Some((image.width(), image.height())),
        Err(_) => None,
    }
}

/// Decodes `frame` far enough to tell whether it is a picture, and how large.
pub fn decode_size(frame: &Frame) -> (size: Option<ImageSize>)
    ensures
        size == natural_size(frame@),
{
    match probe_image(frame.as_bytes()) {
        Some((width, height)) => Some(ImageSize { width, height }),
        None => None,
    }
}

impl OverlayWindowState {
    /// The window as it is created: undecorated, opaque, click-through,
    /// showing nothing.
    pub fn new(layout: Layout) -> (window: OverlayWindowState)
        ensures
            window@ == WindowView::initial(layout),
            window@.wf(),
            window@.mode() == PassthroughMode::Passive,
    {
        OverlayWindowState {
            decorated: false,
            opacity_percent: FULL_OPACITY,
            mouse_passthrough: true,
            displayed_frame: None,
            image_size: None,
            layout,
        }
    }

    /// Offers `frame` together with the outcome of decoding it. With a size
    /// the frame becomes the picture on display; without one it is dropped and
    /// the window stays as it is. Returns whether the picture was replaced.
    pub fn present(&mut self, frame: Frame, size: Option<ImageSize>) -> (replaced: bool)
        ensures
            final(self)@ == old(self)@.present(frame@, size),
            replaced == size is Some,
    {
        match size {
            Some(_) => {
                self.displayed_frame = Some(frame);
                self.image_size = size;
                true
            },
            None => false,
        }
    }

    /// Sets the pass-through flag from what the GUI wants on this tick.
    pub fn poll_input(&mut self, wants: GuiWants)
        ensures
            final(self)@ == old(self)@.poll_input(wants),
    {
        self.mouse_passthrough = !(wants.pointer || wants.keyboard);
    }

    /// What the window system is to do after a tick.
    pub fn plan(&self, frame_changed: bool) -> (plan: TickPlan)
        ensures
            plan == self@.plan(frame_changed),
    {
        TickPlan {
            close: false,
            mouse_passthrough: self.mouse_passthrough,
            frame_changed,
            draw: match self.image_size {
                Some(size) => Some(self.layout.rectangle(size)),
                None => None,
            },
        }
    }

    /// Whether the window has a frame around it.
    pub fn decorated(&self) -> (decorated: bool)
        ensures
            decorated == self@.decorated,
    {
        self.decorated
    }

    /// Opacity of the window in percent.
    pub fn opacity_percent(&self) -> (percent: u8)
        ensures
            percent == self@.opacity_percent,
    {
        self.opacity_percent
    }

    /// Whether input falls through the window.
    pub fn mouse_passthrough(&self) -> (passthrough: bool)
        ensures
            passthrough == self@.mouse_passthrough,
    {
        self.mouse_passthrough
    }

    /// The state of the pass-through machine.
    pub fn mode(&self) -> (mode: PassthroughMode)
        ensures
            mode == self@.mode(),
    {
        if self.mouse_passthrough {
            PassthroughMode::Passive
        } else {
            PassthroughMode::Interactive
        }
    }

    /// The frame on display, if any.
    pub fn displayed_frame(&self) -> (frame: Option<&Frame>)
        ensures
            match frame {
                Some(f) => self@.displayed_frame == Some(f@),
                None => self@.displayed_frame is None,
            },
    {
        self.displayed_frame.as_ref()
    }

    /// The size in pixels of the picture on display, if any.
    pub fn image_size(&self) -> (size: Option<ImageSize>)
        ensures
            size == self@.image_size,
    {
        self.image_size
    }

    /// Where the picture goes.
    pub fn layout(&self) -> (layout: Layout)
        ensures
            layout == self@.layout,
    {
        self.layout
    }
}

impl JobGauge {
    /// A gauge with the given window title and picture.
    pub fn new(text: String, overlay: Vec<u8>) -> (gauge: JobGauge)
        ensures
            gauge.text == text,
            gauge.overlay == overlay,
    {
        JobGauge { text, overlay }
    }

    /// One tick of the render loop.
    ///
    /// On a stop request the relay is closed, the window is to be closed and
    /// nothing else changes. Otherwise the oldest pending frame, if there is
    /// one, is taken off the relay and becomes the picture if it decodes; then
    /// the pass-through flag is set from what the GUI wants.
    pub fn gui_run(
        &mut self,
        window: &mut OverlayWindowState,
        relay: &mut FrameRelay,
        input: TickInput,
    ) -> (plan: TickPlan)
        ensures
            final(self).text == old(self).text,
            input.stop_requested ==> {
                &&& final(relay)@ == old(relay)@.close()
                &&& final(window)@ == old(window)@
                &&& final(self).overlay == old(self).overlay
                &&& plan == old(window)@.closing_plan()
            },
            !input.stop_requested ==> {
                &&& final(relay)@ == old(relay)@.recv()
                &&& final(window)@ == old(window)@.tick(old(relay)@.next(), input.wants)
                &&& final(self).overlay@ == if replaces_picture(old(relay)@.next()) {
                    old(relay)@.next()->0
                } else {
                    old(self).overlay@
                }
                &&& plan == final(window)@.plan(replaces_picture(old(relay)@.next()))
            },
    {
        if input.stop_requested {
            relay.close();
            let plan = window.plan(false);
            return TickPlan { close: true, ..plan };
        }
        let replaced = match relay.try_recv() {
            Some(frame) => {
                let size = decode_size(&frame);
                if size.is_some() {
                    self.overlay = frame.as_bytes().clone();
                }
                window.present(frame, size)
            },
            None => false,
        };
        window.poll_input(input.wants);
        window.plan(replaced)
    }
}

/// Each step of a tick keeps the window well formed.
pub proof fn lemma_tick_keeps_wf(window: WindowView, incoming: Option<Seq<u8>>, wants: GuiWants)
    requires
        window.wf(),
    ensures
        window.tick(incoming, wants).wf(),
{
}

/// The pass-through machine has no memory: after any tick the window is
/// interactive exactly if the GUI wanted the pointer or the keyboard on that
/// tick, whatever it was before.
pub proof fn lemma_passthrough_follows_wants(
    window: WindowView,
    incoming: Option<Seq<u8>>,
    wants: GuiWants,
)
    ensures
        window.tick(incoming, wants).mouse_passthrough == !(wants.pointer || wants.keyboard),
        wants.pointer ==> window.tick(incoming, wants).mode() == PassthroughMode::Interactive,
        wants.keyboard ==> window.tick(incoming, wants).mode() == PassthroughMode::Interactive,
        !wants.pointer && !wants.keyboard ==> window.tick(incoming, wants).mode()
            == PassthroughMode::Passive,
{
}

/// A tick changes the picture only if a frame arrived that decodes, and then
/// to that frame. With nothing on the relay, or with a frame that is no image,
/// the picture stays.
pub proof fn lemma_picture_changes_only_on_good_frame(
    window: WindowView,
    incoming: Option<Seq<u8>>,
    wants: GuiWants,
)
    ensures
        replaces_picture(incoming) ==> window.tick(incoming, wants).displayed_frame == incoming,
        !replaces_picture(incoming) ==> window.tick(incoming, wants).displayed_frame
            == window.displayed_frame,
        window.tick(incoming, wants).decorated == window.decorated,
        window.tick(incoming, wants).opacity_percent == window.opacity_percent,
        window.tick(incoming, wants).layout == window.layout,
{
}

} // verus!
