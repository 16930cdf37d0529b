//! What the window loop is configured with.

use vstd::prelude::*;

verus! {

/// Whether and how the loop rests between two frames.
#[derive(Debug, Clone, Copy, PartialEq, Eq, Structural)]
pub enum SleepKind {
    NONE,
    YIELD,
    /// Sleep for this many nanoseconds.
    SLEEP(u32),
}

/// Title, size and pacing of the window.
pub struct SdlConfiguration {
    title: String,
    scr_width: i32,
    scr_height: i32,
    pixel_size: i32,
    sleep_kind: SleepKind,
}

/// The contents of a window configuration.
pub ghost struct SdlConfigurationView {
    pub title: Seq<char>,
    pub scr_width: i32,
    pub scr_height: i32,
    pub pixel_size: i32,
    pub sleep_kind: SleepKind,
}

impl View for SdlConfiguration {
    type V = SdlConfigurationView;

    closed spec fn view(&self) -> SdlConfigurationView {
        SdlConfigurationView {
            title: self.title@,
            scr_width: self.scr_width,
            scr_height: self.scr_height,
            pixel_size: self.pixel_size,
            sleep_kind: self.sleep_kind,
        }
    }
}

impl SdlConfiguration {
    /// A configuration for a screen of `scr_width` by `scr_height` pixels,
    /// each drawn as a square of `pixel_size` device pixels.
    pub fn new(
        title: &str,
        scr_width: i32,
        scr_height: i32,
        pixel_size: i32,
        sleep_kind: SleepKind,
    ) -> (r: SdlConfiguration)
        requires
            scr_width > 0,
            scr_height > 0,
            pixel_size > 0,
        ensures
            r@ == (SdlConfigurationView {
                title: title@,
                scr_width,
                scr_height,
                pixel_size,
                sleep_kind,
            }),
    {
        SdlConfiguration { title: title.to_owned(), scr_width, scr_height, pixel_size, sleep_kind }
    }

    pub fn title(&self) -> (r: &str)
        ensures
            r@ == self@.title,
    {
        self.title.as_str()
    }

    pub fn scr_width(&self) -> (r: i32)
        ensures
            r == self@.scr_width,
    {
        self.scr_width
    }

    pub fn scr_height(&self) -> (r: i32)
        ensures
            r == self@.scr_height,
    {
        self.scr_height
    }

    pub fn pixel_size(&self) -> (r: i32)
        ensures
            r == self@.pixel_size,
    {
        self.pixel_size
    }

    pub fn sleep_kind(&self) -> (r: SleepKind)
        ensures
            r == self@.sleep_kind,
    {
        self.sleep_kind
    }
}

} // verus!
