//! What a render is configured with, and when such a configuration can be used.

use vstd::prelude::*;

verus! {

/// The rectangle of the complex plane that the image shows, by its corners.
/// The left column of the image lies on `re_min`, the first row on `im_min`.
#[derive(Clone, Copy, Debug, PartialEq, Eq, Structural)]
pub struct PlaneWindow {
    pub re_min: i32,
    pub re_max: i32,
    pub im_min: i32,
    pub im_max: i32,
}

/// Everything a render depends on.
#[derive(Clone, Copy, Debug, PartialEq, Eq, Structural)]
pub struct RenderConfig {
    /// Columns of the image.
    pub width: u32,
    /// Rows of the image.
    pub height: u32,
    /// The most passes an orbit is followed for.
    pub max_iterations: u32,
    /// How many workers share the columns.
    pub thread_count: u32,
    /// The part of the plane that is shown.
    pub window: PlaneWindow,
}

/// Why a configuration cannot be rendered.
#[derive(Clone, Copy, Debug, PartialEq, Eq, Structural)]
pub enum ConfigError {
    /// There is no worker to give the columns to.
    NoThreads,
    /// The columns cannot be dealt out evenly among the workers.
    UnevenBands,
    /// With no pass allowed the gradient has no scale.
    NoIterations,
    /// Three bytes per pixel are more than one buffer can hold.
    TooLarge,
}

impl RenderConfig {
    /// Number of pixels of the image.
    pub open spec fn spec_pixel_count(&self) -> int {
        self.width * self.height
    }

    /// Number of bytes of the image: three per pixel.
    pub open spec fn spec_buffer_len(&self) -> int {
        self.width * self.height * 3
    }

    /// A configuration that every function of the renderer accepts.
    pub open spec fn valid(&self) -> bool {
        &&& self.thread_count > 0
        &&& self.width % self.thread_count == 0
        &&& self.max_iterations > 0
        &&& self.spec_buffer_len() <= isize::MAX
    }

    /// The first reason, in the order of `ConfigError`, for which the
    /// configuration is refused.
    pub open spec fn verdict(&self) -> Result<(), ConfigError> {
        if self.thread_count == 0 {
            Err(ConfigError::NoThreads)
        } else if self.width % self.thread_count != 0 {
            Err(ConfigError::UnevenBands)
        } else if self.max_iterations == 0 {
            Err(ConfigError::NoIterations)
        } else if self.spec_buffer_len() > isize::MAX {
            Err(ConfigError::TooLarge)
        } else {
            Ok(())
        }
    }

    /// What `new` makes of its arguments: the configuration that holds them,
    /// or the reason for which that configuration is refused.
    pub open spec fn built(
        width: u32,
        height: u32,
        max_iterations: u32,
        thread_count: u32,
        window: PlaneWindow,
    ) -> Result<RenderConfig, ConfigError> {
        let asked = RenderConfig { width, height, max_iterations, thread_count, window };
        match asked.verdict() {
            Ok(()) => Ok(asked),
            Err(why) => Err(why),
        }
    }

    /// The picture this renderer was made for: 8000 by 4571 pixels of the
    /// window from -2 - i to 1 + i, 1000 passes, 20 workers.
    pub fn standard() -> (config: RenderConfig)
        ensures
            config.valid(),
            config.width == 8000,
            config.height == 4571,
            config.max_iterations == 1000,
            config.thread_count == 20,
            config.window.re_min == -2,
            config.window.re_max == 1,
            config.window.im_min == -1,
            config.window.im_max == 1,
    {
        RenderConfig {
            width: 8000,
            height: 4571,
            max_iterations: 1000,
            thread_count: 20,
            window: PlaneWindow { re_min: -2, re_max: 1, im_min: -1, im_max: 1 },
        }
    }

    /// Tells whether the configuration can be rendered, and if not, why.
    pub fn check(&self) -> (verdict: Result<(), ConfigError>)
        ensures
            verdict == self.verdict(),
            verdict is Ok <==> self.valid(),
    {
        if self.thread_count == 0 {
            return Err(ConfigError::NoThreads);
        }
        if self.width % self.thread_count != 0 {
            return Err(ConfigError::UnevenBands);
        }
        if self.max_iterations == 0 {
            return Err(ConfigError::NoIterations);
        }
        assert(self.width * self.height <= u64::MAX) by (nonlinear_arith)
            requires
                self.width <= u32::MAX,
                self.height <= u32::MAX,
        ;
        let pixels: u64 = (self.width as u64) * (self.height as u64);
        let most: u64 = (isize::MAX as u64) / 3;
        if pixels > most {
            return Err(ConfigError::TooLarge);
        }
        Ok(())
    }

    /// Builds a configuration, or says why it cannot be rendered.
    pub fn new(
        width: u32,
        height: u32,
        max_iterations: u32,
        thread_count: u32,
        window: PlaneWindow,
    ) -> (made: Result<RenderConfig, ConfigError>)
        ensures
            made == Self::built(width, height, max_iterations, thread_count, window),
            made matches Ok(config) ==> config.valid(),
    {
        let config = RenderConfig { width, height, max_iterations, thread_count, window };
        match config.check() {
            Ok(()) => Ok(config),
            Err(why) => Err(why),
        }
    }

    /// Number of pixels of the image.
    pub fn pixel_count(&self) -> (count: usize)
        requires
            self.valid(),
        ensures
            count == self.spec_pixel_count(),
    {
        assert(0 <= self.width * self.height <= self.width * self.height * 3) by (nonlinear_arith);
        (self.width as usize) * (self.height as usize)
    }

    /// Number of bytes of the image.
    pub fn buffer_len(&self) -> (len: usize)
        requires
            self.valid(),
        ensures
            len == self.spec_buffer_len(),
    {
        self.pixel_count() * 3
    }
}

} // verus!
