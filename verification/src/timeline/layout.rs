//! Video viewport dimensions within a window.

use vstd::prelude::*;

verus! {

/// Window and video dimensions from which the video's on-screen rectangle is
/// laid out, preserving the video's aspect ratio.
#[derive(Debug, Clone, Copy)]
pub struct VideoViewport {
    /// Window dimensions
    pub window_width: u32,
    pub window_height: u32,
    pub window_x: u32,
    pub window_y: u32,
    /// Video dimensions
    pub video_width: u32,
    pub video_height: u32,
}

pub open spec fn at_least_one(v: u32) -> u32 {
    if v == 0 {
        1
    } else {
        v
    }
}

impl VideoViewport {
    /// Creates a new viewport; zero sizes become one, so that aspect ratios
    /// never divide by zero.
    pub fn new(
        window_width: u32,
        window_height: u32,
        video_width: u32,
        video_height: u32,
        window_x: u32,
        window_y: u32,
    ) -> (r: Self)
        ensures
            r.window_width == at_least_one(window_width),
            r.window_height == at_least_one(window_height),
            r.video_width == at_least_one(video_width),
            r.video_height == at_least_one(video_height),
            r.window_x == window_x,
            r.window_y == window_y,
    {
        let video_width = if video_width < 1 {
            1
        } else {
            video_width
        };
        let video_height = if video_height < 1 {
            1
        } else {
            video_height
        };
        let window_width = if window_width < 1 {
            1
        } else {
            window_width
        };
        let window_height = if window_height < 1 {
            1
        } else {
            window_height
        };
        VideoViewport { window_width, window_height, window_x, window_y, video_width, video_height }
    }

    /// Sets the window's size and position; returns true if any of them changed.
    pub fn update_window_dimensions(&mut self, width: u32, height: u32, x: u32, y: u32) -> (r: bool)
        ensures
            r == (old(self).window_width != width || old(self).window_height != height
                || old(self).window_x != x || old(self).window_y != y),
            final(self).window_width == width,
            final(self).window_height == height,
            final(self).window_x == x,
            final(self).window_y == y,
            final(self).video_width == old(self).video_width,
            final(self).video_height == old(self).video_height,
    {
        if self.window_width != width || self.window_height != height || self.window_x != x
            || self.window_y != y {
            self.window_width = width;
            self.window_height = height;
            self.window_x = x;
            self.window_y = y;
            true
        } else {
            false
        }
    }

    /// Sets the video's size; returns true if it changed.
    pub fn update_video_dimensions(&mut self, width: u32, height: u32) -> (r: bool)
        ensures
            r == (old(self).video_width != width || old(self).video_height != height),
            final(self).video_width == width,
            final(self).video_height == height,
            final(self).window_width == old(self).window_width,
            final(self).window_height == old(self).window_height,
            final(self).window_x == old(self).window_x,
            final(self).window_y == old(self).window_y,
    {
        if self.video_width != width || self.video_height != height {
            self.video_width = width;
            self.video_height = height;
            true
        } else {
            false
        }
    }

    pub fn has_video(&self) -> (r: bool)
        ensures
            r == (self.video_width > 0 && self.video_height > 0),
    {
        self.video_width > 0 && self.video_height > 0
    }

    /// Returns the video's native dimensions.
    pub fn video_dimensions(&self) -> (r: (u32, u32))
        ensures
            r == (self.video_width, self.video_height),
    {
        (self.video_width, self.video_height)
    }

    /// Returns the window dimensions.
    pub fn window_dimensions(&self) -> (r: (u32, u32))
        ensures
            r == (self.window_width, self.window_height),
    {
        (self.window_width, self.window_height)
    }
}

impl Default for VideoViewport {
    fn default() -> (r: Self)
        ensures
            r.window_width == 0 && r.window_height == 0 && r.window_x == 0 && r.window_y == 0,
            r.video_width == 0 && r.video_height == 0,
    {
        VideoViewport {
            window_width: 0,
            window_height: 0,
            window_x: 0,
            window_y: 0,
            video_width: 0,
            video_height: 0,
        }
    }
}

} // verus!
