//! Errors of the platform layers: Metal rendering on macOS and hardware
//! decoding through FFmpeg. The layers themselves drive system frameworks
//! and are not part of this library; their failures are reported in these
//! terms.

use vstd::prelude::*;

verus! {

/// Errors that can occur during Metal initialization and rendering.
#[derive(Debug, Clone, Copy, PartialEq, Eq, Structural)]
pub enum MetalError {
    /// No Metal-capable GPU found on the system.
    NoDevice,
    /// Failed to create command queue.
    CommandQueueCreation,
    /// Failed to create Metal layer.
    LayerCreation,
    /// Failed to get NSView from window.
    NoView,
    /// Window handle is not a macOS AppKit window.
    InvalidWindowHandle,
}

/// Errors attaching a Metal layer to a view.
#[derive(Debug, Clone, Copy, PartialEq, Eq, Structural)]
pub enum MetalBridgeError {
    /// Failed to attach layer to view
    LayerAttachment,
    /// Invalid view
    InvalidView,
    /// Failed to get root layer
    NoRootLayer,
}

/// Errors setting up hardware-accelerated decoding, with FFmpeg's codes.
#[derive(Debug, Clone, Copy, PartialEq, Eq, Structural)]
pub enum HwAccelError {
    /// Hardware device context creation failed
    DeviceContextCreation(i32),
    /// Hardware frames context allocation failed
    FramesContextAllocation,
    /// Hardware frames context initialization failed
    FramesContextInit(i32),
}

/// Errors of the Core Video texture cache, with Core Video's codes.
#[derive(Debug, Clone, Copy, PartialEq, Eq, Structural)]
pub enum MetalTextureCacheError {
    /// Failed to create texture cache
    CacheCreation(i32),
    /// Failed to create texture from pixel buffer
    TextureCreation(i32),
    /// Null pointer returned
    NullPointer,
}

impl MetalError {
    /// The message shown for the error.
    pub fn message(&self) -> (r: &'static str)
        ensures
            r@ == match *self {
                MetalError::NoDevice => "No Metal-capable GPU device found"@,
                MetalError::CommandQueueCreation => "Failed to create Metal command queue"@,
                MetalError::LayerCreation => "Failed to create CAMetalLayer"@,
                MetalError::NoView => "Failed to get NSView from window"@,
                MetalError::InvalidWindowHandle => "Window handle is not a macOS AppKit window"@,
            },
    {
        match self {
            MetalError::NoDevice => "No Metal-capable GPU device found",
            MetalError::CommandQueueCreation => "Failed to create Metal command queue",
            MetalError::LayerCreation => "Failed to create CAMetalLayer",
            MetalError::NoView => "Failed to get NSView from window",
            MetalError::InvalidWindowHandle => "Window handle is not a macOS AppKit window",
        }
    }
}

impl MetalBridgeError {
    /// The message shown for the error.
    pub fn message(&self) -> (r: &'static str)
        ensures
            r@ == match *self {
                MetalBridgeError::LayerAttachment => "Failed to attach layer to view"@,
                MetalBridgeError::InvalidView => "Invalid view"@,
                MetalBridgeError::NoRootLayer => "Failed to get root layer"@,
            },
    {
        match self {
            MetalBridgeError::LayerAttachment => "Failed to attach layer to view",
            MetalBridgeError::InvalidView => "Invalid view",
            MetalBridgeError::NoRootLayer => "Failed to get root layer",
        }
    }
}

} // verus!
