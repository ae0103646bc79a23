//! What the adapter and its driver agree on: modes, rectangles, the command
//! ring and the commands in it.
use vstd::prelude::*;
use vstd::arithmetic::div_mod::{
    lemma_add_mod_noop_right, lemma_fundamental_div_mod_converse, lemma_mod_bound, lemma_small_mod,
};

pub mod fifo;
pub mod register;

verus! {

pub const PCI_VENDOR_VMWARE: u16 = 0x15ad;
pub const PCI_DEVICE_SVGA2: u16 = 0x0405;
pub const SVGA_ID_2: u32 = 0x9000_0002;
pub const SVGA_ID_INVALID: u32 = 0xffff_ffff;
pub const INDEX_PORT_OFFSET: u16 = 0;
pub const VALUE_PORT_OFFSET: u16 = 1;
pub const ENABLE_DISABLE: u32 = 0;
pub const ENABLE_ENABLE: u32 = 1;
pub const SYNC_GENERIC: u32 = 1;

/// What the adapter can do.
#[derive(Clone, Copy, Debug, Eq, PartialEq, Structural)]
pub struct DeviceCapabilities {
    pub bits: u32,
}

impl Default for DeviceCapabilities {
    fn default() -> (none: Self)
        ensures
            none.bits == 0,
    {
        DeviceCapabilities { bits: 0 }
    }
}

impl DeviceCapabilities {
    pub const RECT_COPY: u32 = 0x0000_0002;
    pub const EXTENDED_FIFO: u32 = 0x0000_8000;

    pub fn from_bits(bits: u32) -> (capabilities: Self)
        ensures
            capabilities.bits == bits,
    {
        DeviceCapabilities { bits }
    }

    pub fn bits(self) -> (bits: u32)
        ensures
            bits == self.bits,
    {
        self.bits
    }

    pub fn contains(self, capability: u32) -> (all: bool)
        ensures
            all == (self.bits & capability == capability),
    {
        self.bits & capability == capability
    }

    pub fn rect_copy(self) -> (able: bool)
        ensures
            able == (self.bits & Self::RECT_COPY == Self::RECT_COPY),
    {
        self.contains(Self::RECT_COPY)
    }

    pub fn extended_fifo(self) -> (able: bool)
        ensures
            able == (self.bits & Self::EXTENDED_FIFO == Self::EXTENDED_FIFO),
    {
        self.contains(Self::EXTENDED_FIFO)
    }
}

/// What the command ring can do.
#[derive(Clone, Copy, Debug, Eq, PartialEq, Structural)]
pub struct FifoCapabilities {
    pub bits: u32,
}

impl Default for FifoCapabilities {
    fn default() -> (none: Self)
        ensures
            none.bits == 0,
    {
        FifoCapabilities { bits: 0 }
    }
}

impl FifoCapabilities {
    pub const FENCE: u32 = 0x01;
    pub const RESERVE: u32 = 0x40;

    /// Whether the ring carries fences.
    pub open spec fn has_fence(self) -> bool {
        self.bits & Self::FENCE == Self::FENCE
    }

    /// Whether the ring knows reservations.
    pub open spec fn has_reserve(self) -> bool {
        self.bits & Self::RESERVE == Self::RESERVE
    }

    pub fn from_bits(bits: u32) -> (capabilities: Self)
        ensures
            capabilities.bits == bits,
    {
        FifoCapabilities { bits }
    }

    pub fn bits(self) -> (bits: u32)
        ensures
            bits == self.bits,
    {
        self.bits
    }

    pub fn contains(self, capability: u32) -> (all: bool)
        ensures
            all == (self.bits & capability == capability),
    {
        self.bits & capability == capability
    }

    pub fn fence(self) -> (able: bool)
        ensures
            able == self.has_fence(),
    {
        self.contains(Self::FENCE)
    }

    pub fn reserve(self) -> (able: bool)
        ensures
            able == self.has_reserve(),
    {
        self.contains(Self::RESERVE)
    }
}

pub const MAX_VRAM_BYTES: u32 = 1024 * 1024 * 1024;
pub const MAX_FIFO_BYTES: u32 = 2 * 1024 * 1024;
pub const MIN_FIFO_BYTES: u32 = 4096 + 8;
pub const FIFO_PAGE_BYTES: u32 = 4096;
/// Bytes that stay free between the writer and the reader of the ring.
pub const FIFO_GUARD_BYTES: u32 = 4;
/// Rectangles of one update at most.
pub const MAX_PRESENT_RECTS: usize = 64;

#[derive(Clone, Copy, Debug, Eq, PartialEq, Structural)]
pub enum ProtocolError {
    InvalidMode,
    UnsupportedPixelFormat,
    FramebufferTooSmall,
    InvalidRectangle,
    InvalidFifoLayout,
    InvalidFifoCursor,
    InvalidCommand,
    FifoFull,
}

impl ProtocolError {
    /// The name of the error.
    pub open spec fn text(self) -> Seq<char> {
        match self {
            ProtocolError::InvalidMode => "InvalidMode"@,
            ProtocolError::UnsupportedPixelFormat => "UnsupportedPixelFormat"@,
            ProtocolError::FramebufferTooSmall => "FramebufferTooSmall"@,
            ProtocolError::InvalidRectangle => "InvalidRectangle"@,
            ProtocolError::InvalidFifoLayout => "InvalidFifoLayout"@,
            ProtocolError::InvalidFifoCursor => "InvalidFifoCursor"@,
            ProtocolError::InvalidCommand => "InvalidCommand"@,
            ProtocolError::FifoFull => "FifoFull"@,
        }
    }

    /// The name of the error.
    pub fn name(self) -> (name: &'static str)
        ensures
            name@ == self.text(),
    {
        match self {
            ProtocolError::InvalidMode => "InvalidMode",
            ProtocolError::UnsupportedPixelFormat => "UnsupportedPixelFormat",
            ProtocolError::FramebufferTooSmall => "FramebufferTooSmall",
            ProtocolError::InvalidRectangle => "InvalidRectangle",
            ProtocolError::InvalidFifoLayout => "InvalidFifoLayout",
            ProtocolError::InvalidFifoCursor => "InvalidFifoCursor",
            ProtocolError::InvalidCommand => "InvalidCommand",
            ProtocolError::FifoFull => "FifoFull",
        }
    }
}

/// What a mode may ask for at most.
#[derive(Clone, Copy, Debug, Eq, PartialEq, Structural)]
pub struct ModeLimits {
    pub max_width: u32,
    pub max_height: u32,
    pub vram_bytes: u32,
    pub framebuffer_bytes: u32,
}

impl ModeLimits {
    /// Whether the limits make sense.
    pub open spec fn is_valid(self) -> bool {
        &&& self.max_width > 0
        &&& self.max_height > 0
        &&& 0 < self.framebuffer_bytes <= self.vram_bytes <= MAX_VRAM_BYTES
    }

    pub fn validate(self) -> (result: Result<Self, ProtocolError>)
        ensures
            result == (if self.is_valid() {
                Ok(self)
            } else {
                Err(ProtocolError::InvalidMode)
            }),
    {
        if self.max_width == 0 || self.max_height == 0 || self.vram_bytes == 0 || self.vram_bytes
            > MAX_VRAM_BYTES || self.framebuffer_bytes == 0 || self.framebuffer_bytes
            > self.vram_bytes {
            return Err(ProtocolError::InvalidMode);
        }
        Ok(self)
    }
}

/// A mode that is asked for.
#[derive(Clone, Copy, Debug, Eq, PartialEq, Structural)]
pub struct ModeRequest {
    pub width: u32,
    pub height: u32,
    pub bits_per_pixel: u32,
}

impl ModeRequest {
    /// What is wrong with a request, where something is.
    pub open spec fn fault(self, limits: ModeLimits) -> Option<ProtocolError> {
        if !limits.is_valid() {
            Some(ProtocolError::InvalidMode)
        } else if self.bits_per_pixel != 32 {
            Some(ProtocolError::UnsupportedPixelFormat)
        } else if self.width == 0 || self.height == 0 || self.width > limits.max_width
            || self.height > limits.max_height {
            Some(ProtocolError::InvalidMode)
        } else if self.width * 4 > u32::MAX || self.width * 4 * self.height
            > limits.framebuffer_bytes {
            Some(ProtocolError::FramebufferTooSmall)
        } else {
            None
        }
    }

    /// A request with four bytes for each pixel.
    pub fn xrgb8888(width: u32, height: u32) -> (request: Self)
        ensures
            request == (ModeRequest { width, height, bits_per_pixel: 32 }),
    {
        ModeRequest { width, height, bits_per_pixel: 32 }
    }

    pub fn validate(self, limits: ModeLimits) -> (result: Result<Self, ProtocolError>)
        ensures
            result == (match self.fault(limits) {
                Some(error) => Err(error),
                None => Ok(self),
            }),
    {
        match limits.validate() {
            Ok(_) => {},
            Err(error) => {
                return Err(error);
            },
        }
        if self.bits_per_pixel != 32 {
            return Err(ProtocolError::UnsupportedPixelFormat);
        }
        if self.width == 0 || self.height == 0 || self.width > limits.max_width || self.height
            > limits.max_height {
            return Err(ProtocolError::InvalidMode);
        }
        let minimum_pitch: u32 = match self.width.checked_mul(4) {
            Some(pitch) => pitch,
            None => {
                return Err(ProtocolError::FramebufferTooSmall);
            },
        };
        match (minimum_pitch as u64).checked_mul(self.height as u64) {
            Some(span) => {
                if span > limits.framebuffer_bytes as u64 {
                    return Err(ProtocolError::FramebufferTooSmall);
                }
            },
            None => {
                return Err(ProtocolError::FramebufferTooSmall);
            },
        }
        Ok(self)
    }
}

/// A mode as the adapter shows it.
#[derive(Clone, Copy, Debug, Eq, PartialEq, Structural)]
pub struct Mode {
    pub width: u32,
    pub height: u32,
    pub bits_per_pixel: u32,
    pub depth: u32,
    pub pitch: u32,
    pub framebuffer_offset: u32,
    pub framebuffer_bytes: u32,
    pub red_mask: u32,
    pub green_mask: u32,
    pub blue_mask: u32,
}

impl Mode {
    /// The request a mode answers.
    pub open spec fn asked(self) -> ModeRequest {
        ModeRequest {
            width: self.width,
            height: self.height,
            bits_per_pixel: self.bits_per_pixel,
        }
    }

    /// What is wrong with a mode, where something is.
    pub open spec fn fault(self, limits: ModeLimits) -> Option<ProtocolError> {
        if self.asked().fault(limits) is Some {
            self.asked().fault(limits)
        } else if self.depth == 0 || self.depth > self.bits_per_pixel || self.pitch % 4 != 0 {
            Some(ProtocolError::InvalidMode)
        } else if self.pitch < self.width * 4 || self.framebuffer_bytes == 0
            || self.framebuffer_bytes > limits.framebuffer_bytes || self.pitch * self.height
            > self.framebuffer_bytes || self.framebuffer_offset + self.pitch * self.height
            > limits.vram_bytes {
            Some(ProtocolError::FramebufferTooSmall)
        } else if self.red_mask == 0 || self.green_mask == 0 || self.blue_mask == 0 || self.red_mask
            & self.green_mask != 0 || self.red_mask & self.blue_mask != 0 || self.green_mask
            & self.blue_mask != 0 {
            Some(ProtocolError::UnsupportedPixelFormat)
        } else {
            None
        }
    }

    pub fn validate(self, limits: ModeLimits) -> (result: Result<Self, ProtocolError>)
        ensures
            result == (match self.fault(limits) {
                Some(error) => Err(error),
                None => Ok(self),
            }),
    {
        match self.request().validate(limits) {
            Ok(_) => {},
            Err(error) => {
                return Err(error);
            },
        }
        if self.depth == 0 || self.depth > self.bits_per_pixel || self.pitch % 4 != 0 {
            return Err(ProtocolError::InvalidMode);
        }
        let minimum_pitch: u32 = match self.width.checked_mul(4) {
            Some(pitch) => pitch,
            None => {
                return Err(ProtocolError::FramebufferTooSmall);
            },
        };
        if self.pitch < minimum_pitch || self.framebuffer_bytes == 0 || self.framebuffer_bytes
            > limits.framebuffer_bytes {
            return Err(ProtocolError::FramebufferTooSmall);
        }
        let span: u64 = match (self.pitch as u64).checked_mul(self.height as u64) {
            Some(span) => span,
            None => {
                return Err(ProtocolError::FramebufferTooSmall);
            },
        };
        let end: u64 = match (self.framebuffer_offset as u64).checked_add(span) {
            Some(end) => end,
            None => {
                return Err(ProtocolError::FramebufferTooSmall);
            },
        };
        if span > self.framebuffer_bytes as u64 || end > limits.vram_bytes as u64 {
            return Err(ProtocolError::FramebufferTooSmall);
        }
        if self.red_mask == 0 || self.green_mask == 0 || self.blue_mask == 0 || self.red_mask
            & self.green_mask != 0 || self.red_mask & self.blue_mask != 0 || self.green_mask
            & self.blue_mask != 0 {
            return Err(ProtocolError::UnsupportedPixelFormat);
        }
        Ok(self)
    }

    pub fn request(self) -> (request: ModeRequest)
        ensures
            request == self.asked(),
    {
        ModeRequest {
            width: self.width,
            height: self.height,
            bits_per_pixel: self.bits_per_pixel,
        }
    }
}

/// Every pixel of a mode that was accepted lies in the frame buffer and in
/// video memory.
pub proof fn lemma_valid_mode_holds_every_pixel(mode: Mode, limits: ModeLimits, x: int, y: int)
    requires
        mode.fault(limits) is None,
        0 <= x < mode.width,
        0 <= y < mode.height,
    ensures
        y * mode.pitch + 4 * x + 4 <= mode.framebuffer_bytes,
        mode.framebuffer_offset + y * mode.pitch + 4 * x + 4 <= limits.vram_bytes,
{
    assert(y * mode.pitch + mode.pitch <= mode.pitch * mode.height) by (nonlinear_arith)
        requires
            0 <= y < mode.height,
            mode.pitch >= 0,
    ;
}

/// A part of the screen.
#[derive(Clone, Copy, Debug, Eq, PartialEq, Structural)]
pub struct Rect {
    pub x: u32,
    pub y: u32,
    pub width: u32,
    pub height: u32,
}

impl Rect {
    /// Whether the rectangle has pixels, all of them on the screen.
    pub open spec fn is_on(self, mode: Mode) -> bool {
        &&& self.width > 0
        &&& self.height > 0
        &&& self.x + self.width <= mode.width
        &&& self.y + self.height <= mode.height
    }

    pub fn new(x: u32, y: u32, width: u32, height: u32) -> (rect: Self)
        ensures
            rect == (Rect { x, y, width, height }),
    {
        Rect { x, y, width, height }
    }

    /// The whole screen.
    pub fn full(mode: Mode) -> (rect: Self)
        ensures
            rect == (Rect { x: 0, y: 0, width: mode.width, height: mode.height }),
    {
        Rect::new(0, 0, mode.width, mode.height)
    }

    pub fn validate(self, mode: Mode) -> (result: Result<Self, ProtocolError>)
        ensures
            result == (if self.is_on(mode) {
                Ok(self)
            } else {
                Err(ProtocolError::InvalidRectangle)
            }),
    {
        let right: u32 = match self.x.checked_add(self.width) {
            Some(right) => right,
            None => {
                return Err(ProtocolError::InvalidRectangle);
            },
        };
        let bottom: u32 = match self.y.checked_add(self.height) {
            Some(bottom) => bottom,
            None => {
                return Err(ProtocolError::InvalidRectangle);
            },
        };
        if self.width == 0 || self.height == 0 || right > mode.width || bottom > mode.height {
            return Err(ProtocolError::InvalidRectangle);
        }
        Ok(self)
    }
}

/// A part of the screen and the place it is copied to.
#[derive(Clone, Copy, Debug, Eq, PartialEq, Structural)]
pub struct CopyRect {
    pub source_x: u32,
    pub source_y: u32,
    pub destination_x: u32,
    pub destination_y: u32,
    pub width: u32,
    pub height: u32,
}

impl CopyRect {
    pub open spec fn source(self) -> Rect {
        Rect { x: self.source_x, y: self.source_y, width: self.width, height: self.height }
    }

    pub open spec fn destination(self) -> Rect {
        Rect {
            x: self.destination_x,
            y: self.destination_y,
            width: self.width,
            height: self.height,
        }
    }

    /// Whether both ends of the copy are on the screen.
    pub open spec fn is_on(self, mode: Mode) -> bool {
        self.source().is_on(mode) && self.destination().is_on(mode)
    }

    pub fn validate(self, mode: Mode) -> (result: Result<Self, ProtocolError>)
        ensures
            result == (if self.is_on(mode) {
                Ok(self)
            } else {
                Err(ProtocolError::InvalidRectangle)
            }),
    {
        match Rect::new(self.source_x, self.source_y, self.width, self.height).validate(mode) {
            Ok(_) => {},
            Err(error) => {
                return Err(error);
            },
        }
        match Rect::new(self.destination_x, self.destination_y, self.width, self.height).validate(
            mode,
        ) {
            Ok(_) => Ok(self),
            Err(error) => Err(error),
        }
    }
}

/// Where the command ring begins and ends, in bytes of the ring's memory.
#[derive(Clone, Copy, Debug, Eq, PartialEq, Structural)]
pub struct FifoLayout {
    min: u32,
    max: u32,
}

impl FifoLayout {
    #[verifier::type_invariant]
    spec fn valid(self) -> bool {
        self.is_valid()
    }

    /// The first byte of the ring.
    pub closed spec fn lower(self) -> int {
        self.min as int
    }

    /// The first byte behind the ring.
    pub closed spec fn upper(self) -> int {
        self.max as int
    }

    /// Whether the ring lies behind its four words of state, whole words long
    /// and two of them at least.
    pub open spec fn is_valid(self) -> bool {
        &&& 16 <= self.lower() <= u32::MAX
        &&& self.lower() % 4 == 0
        &&& self.upper() % 4 == 0
        &&& self.lower() + 8 <= self.upper() <= u32::MAX
    }

    /// Bytes in the ring.
    pub open spec fn size(self) -> int {
        self.upper() - self.lower()
    }

    /// Whether a cursor points at a word of the ring.
    pub open spec fn holds(self, cursor: u32) -> bool {
        self.lower() <= cursor < self.upper() && cursor % 4 == 0
    }

    /// Bytes from `next` on that can be written before the reader at `stop` is
    /// reached, one word left out.
    pub open spec fn room(self, next: u32, stop: u32) -> int {
        (if next >= stop {
            self.size() - (next - stop)
        } else {
            stop - next
        }) - FIFO_GUARD_BYTES
    }

    /// The cursor `bytes` further round the ring.
    pub open spec fn moved(self, cursor: u32, bytes: int) -> u32 {
        (self.lower() + (cursor - self.lower() + bytes) % self.size()) as u32
    }

    /// The cursor behind `bytes` bytes that are claimed at `next`.
    pub open spec fn reserved(self, next: u32, stop: u32, bytes: int) -> Result<
        u32,
        ProtocolError,
    > {
        if bytes == 0 || bytes % 4 != 0 || bytes >= self.size() {
            Err(ProtocolError::InvalidCommand)
        } else if !self.holds(next) || !self.holds(stop) {
            Err(ProtocolError::InvalidFifoCursor)
        } else if bytes > self.room(next, stop) {
            Err(ProtocolError::FifoFull)
        } else {
            Ok(self.moved(next, bytes))
        }
    }

    pub fn new(min: u32, max: u32, mapped_bytes: u32) -> (result: Result<Self, ProtocolError>)
        ensures
            match result {
                Ok(layout) => min >= 16 && min % 4 == 0 && max % 4 == 0 && max <= mapped_bytes
                    && min + 8 <= max && layout.lower() == min && layout.upper() == max
                    && layout.is_valid(),
                Err(error) => error == ProtocolError::InvalidFifoLayout && !(min >= 16 && min % 4
                    == 0 && max % 4 == 0 && max <= mapped_bytes && min + 8 <= max),
            },
    {
        if min < 4 * (fifo::STOP + 1) || min % 4 != 0 || max % 4 != 0 || max > mapped_bytes || max
            < min || max - min < 2 * FIFO_GUARD_BYTES {
            return Err(ProtocolError::InvalidFifoLayout);
        }
        Ok(FifoLayout { min, max })
    }

    pub fn min(self) -> (min: u32)
        ensures
            min == self.lower(),
            self.is_valid(),
    {
        proof {
            use_type_invariant(self);
        }
        self.min
    }

    pub fn max(self) -> (max: u32)
        ensures
            max == self.upper(),
            self.is_valid(),
    {
        proof {
            use_type_invariant(self);
        }
        self.max
    }

    pub fn capacity(self) -> (bytes: u32)
        ensures
            bytes == self.size(),
            self.is_valid(),
    {
        proof {
            use_type_invariant(self);
        }
        self.max - self.min
    }

    pub fn validate_cursor(self, cursor: u32) -> (result: Result<u32, ProtocolError>)
        ensures
            result == (if self.holds(cursor) {
                Ok(cursor)
            } else {
                Err(ProtocolError::InvalidFifoCursor)
            }),
    {
        if cursor < self.min || cursor >= self.max || cursor % 4 != 0 {
            return Err(ProtocolError::InvalidFifoCursor);
        }
        Ok(cursor)
    }

    /// Bytes that can be written at `next` while the reader is at `stop`.
    pub fn free_bytes(self, next: u32, stop: u32) -> (result: Result<u32, ProtocolError>)
        ensures
            match result {
                Ok(bytes) => self.holds(next) && self.holds(stop) && bytes == self.room(next, stop),
                Err(error) => error == ProtocolError::InvalidFifoCursor && !(self.holds(next)
                    && self.holds(stop)),
            },
    {
        proof {
            use_type_invariant(self);
        }
        match self.validate_cursor(next) {
            Ok(_) => {},
            Err(error) => {
                return Err(error);
            },
        }
        match self.validate_cursor(stop) {
            Ok(_) => {},
            Err(error) => {
                return Err(error);
            },
        }
        let distance: u32 = if next >= stop {
            (self.max - next) + (stop - self.min)
        } else {
            stop - next
        };
        match distance.checked_sub(FIFO_GUARD_BYTES) {
            Some(bytes) => Ok(bytes),
            None => Err(ProtocolError::InvalidFifoLayout),
        }
    }

    /// Claim `bytes` bytes at `next`, and give the cursor behind them.
    pub fn reserve(self, next: u32, stop: u32, bytes: u32) -> (result: Result<u32, ProtocolError>)
        ensures
            result == self.reserved(next, stop, bytes as int),
    {
        if bytes == 0 || bytes % 4 != 0 || bytes >= self.capacity() {
            return Err(ProtocolError::InvalidCommand);
        }
        match self.free_bytes(next, stop) {
            Ok(free) => {
                if bytes > free {
                    return Err(ProtocolError::FifoFull);
                }
            },
            Err(error) => {
                return Err(error);
            },
        }
        self.advance(next, bytes)
    }

    /// The cursor `bytes` further round the ring.
    pub fn advance(self, cursor: u32, bytes: u32) -> (result: Result<u32, ProtocolError>)
        ensures
            result == (if !self.holds(cursor) {
                Err(ProtocolError::InvalidFifoCursor)
            } else if bytes % 4 != 0 || bytes >= self.size() {
                Err(ProtocolError::InvalidCommand)
            } else {
                Ok(self.moved(cursor, bytes as int))
            }),
    {
        match self.validate_cursor(cursor) {
            Ok(_) => {},
            Err(error) => {
                return Err(error);
            },
        }
        if bytes % 4 != 0 || bytes >= self.capacity() {
            return Err(ProtocolError::InvalidCommand);
        }
        let size: u32 = self.capacity();
        let relative: u64 = (cursor - self.min) as u64;
        proof {
            lemma_mod_bound(relative + bytes, size as int);
        }
        let wrapped: u64 = (relative + bytes as u64) % size as u64;
        Ok(self.min + wrapped as u32)
    }
}

proof fn lemma_wrap(value: int, size: int)
    requires
        0 < size,
        0 <= value < 2 * size,
    ensures
        value % size == (if value < size {
            value
        } else {
            value - size
        }),
{
    if value < size {
        lemma_small_mod(value as nat, size as nat);
    } else {
        lemma_fundamental_div_mod_converse(value, size, 1, value - size);
    }
}

/// A cursor that moves by whole words stays in the ring.
pub proof fn lemma_moved_stays_in_ring(layout: FifoLayout, cursor: u32, bytes: int)
    requires
        layout.is_valid(),
        layout.holds(cursor),
        0 <= bytes < layout.size(),
        bytes % 4 == 0,
    ensures
        layout.holds(layout.moved(cursor, bytes)),
        layout.moved(cursor, bytes) as int == layout.lower() + (cursor - layout.lower() + bytes)
            % layout.size(),
{
    lemma_wrap(cursor - layout.lower() + bytes, layout.size());
}

/// Moving twice is moving by the sum.
pub proof fn lemma_moves_add_up(layout: FifoLayout, cursor: u32, a: int, b: int)
    requires
        layout.is_valid(),
        layout.holds(cursor),
        0 <= a < layout.size(),
        a % 4 == 0,
        0 <= b,
    ensures
        layout.moved(layout.moved(cursor, a), b) == layout.moved(cursor, a + b),
{
    lemma_moved_stays_in_ring(layout, cursor, a);
    lemma_add_mod_noop_right(b, cursor - layout.lower() + a, layout.size());
}

/// A claim that was granted takes exactly its bytes from the room that was
/// there, so the writer never catches up with the reader.
pub proof fn lemma_reserve_takes_its_bytes(layout: FifoLayout, next: u32, stop: u32, bytes: int)
    requires
        layout.is_valid(),
        0 <= bytes,
        layout.reserved(next, stop, bytes) is Ok,
    ensures
        ({
            let after = layout.reserved(next, stop, bytes)->Ok_0;
            &&& layout.holds(after)
            &&& layout.room(after, stop) == layout.room(next, stop) - bytes
            &&& layout.room(after, stop) >= 0
        }),
{
    lemma_moved_stays_in_ring(layout, next, bytes);
    lemma_wrap(next - layout.lower() + bytes, layout.size());
}

/// The room is what is left of the ring behind the words that wait to be read
/// and the one that stays free.
pub proof fn lemma_room_of_empty_ring(layout: FifoLayout, cursor: u32)
    requires
        layout.is_valid(),
        layout.holds(cursor),
    ensures
        layout.room(cursor, cursor) == layout.size() - FIFO_GUARD_BYTES,
{
}

pub const CMD_UPDATE: u32 = 1;
pub const CMD_RECT_COPY: u32 = 3;
pub const CMD_FENCE: u32 = 30;

/// Show a part of the screen.
#[derive(Clone, Copy, Debug, Eq, PartialEq)]
pub struct UpdateCommand {
    pub words: [u32; 5],
}

/// The words of an update.
pub open spec fn update_words(rect: Rect) -> Seq<u32> {
    seq![CMD_UPDATE, rect.x, rect.y, rect.width, rect.height]
}

impl UpdateCommand {
    pub fn new(rect: Rect, mode: Mode) -> (result: Result<Self, ProtocolError>)
        ensures
            match result {
                Ok(command) => rect.is_on(mode) && command.words@ == update_words(rect),
                Err(error) => !rect.is_on(mode) && error == ProtocolError::InvalidRectangle,
            },
    {
        match rect.validate(mode) {
            Ok(rect) => {
                let command = UpdateCommand {
                    words: [CMD_UPDATE, rect.x, rect.y, rect.width, rect.height],
                };
                assert(command.words@ == update_words(rect));
                Ok(command)
            },
            Err(error) => Err(error),
        }
    }

    pub fn words(&self) -> (words: &[u32; 5])
        ensures
            words == self.words,
    {
        &self.words
    }
}

/// Copy a part of the screen.
#[derive(Clone, Copy, Debug, Eq, PartialEq)]
pub struct RectCopyCommand {
    pub words: [u32; 7],
}

/// The words of a copy.
pub open spec fn copy_words(copy: CopyRect) -> Seq<u32> {
    seq![
        CMD_RECT_COPY,
        copy.source_x,
        copy.source_y,
        copy.destination_x,
        copy.destination_y,
        copy.width,
        copy.height,
    ]
}

impl RectCopyCommand {
    pub fn new(copy: CopyRect, mode: Mode) -> (result: Result<Self, ProtocolError>)
        ensures
            match result {
                Ok(command) => copy.is_on(mode) && command.words@ == copy_words(copy),
                Err(error) => !copy.is_on(mode) && error == ProtocolError::InvalidRectangle,
            },
    {
        match copy.validate(mode) {
            Ok(copy) => {
                let command = RectCopyCommand {
                    words: [
                        CMD_RECT_COPY,
                        copy.source_x,
                        copy.source_y,
                        copy.destination_x,
                        copy.destination_y,
                        copy.width,
                        copy.height,
                    ],
                };
                assert(command.words@ == copy_words(copy));
                Ok(command)
            },
            Err(error) => Err(error),
        }
    }

    pub fn words(&self) -> (words: &[u32; 7])
        ensures
            words == self.words,
    {
        &self.words
    }
}

/// Report a number once everything before it was done.
#[derive(Clone, Copy, Debug, Eq, PartialEq)]
pub struct FenceCommand {
    pub words: [u32; 2],
}

/// The words of a fence.
pub open spec fn fence_words(sequence: u32) -> Seq<u32> {
    seq![CMD_FENCE, sequence]
}

impl FenceCommand {
    pub fn new(sequence: u32) -> (result: Result<Self, ProtocolError>)
        ensures
            match result {
                Ok(command) => sequence != 0 && command.words@ == fence_words(sequence),
                Err(error) => sequence == 0 && error == ProtocolError::InvalidCommand,
            },
    {
        if sequence == 0 {
            return Err(ProtocolError::InvalidCommand);
        }
        let command = FenceCommand { words: [CMD_FENCE, sequence] };
        assert(command.words@ == fence_words(sequence));
        Ok(command)
    }

    pub fn words(&self) -> (words: &[u32; 2])
        ensures
            words == self.words,
    {
        &self.words
    }
}

/// The source of fence numbers.
#[derive(Clone, Copy, Debug, Eq, PartialEq, Structural)]
pub struct FenceSequence {
    pub next: u32,
}

/// The fence number behind another: zero is left out.
pub open spec fn next_fence(current: u32) -> u32 {
    if current == u32::MAX {
        1
    } else {
        (current + 1) as u32
    }
}

/// Whether a fence is reached, for numbers less than half the range apart.
pub open spec fn fence_passed(completed: u32, target: u32) -> bool {
    completed.wrapping_sub(target) < 0x8000_0000
}

impl FenceSequence {
    pub fn new() -> (sequence: Self)
        ensures
            sequence.next == 1,
    {
        FenceSequence { next: 1 }
    }

    /// The next number.
    pub fn allocate(&mut self) -> (number: u32)
        ensures
            number == old(self).next,
            final(self).next == next_fence(old(self).next),
    {
        let current: u32 = self.next;
        self.next = self.next.wrapping_add(1);
        if self.next == 0 {
            self.next = 1;
        }
        current
    }

    /// Whether the fence `target` is reached where `completed` was reported.
    pub fn passed(completed: u32, target: u32) -> (passed: bool)
        ensures
            passed == fence_passed(completed, target),
    {
        completed.wrapping_sub(target) < 0x8000_0000
    }
}

impl Default for FenceSequence {
    fn default() -> (sequence: Self)
        ensures
            sequence.next == 1,
    {
        FenceSequence::new()
    }
}

/// Zero is never given out behind a number that is not zero.
pub proof fn lemma_fence_is_never_zero(current: u32)
    ensures
        next_fence(current) != 0,
{
}

/// A fence is reached once it is reported itself, and still when up to half
/// the range of numbers followed it; a number ahead of what was reported is
/// not.
pub proof fn lemma_fence_order(target: u32, distance: u32)
    requires
        distance < 0x8000_0000,
    ensures
        fence_passed(target.wrapping_add(distance), target),
        distance > 0 ==> !fence_passed(target, target.wrapping_add(distance)),
{
}

} // verus!
