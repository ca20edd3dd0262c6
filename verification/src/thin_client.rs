//! The handheld side of the USB thin-client link: the bulk-transfer state
//! machine, the message format exchanged with the host, and the double
//! buffered framebuffer the host streams pixels into.
//!
//! Messages start with a four-byte header `[type, flags, len_lo, len_hi]`.
//! The host sends frame chunks (`flags` = chunk index), frame-done markers
//! and input requests; every message is answered with the controller state.
use vstd::prelude::*;

verus! {

/// Size of a message header.
pub const MSG_HEADER_SIZE: usize = 4;

/// Host to handheld: a chunk of pixels for the frame being drawn.
pub const CMD_FRAME_CHUNK: u8 = 0x11;

/// Host to handheld: the frame is complete.
pub const CMD_FRAME_DONE: u8 = 0x12;

/// Host to handheld: request for the controller state.
pub const CMD_GET_INPUT: u8 = 0x20;

/// Handheld to host: the controller state.
pub const RSP_INPUT_STATE: u8 = 0x21;

/// Size of the receive buffer.
pub const RECV_BUF_SIZE: usize = 16384;

/// Size of the send buffer.
pub const SEND_BUF_SIZE: usize = 16384;

/// Pixels per framebuffer row, padding included.
pub const STRIDE: u32 = 512;

/// Bytes per RGB565 pixel.
pub const BPP: u32 = 2;

/// Bytes in one framebuffer: 512 x 272 x 2.
pub const FB_SIZE: u32 = 278528;

/// Largest chunk payload; chunk `i` starts `i` payloads into the buffer.
pub const MAX_CHUNK_PAYLOAD: usize = 16376;

/// Base of the uncached mirror of video memory.
pub const VRAM_UNCACHED: u32 = 0x44000000;

/// Data-cache line size.
pub const CACHE_LINE: u32 = 64;

/// Controller state reported to the host.
#[derive(Debug, Clone, Copy, PartialEq, Eq, Structural)]
pub struct InputState {
    /// Pressed-button bit mask.
    pub buttons: u32,
    /// Analog stick, horizontal (128 = centre).
    pub analog_x: u8,
    /// Analog stick, vertical (128 = centre).
    pub analog_y: u8,
    /// Battery level.
    pub battery: u8,
}

impl InputState {
    /// No buttons, stick centred, battery unknown.
    pub fn new() -> (r: Self)
        ensures
            r == (InputState { buttons: 0, analog_x: 128, analog_y: 128, battery: 0 }),
    {
        InputState { buttons: 0, analog_x: 128, analog_y: 128, battery: 0 }
    }
}

/// Little-endian bytes of a 32-bit value.
pub open spec fn le32(v: u32) -> Seq<u8> {
    seq![
        (v % 256) as u8,
        ((v / 256) % 256) as u8,
        ((v / 65536) % 256) as u8,
        ((v / 16777216) % 256) as u8,
    ]
}

/// The twelve-byte answer: header `[0x21, 0, 8, 0]`, the button mask in
/// little-endian order, stick x, stick y, battery and a zero pad byte.
pub open spec fn input_response_spec(s: InputState) -> Seq<u8> {
    seq![RSP_INPUT_STATE, 0u8, 8u8, 0u8] + le32(s.buttons) + seq![
        s.analog_x,
        s.analog_y,
        s.battery,
        0u8,
    ]
}

/// Encode the answer that follows every message.
pub fn input_response(s: &InputState) -> (r: Vec<u8>)
    ensures
        r@ == input_response_spec(*s),
{
    let b = s.buttons;
    let r = vec![
        RSP_INPUT_STATE,
        0u8,
        8u8,
        0u8,
        (b % 256) as u8,
        ((b / 256) % 256) as u8,
        ((b / 65536) % 256) as u8,
        ((b / 16777216) % 256) as u8,
        s.analog_x,
        s.analog_y,
        s.battery,
        0u8,
    ];
    assert(r@ =~= input_response_spec(*s));
    r
}

/// What a received message does to the framebuffer before the answer is
/// sent.
#[derive(Debug, Clone, Copy, PartialEq, Eq, Structural)]
pub enum FrameOp {
    /// Copy `len` payload bytes (they follow the header) into chunk `index`.
    WriteChunk {
        /// Chunk index (the header's flags byte).
        index: u8,
        /// Payload bytes to copy.
        len: usize,
    },
    /// Show the finished frame and draw into the other buffer.
    Swap,
    /// Nothing besides the answer.
    Answer,
}

/// Payload length announced by a header (bytes 2 and 3, little-endian).
pub open spec fn announced_len(buf: Seq<u8>) -> int {
    buf[2] + 256 * buf[3]
}

/// The effect of the message in the first `size` bytes of `buf`: too short
/// for a header, a request for input or an unknown type only get the
/// answer; a frame chunk copies what the header announces, but no more
/// than arrived; a frame-done marker swaps the buffers.
pub open spec fn frame_op_spec(buf: Seq<u8>, size: int) -> FrameOp {
    if size < MSG_HEADER_SIZE {
        FrameOp::Answer
    } else if buf[0] == CMD_FRAME_CHUNK {
        FrameOp::WriteChunk {
            index: buf[1],
            len: if announced_len(buf) < size - MSG_HEADER_SIZE {
                announced_len(buf) as usize
            } else {
                (size - MSG_HEADER_SIZE) as usize
            },
        }
    } else if buf[0] == CMD_FRAME_DONE {
        FrameOp::Swap
    } else {
        FrameOp::Answer
    }
}

/// Decode the message held in the first `size` bytes of `buf`.
pub fn frame_op(buf: &[u8], size: usize) -> (r: FrameOp)
    requires
        size <= buf@.len(),
    ensures
        r == frame_op_spec(buf@, size as int),
        r matches FrameOp::WriteChunk { len, .. } ==> MSG_HEADER_SIZE + len <= size,
{
    if size < MSG_HEADER_SIZE {
        return FrameOp::Answer;
    }
    let msg_type = buf[0];
    let flags = buf[1];
    let announced: usize = buf[2] as usize + 256 * (buf[3] as usize);
    let room = size - MSG_HEADER_SIZE;
    let len = if announced < room {
        announced
    } else {
        room
    };
    if msg_type == CMD_FRAME_CHUNK {
        FrameOp::WriteChunk { index: flags, len }
    } else if msg_type == CMD_FRAME_DONE {
        FrameOp::Swap
    } else {
        FrameOp::Answer
    }
}

/// A frame chunk whose header announces `n` payload bytes (the low byte of
/// `n` in byte 2, the high byte in byte 3) copies `n` bytes into the chunk
/// named by byte 1 when all of them arrived, and only those that arrived
/// otherwise.
pub proof fn lemma_chunk_length_little_endian(buf: Seq<u8>, size: int, n: int)
    requires
        MSG_HEADER_SIZE <= size <= buf.len(),
        buf[0] == CMD_FRAME_CHUNK,
        0 <= n < 0x10000,
        buf[2] == n % 256,
        buf[3] == n / 256,
    ensures
        frame_op_spec(buf, size) == (FrameOp::WriteChunk {
            index: buf[1],
            len: if n <= size - 4 {
                n as usize
            } else {
                (size - 4) as usize
            },
        }),
{
    assert(n == n % 256 + 256 * (n / 256));
}

/// Where chunk `index` lands in a framebuffer and how many of its `len`
/// bytes fit: chunks sit `MAX_CHUNK_PAYLOAD` bytes apart and are cut at the
/// end of the buffer.
pub open spec fn chunk_span_spec(index: u8, len: int) -> (int, int) {
    let offset = index * MAX_CHUNK_PAYLOAD;
    let room = if offset < FB_SIZE {
        FB_SIZE - offset
    } else {
        0
    };
    (offset, if len < room {
        len
    } else {
        room
    })
}

/// Offset and length of the bytes of chunk `index` that are written.
pub fn chunk_span(index: u8, len: usize) -> (r: (usize, usize))
    ensures
        r.0 == chunk_span_spec(index, len as int).0,
        r.1 == chunk_span_spec(index, len as int).1,
        r.1 > 0 ==> r.0 + r.1 <= FB_SIZE,
{
    let offset: usize = index as usize * MAX_CHUNK_PAYLOAD;
    let fb: usize = FB_SIZE as usize;
    let room: usize = if offset < fb {
        fb - offset
    } else {
        0
    };
    let n = if len < room {
        len
    } else {
        room
    };
    (offset, n)
}

/// Address of framebuffer `index` (0 or 1) in uncached video memory.
pub fn vram_addr(index: u32) -> (r: u32)
    requires
        index <= 1,
    ensures
        r == VRAM_UNCACHED + index * FB_SIZE,
{
    VRAM_UNCACHED + index * FB_SIZE
}

/// The two framebuffers: one is drawn into while the other is shown.
pub struct DoubleBuffer {
    /// Buffer the host's chunks are written into.
    pub draw: u32,
    /// Buffer on screen.
    pub disp: u32,
    /// Frames shown so far.
    pub frames_done: u32,
}

impl DoubleBuffer {
    /// The buffers are 0 and 1, one of each role.
    pub open spec fn wf(&self) -> bool {
        &&& self.draw <= 1
        &&& self.disp <= 1
        &&& self.draw != self.disp
    }

    /// Draw into buffer 1 while buffer 0 is shown; no frames yet.
    pub fn new() -> (r: Self)
        ensures
            r.wf(),
            r.draw == 1,
            r.disp == 0,
            r.frames_done == 0,
    {
        DoubleBuffer { draw: 1, disp: 0, frames_done: 0 }
    }

    /// Show the buffer that was drawn into and draw into the other one;
    /// returns the address to hand to the display.
    pub fn swap(&mut self) -> (shown: u32)
        requires
            old(self).wf(),
            old(self).frames_done < u32::MAX,
        ensures
            final(self).wf(),
            *final(self) == swapped(*old(self)),
            shown == VRAM_UNCACHED + old(self).draw * FB_SIZE,
    {
        let draw = self.draw;
        let disp = self.disp;
        self.disp = draw;
        self.draw = disp;
        self.frames_done = self.frames_done + 1;
        vram_addr(draw)
    }
}

/// The buffers after one swap.
pub open spec fn swapped(b: DoubleBuffer) -> DoubleBuffer {
    DoubleBuffer { draw: b.disp, disp: b.draw, frames_done: (b.frames_done + 1) as u32 }
}

/// Swapping keeps one buffer in each role, and swapping twice gives the
/// same buffers their roles back.
pub proof fn lemma_swap_twice(b: DoubleBuffer)
    ensures
        b.wf() ==> swapped(b).wf(),
        swapped(swapped(b)).draw == b.draw,
        swapped(swapped(b)).disp == b.disp,
{
}

/// The cache-line-aligned range covering `size` bytes at `addr`: start
/// rounded down, end rounded up to a line.
pub open spec fn dcache_span_spec(addr: u32, size: u32) -> (int, int) {
    let block = addr - addr % 64;
    let top = (addr + size + 63) - (addr + size + 63) % 64;
    (block, top - block)
}

/// Start and length of the cache lines to invalidate before the device
/// writes `size` bytes at `addr`.
pub fn dcache_span(addr: u32, size: u32) -> (r: (u32, u32))
    requires
        addr + size + 63 <= u32::MAX,
    ensures
        r.0 == dcache_span_spec(addr, size).0,
        r.1 == dcache_span_spec(addr, size).1,
        r.0 <= addr,
        addr + size <= r.0 + r.1,
        r.0 % 64 == 0,
        r.1 % 64 == 0,
{
    let block = addr & !63u32;
    let end: u32 = addr + size + 63;
    let top = end & !63u32;
    assert(block == addr - addr % 64) by (bit_vector)
        requires
            block == addr & !63u32,
    ;
    assert(top == end - end % 64) by (bit_vector)
        requires
            top == end & !63u32,
    ;
    (block, top - block)
}

/// What a finished receive leads to.
#[derive(Debug, Clone, Copy, PartialEq, Eq, Structural)]
pub enum RecvStep {
    /// Nothing: the transfer failed, was empty, or no mode is on.
    Ignore,
    /// Decode the `size` bytes received as a thin-client message.
    Message(usize),
    /// Echo the first `len` bytes back to the host.
    Echo(usize),
}

/// State shared by the transfer callbacks and the main loop.
pub struct Link {
    /// Echo every packet back.
    pub echo_mode: bool,
    /// Decode packets as thin-client messages (takes precedence over echo).
    pub thin_client_mode: bool,
    /// Completed sends.
    pub echo_count: u32,
    /// Size reported by the last receive.
    pub last_recv_size: i32,
    /// Status reported by the last receive.
    pub last_recv_status: i32,
    /// Status reported by the last send.
    pub last_send_status: i32,
    /// A send completed since the main loop last looked.
    pub updated: bool,
    /// Controller state to report.
    pub input: InputState,
    /// Whether the host has attached.
    pub attached: bool,
}

/// The step a receive of `size` bytes with `status` leads to.
pub open spec fn recv_step_spec(echo: bool, thin: bool, size: i32, status: i32) -> RecvStep {
    if size <= 0 || status != 0 {
        RecvStep::Ignore
    } else if thin {
        RecvStep::Message(size as usize)
    } else if echo {
        RecvStep::Echo(
            if size < SEND_BUF_SIZE {
                size as usize
            } else {
                SEND_BUF_SIZE
            },
        )
    } else {
        RecvStep::Ignore
    }
}

impl Link {
    /// No mode on, no transfers yet, controller at rest.
    pub fn new() -> (r: Self)
        ensures
            !r.echo_mode,
            !r.thin_client_mode,
            r.echo_count == 0,
            r.last_recv_size == 0,
            r.last_recv_status == 0,
            r.last_send_status == 0,
            !r.updated,
            r.input == (InputState { buttons: 0, analog_x: 128, analog_y: 128, battery: 0 }),
            !r.attached,
    {
        Link {
            echo_mode: false,
            thin_client_mode: false,
            echo_count: 0,
            last_recv_size: 0,
            last_recv_status: 0,
            last_send_status: 0,
            updated: false,
            input: InputState::new(),
            attached: false,
        }
    }

    /// Turn echo mode on.
    pub fn enable_echo_mode(&mut self)
        ensures
            *final(self) == (Link { echo_mode: true, ..*old(self) }),
    {
        self.echo_mode = true;
    }

    /// Turn thin-client mode on, echo mode off.
    pub fn enable_thin_client_mode(&mut self)
        ensures
            *final(self) == (Link { echo_mode: false, thin_client_mode: true, ..*old(self) }),
    {
        self.echo_mode = false;
        self.thin_client_mode = true;
    }

    /// Record the controller state to report next.
    pub fn update_input(&mut self, buttons: u32, analog_x: u8, analog_y: u8, battery: u8)
        ensures
            *final(self) == (Link { input: InputState { buttons, analog_x, analog_y, battery }, ..*old(self) }),
    {
        self.input = InputState { buttons, analog_x, analog_y, battery };
    }

    /// A receive finished with `size` bytes and `status`: record both and
    /// say what follows.
    pub fn on_recv_complete(&mut self, size: i32, status: i32) -> (r: RecvStep)
        ensures
            r == recv_step_spec(old(self).echo_mode, old(self).thin_client_mode, size, status),
            *final(self) == (Link { last_recv_size: size, last_recv_status: status, ..*old(self) }),
    {
        self.last_recv_size = size;
        self.last_recv_status = status;
        if size <= 0 || status != 0 {
            RecvStep::Ignore
        } else if self.thin_client_mode {
            RecvStep::Message(size as usize)
        } else if self.echo_mode {
            let n = size as usize;
            RecvStep::Echo(
                if n < SEND_BUF_SIZE {
                    n
                } else {
                    SEND_BUF_SIZE
                },
            )
        } else {
            RecvStep::Ignore
        }
    }

    /// A send finished with `status`: count it, flag it for the main loop,
    /// and say whether the next receive is queued (in either mode).
    pub fn on_send_complete(&mut self, status: i32) -> (requeue: bool)
        requires
            old(self).echo_count < u32::MAX,
        ensures
            requeue == (old(self).echo_mode || old(self).thin_client_mode),
            *final(self) == (Link {
                last_send_status: status,
                echo_count: (old(self).echo_count + 1) as u32,
                updated: true,
                ..*old(self)
            }),
    {
        self.last_send_status = status;
        self.echo_count = self.echo_count + 1;
        self.updated = true;
        self.echo_mode || self.thin_client_mode
    }

    /// Whether a send completed since the last poll, and how many have;
    /// clears the flag.
    pub fn poll_echo(&mut self) -> (r: (bool, u32))
        ensures
            r == (old(self).updated, old(self).echo_count),
            *final(self) == (Link { updated: false, ..*old(self) }),
    {
        let updated = self.updated;
        self.updated = false;
        (updated, self.echo_count)
    }

    /// The host attached (`true`) or detached (`false`).
    pub fn set_attached(&mut self, attached: bool)
        ensures
            *final(self) == (Link { attached, ..*old(self) }),
    {
        self.attached = attached;
    }

    /// Whether the host is attached.
    pub fn is_attached(&self) -> (r: bool)
        ensures
            r == self.attached,
    {
        self.attached
    }

    /// After the handshake receive: the size of the message to decode and
    /// answer, if one arrived.
    pub fn handshake_message(&self) -> (r: Option<usize>)
        ensures
            r == if self.last_recv_size > 0 {
                Some(self.last_recv_size as usize)
            } else {
                None::<usize>
            },
    {
        if self.last_recv_size > 0 {
            Some(self.last_recv_size as usize)
        } else {
            None
        }
    }

    /// Size and status of the last receive.
    pub fn last_recv_info(&self) -> (r: (i32, i32))
        ensures
            r == (self.last_recv_size, self.last_recv_status),
    {
        (self.last_recv_size, self.last_recv_status)
    }
}

/// Whether a handshake receive succeeded (otherwise it was cancelled and is
/// queued again).
pub fn handshake_done(size: i32, status: i32) -> (r: bool)
    ensures
        r == (size > 0 && status == 0),
{
    size > 0 && status == 0
}

} // verus!
