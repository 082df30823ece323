use vstd::prelude::*;

verus! {

/// Which class of audio endpoint a capture session opens.
#[derive(Debug, Clone, Copy, PartialEq, Eq, Structural)]
pub enum DeviceType {
    /// A microphone or other input device.
    Input,
    /// The loopback or monitor side of an output device.
    Output,
}

impl DeviceType {
    /// Microphone mode captures from an input device, otherwise from the
    /// output side.
    pub fn from_mic_mode(mic_mode: bool) -> (r: DeviceType)
        ensures
            r == (if mic_mode { DeviceType::Input } else { DeviceType::Output }),
    {
        if mic_mode {
            DeviceType::Input
        } else {
            DeviceType::Output
        }
    }
}

/// The block lengths a device says it may deliver, when it says.
#[derive(Debug, Clone, Copy, PartialEq, Eq, Structural)]
pub enum BufferSizeRange {
    Range { min: u32, max: u32 },
    Unknown,
}

/// What the stream callback does with one delivered block.
#[derive(Debug, Clone, Copy, PartialEq, Eq, Structural)]
pub enum BlockAction {
    /// The run flag is down: touch nothing, send nothing.
    Ignore,
    /// The block length lies outside the device's range: report and drop it.
    Drop,
    /// Split the block into channels and send the frame.
    Deliver,
}

/// What the capture thread's keep-alive loop does on one poll.
#[derive(Debug, Clone, Copy, PartialEq, Eq, Structural)]
pub enum PollAction {
    /// Sleep one poll interval and look again.
    Sleep,
    /// Leave the loop and drop the stream.
    Exit,
}

pub open spec fn block_action_spec(running: bool, len: nat, range: BufferSizeRange) -> BlockAction {
    if !running {
        BlockAction::Ignore
    } else {
        match range {
            BufferSizeRange::Range { min, max } => {
                if len < min || len > max {
                    BlockAction::Drop
                } else {
                    BlockAction::Deliver
                }
            },
            BufferSizeRange::Unknown => BlockAction::Deliver,
        }
    }
}

pub open spec fn poll_action_spec(running: bool) -> PollAction {
    if running {
        PollAction::Sleep
    } else {
        PollAction::Exit
    }
}

/// Decides the fate of a block of `len` interleaved samples, given the run
/// flag as the callback read it and the device's buffer-size range. A device
/// that reports no range has every block accepted.
pub fn block_action(running: bool, len: usize, range: BufferSizeRange) -> (r: BlockAction)
    ensures
        r == block_action_spec(running, len as nat, range),
{
    if !running {
        return BlockAction::Ignore;
    }
    match range {
        BufferSizeRange::Range { min, max } => {
            if len < min as usize || len > max as usize {
                BlockAction::Drop
            } else {
                BlockAction::Deliver
            }
        },
        BufferSizeRange::Unknown => BlockAction::Deliver,
    }
}

/// The run flag after a send attempt: a failed send means the receiving
/// side is gone, and the session shuts itself down.
pub fn flag_after_send(running: bool, sent: bool) -> (r: bool)
    ensures
        r == (running && sent),
{
    running && sent
}

/// The keep-alive loop runs while the flag is up.
pub fn poll_action(running: bool) -> (r: PollAction)
    ensures
        r == poll_action_spec(running),
{
    if running {
        PollAction::Sleep
    } else {
        PollAction::Exit
    }
}

/// Once the run flag is down, every later block is left untouched with
/// nothing sent, whatever its length, and the keep-alive loop exits at its
/// next poll.
pub proof fn lowered_flag_stops_capture(len: nat, range: BufferSizeRange)
    ensures
        block_action_spec(false, len, range) == BlockAction::Ignore,
        poll_action_spec(false) == PollAction::Exit,
{
}

/// One block from the device, split into channels.
pub struct AudioProcessedEvent<T> {
    pub left: Vec<T>,
    pub right: Vec<T>,
}

/// Samples of channel `which` in an interleaved block of `channels`
/// channels: one per complete frame, a trailing partial frame left out.
pub open spec fn channel_samples<T>(data: Seq<T>, channels: nat, which: nat) -> Seq<T>
    recommends
        which < channels,
{
    Seq::new(data.len() / channels, |k: int| data[k * channels + which])
}

/// Splits an interleaved block into a left and a right sequence.
///
/// With two or more channels the left takes each frame's first sample and
/// the right its second; further channels are left out. A one-channel
/// block is copied to both sides. A block that claims no channels yields
/// nothing.
pub fn deinterleave<T: Copy>(data: &[T], channels: usize) -> (r: AudioProcessedEvent<T>)
    ensures
        channels == 0 ==> r.left@.len() == 0 && r.right@.len() == 0,
        channels == 1 ==> r.left@ == data@ && r.right@ == data@,
        channels >= 2 ==> r.left@ == channel_samples(data@, channels as nat, 0) && r.right@
            == channel_samples(data@, channels as nat, 1),
{
    let mut left: Vec<T> = Vec::new();
    let mut right: Vec<T> = Vec::new();
    if channels == 0 {
        return AudioProcessedEvent { left, right };
    }
    let n = data.len();
    let frames = n / channels;
    let mut k: usize = 0;
    while k < frames
        invariant
            channels >= 1,
            n == data@.len(),
            frames == n / channels,
            k <= frames,
            left@.len() == k,
            right@.len() == k,
            channels == 1 ==> forall|j: int| 0 <= j < k ==> left@[j] == data@[j] && right@[j]
                == data@[j],
            channels >= 2 ==> forall|j: int|
                0 <= j < k ==> left@[j] == data@[j * channels] && right@[j] == data@[j * channels
                    + 1],
        decreases frames - k,
    {
        proof {
            lemma_frame_in_bounds(k as int, channels as int, n as int);
        }
        let base = k * channels;
        if channels == 1 {
            left.push(data[base]);
            right.push(data[base]);
        } else {
            left.push(data[base]);
            right.push(data[base + 1]);
        }
        k = k + 1;
    }
    proof {
        if channels == 1 {
            assert(left@ == data@);
            assert(right@ == data@);
        } else {
            assert(left@ == channel_samples(data@, channels as nat, 0));
            assert(right@ == channel_samples(data@, channels as nat, 1));
        }
    }
    AudioProcessedEvent { left, right }
}

/// Frame `k` of a block with `len / c` complete frames lies inside it.
proof fn lemma_frame_in_bounds(k: int, c: int, len: int)
    requires
        c >= 1,
        len >= 0,
        0 <= k < len / c,
    ensures
        k * c + c <= len,
{
    assert(k * c + c <= (len / c) * c) by (nonlinear_arith)
        requires
            k + 1 <= len / c,
            c >= 1,
    ;
    assert((len / c) * c <= len) by (nonlinear_arith)
        requires
            c >= 1,
            len >= 0,
    ;
}

} // verus!
