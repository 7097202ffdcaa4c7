//! Choosing the video encoder: which hardware encoders the toolchain lists,
//! whether the NVIDIA one really works, and the plan that follows.

use crate::text::chars_of;
use crate::text::contains_text;
use crate::text::lowercase;
use crate::text::push_text;
use crate::text::same_text;
use crate::text::text_contains;
use crate::text::texts;
use crate::text::to_lowercase;
use vstd::prelude::*;

verus! {

/// An encoder and the options that go with it.
#[derive(Debug, Clone)]
pub struct EncoderPlan {
    /// The name of the video codec.
    pub codec: String,
    /// Further arguments for the encoder, in order.
    pub params: Vec<String>,
    /// The preset to ask for, if any.
    pub preset: Option<String>,
}

/// What an [`EncoderPlan`] holds.
pub struct PlanModel {
    /// The name of the video codec.
    pub codec: Seq<char>,
    /// Further arguments for the encoder, in order.
    pub params: Seq<Seq<char>>,
    /// The preset to ask for, if any.
    pub preset: Option<Seq<char>>,
}

impl View for EncoderPlan {
    type V = PlanModel;

    open spec fn view(&self) -> PlanModel {
        PlanModel {
            codec: self.codec@,
            params: texts(self.params@),
            preset: match self.preset {
                Some(p) => Some(p@),
                None => None,
            },
        }
    }
}

/// Whether hardware encoding is to be preferred: always, unless the
/// development override forces software encoding.
pub fn should_prefer_hw_encoding(force_software: bool) -> (prefer: bool)
    ensures
        prefer == !force_software,
{
    !force_software
}

/// The flags for creating a child process without a console window and at
/// below-normal priority.
pub fn process_creation_flags() -> (flags: u32)
    ensures
        flags == 0x0800_4000,
{
    let no_window: u32 = 0x0800_0000;
    let below_normal: u32 = 0x0000_4000;
    let flags = no_window | below_normal;
    assert(0x0800_0000u32 | 0x0000_4000u32 == 0x0800_4000u32) by (bit_vector);
    flags
}

/// The toolchain binary to run: the bundled one where there is one, else the
/// one on the search path where that answers, else none.
pub fn resolve_ffmpeg_binary(bundled: Option<String>, system_answers: bool) -> (exe: Option<String>)
    ensures
        bundled is Some ==> exe == bundled,
        bundled is None && system_answers ==> exe is Some && exe->0@ == "ffmpeg"@,
        bundled is None && !system_answers ==> exe is None,
{
    match bundled {
        Some(path) => Some(path),
        None => if system_answers {
            Some(String::from_str("ffmpeg"))
        } else {
            None
        },
    }
}

/// The probe binary to run: the bundled one where there is one, else the one
/// on the search path.
pub fn resolve_ffprobe_binary(bundled: Option<String>) -> (exe: String)
    ensures
        bundled is Some ==> exe == bundled->0,
        bundled is None ==> exe@ == "ffprobe"@,
{
    match bundled {
        Some(path) => path,
        None => String::from_str("ffprobe"),
    }
}

/// The hardware encoders named in a lower-cased encoder listing, in the order
/// NVIDIA, Intel, AMD.
pub open spec fn hw_encoders_in(listing: Seq<char>) -> Seq<Seq<char>> {
    let nvidia = if contains_text(listing, "h264_nvenc"@) {
        seq!["h264_nvenc"@]
    } else {
        Seq::empty()
    };
    let intel = if contains_text(listing, "h264_qsv"@) {
        seq!["h264_qsv"@]
    } else {
        Seq::empty()
    };
    let amd = if contains_text(listing, "h264_amf"@) {
        seq!["h264_amf"@]
    } else {
        Seq::empty()
    };
    nvidia + intel + amd
}

/// The hardware H.264 encoders that the toolchain's encoder listing names.
pub fn probe_hw_encoders(listing: &str) -> (found: Vec<String>)
    ensures
        texts(found@) == hw_encoders_in(lowercase(listing@)),
{
    let lowered = to_lowercase(listing);
    read_hw_encoders(lowered.as_str())
}

/// The hardware H.264 encoders named in an encoder listing that is already
/// in lower case.
pub fn read_hw_encoders(lowered: &str) -> (found: Vec<String>)
    ensures
        texts(found@) == hw_encoders_in(lowered@),
{
    let txt = chars_of(lowered);
    let mut found: Vec<String> = Vec::new();
    assert(texts(found@) =~= Seq::<Seq<char>>::empty());
    if text_contains(&txt, "h264_nvenc") {
        push_text(&mut found, "h264_nvenc");
    }
    if text_contains(&txt, "h264_qsv") {
        push_text(&mut found, "h264_qsv");
    }
    if text_contains(&txt, "h264_amf") {
        push_text(&mut found, "h264_amf");
    }
    assert(texts(found@) =~= hw_encoders_in(lowered@));
    found
}

/// The arguments of the synthetic encode that tests the NVIDIA encoder on one
/// black frame of `size` by `size` pixels.
pub open spec fn nvenc_test_args(source: Seq<char>) -> Seq<Seq<char>> {
    seq![
        "-y"@,
        "-hide_banner"@,
        "-loglevel"@,
        "error"@,
        "-f"@,
        "lavfi"@,
        "-i"@,
        source,
        "-c:v"@,
        "h264_nvenc"@,
        "-preset"@,
        "fast"@,
        "-pix_fmt"@,
        "yuv420p"@,
        "-frames:v"@,
        "1"@,
        "-f"@,
        "null"@,
        "-"@,
    ]
}

/// The two sizes at which the NVIDIA encoder is tested.
#[derive(Debug, Clone, Copy, PartialEq, Eq, Structural)]
pub enum TestSize {
    /// 128 by 128 pixels, the first attempt.
    Small,
    /// 256 by 256 pixels, the second attempt.
    Large,
}

/// The black test source of the given size.
pub open spec fn nvenc_test_source(size: TestSize) -> Seq<char> {
    match size {
        TestSize::Small => "color=c=black:s=128x128:r=1:d=0.04"@,
        TestSize::Large => "color=c=black:s=256x256:r=1:d=0.04"@,
    }
}

/// Builds the arguments of the synthetic NVIDIA encode at the given size.
pub fn nvenc_test_command(size: TestSize) -> (args: Vec<String>)
    ensures
        texts(args@) == nvenc_test_args(nvenc_test_source(size)),
{
    let mut args: Vec<String> = Vec::new();
    assert(texts(args@) =~= Seq::<Seq<char>>::empty());
    push_text(&mut args, "-y");
    push_text(&mut args, "-hide_banner");
    push_text(&mut args, "-loglevel");
    push_text(&mut args, "error");
    push_text(&mut args, "-f");
    push_text(&mut args, "lavfi");
    push_text(&mut args, "-i");
    match size {
        TestSize::Small => push_text(&mut args, "color=c=black:s=128x128:r=1:d=0.04"),
        TestSize::Large => push_text(&mut args, "color=c=black:s=256x256:r=1:d=0.04"),
    }
    push_text(&mut args, "-c:v");
    push_text(&mut args, "h264_nvenc");
    push_text(&mut args, "-preset");
    push_text(&mut args, "fast");
    push_text(&mut args, "-pix_fmt");
    push_text(&mut args, "yuv420p");
    push_text(&mut args, "-frames:v");
    push_text(&mut args, "1");
    push_text(&mut args, "-f");
    push_text(&mut args, "null");
    push_text(&mut args, "-");
    assert(texts(args@) =~= nvenc_test_args(nvenc_test_source(size)));
    args
}

/// How a synthetic encode went.
#[derive(Debug, Clone)]
pub enum ProbeOutcome {
    /// The process could not be started.
    NotStarted,
    /// The process ran: whether it succeeded, and what it wrote to its error
    /// stream.
    Ran { success: bool, stderr: String },
}

/// What a test of the NVIDIA encoder tells.
#[derive(Debug, Clone, Copy, PartialEq, Eq, Structural)]
pub enum NvencVerdict {
    /// The encoder works.
    Available,
    /// The encoder does not work.
    Unavailable,
    /// The frame was too small: test again at the larger size.
    RetryLarger,
}

/// Whether a lower-cased error text tells of a missing device or driver.
pub open spec fn tells_no_device(lowered: Seq<char>) -> bool {
    ||| contains_text(lowered, "cannot load nvcuda.dll"@)
    ||| contains_text(lowered, "no nvidia devices"@)
    ||| contains_text(lowered, "cuda"@)
    ||| contains_text(lowered, "driver"@)
}

/// The verdict on a failed first test, given its lower-cased error text.
pub open spec fn failure_verdict(lowered: Seq<char>) -> NvencVerdict {
    if tells_no_device(lowered) {
        NvencVerdict::Unavailable
    } else if contains_text(lowered, "frame dimension"@) {
        NvencVerdict::RetryLarger
    } else {
        NvencVerdict::Unavailable
    }
}

/// Reads the error text of a failed first test, already in lower case.
pub fn read_nvenc_failure(lowered: &str) -> (verdict: NvencVerdict)
    ensures
        verdict == failure_verdict(lowered@),
{
    let txt = chars_of(lowered);
    if text_contains(&txt, "cannot load nvcuda.dll") || text_contains(&txt, "no nvidia devices")
        || text_contains(&txt, "cuda") || text_contains(&txt, "driver") {
        NvencVerdict::Unavailable
    } else if text_contains(&txt, "frame dimension") {
        NvencVerdict::RetryLarger
    } else {
        NvencVerdict::Unavailable
    }
}

/// Judges the first test of the NVIDIA encoder, at 128 by 128 pixels.
///
/// A test that succeeded shows the encoder available. One that failed with
/// an error text that tells of a missing device, driver or CUDA library shows
/// it unavailable; one that complains of the frame dimension asks for the
/// larger test; any other failure, and a process that did not start, show it
/// unavailable.
pub fn test_nvenc_availability(outcome: &ProbeOutcome) -> (verdict: NvencVerdict)
    ensures
        verdict == match *outcome {
            ProbeOutcome::NotStarted => NvencVerdict::Unavailable,
            ProbeOutcome::Ran { success, stderr } => if success {
                NvencVerdict::Available
            } else {
                failure_verdict(lowercase(stderr@))
            },
        },
{
    match outcome {
        ProbeOutcome::NotStarted => NvencVerdict::Unavailable,
        ProbeOutcome::Ran { success, stderr } => {
            if *success {
                NvencVerdict::Available
            } else {
                let lowered = to_lowercase(stderr.as_str());
                read_nvenc_failure(lowered.as_str())
            }
        },
    }
}

/// Judges the second test of the NVIDIA encoder, at 256 by 256 pixels: the
/// encoder is available exactly if the test ran and succeeded.
pub fn test_nvenc_with_larger_resolution(outcome: &ProbeOutcome) -> (available: bool)
    ensures
        available == match *outcome {
            ProbeOutcome::NotStarted => false,
            ProbeOutcome::Ran { success, .. } => success,
        },
{
    match outcome {
        ProbeOutcome::NotStarted => false,
        ProbeOutcome::Ran { success, stderr: _ } => *success,
    }
}

/// Whether the first listed hardware encoder is the NVIDIA one, which has to
/// be tested before it is chosen.
pub open spec fn wants_nvenc_test(hw: Seq<Seq<char>>) -> bool {
    hw.len() > 0 && hw[0] == "h264_nvenc"@
}

/// Whether the NVIDIA encoder has to be tested before a codec is chosen.
pub fn needs_nvenc_test(hw: &Vec<String>) -> (needed: bool)
    ensures
        needed == wants_nvenc_test(texts(hw@)),
{
    hw.len() > 0 && same_text(hw[0].as_str(), "h264_nvenc")
}

/// The software plan: `libx264` at CRF 22, tuned for zero latency, without
/// B-frames, preset `ultrafast`.
pub open spec fn software_plan() -> PlanModel {
    PlanModel {
        codec: "libx264"@,
        params: seq![
            "-pix_fmt"@,
            "yuv420p"@,
            "-crf"@,
            "22"@,
            "-tune"@,
            "zerolatency"@,
            "-bf"@,
            "0"@,
        ],
        preset: Some("ultrafast"@),
    }
}

/// The plan for the listed hardware encoders `hw`: the first of them, if it
/// is viable, else software. The NVIDIA encoder is viable only if its test
/// passed; it runs without B-frames at preset `p4`. Other hardware encoders
/// are taken on the listing alone, without a preset.
pub open spec fn codec_choice(hw: Seq<Seq<char>>, nvenc_works: bool) -> PlanModel {
    if hw.len() == 0 {
        software_plan()
    } else if hw[0] == "h264_nvenc"@ {
        if nvenc_works {
            PlanModel {
                codec: hw[0],
                params: seq!["-pix_fmt"@, "yuv420p"@, "-bf"@, "0"@],
                preset: Some("p4"@),
            }
        } else {
            software_plan()
        }
    } else {
        PlanModel { codec: hw[0], params: seq!["-pix_fmt"@, "yuv420p"@], preset: None }
    }
}

/// Chooses the encoder.
///
/// `hw` lists the hardware encoders found, and is ignored unless `prefer_hw`
/// is set; `nvenc_works` tells how the test of the NVIDIA encoder ended, and
/// matters only where that encoder is listed first.
pub fn choose_best_codec(prefer_hw: bool, hw: &Vec<String>, nvenc_works: bool) -> (plan:
    EncoderPlan)
    ensures
        plan@ == codec_choice(
            if prefer_hw {
                texts(hw@)
            } else {
                Seq::empty()
            },
            nvenc_works,
        ),
{
    let mut params: Vec<String> = Vec::new();
    assert(texts(params@) =~= Seq::<Seq<char>>::empty());
    if prefer_hw && hw.len() > 0 {
        assert(texts(hw@)[0] == hw@[0]@);
        if same_text(hw[0].as_str(), "h264_nvenc") {
            if nvenc_works {
                push_text(&mut params, "-pix_fmt");
                push_text(&mut params, "yuv420p");
                push_text(&mut params, "-bf");
                push_text(&mut params, "0");
                assert(texts(params@) =~= seq!["-pix_fmt"@, "yuv420p"@, "-bf"@, "0"@]);
                return EncoderPlan {
                    codec: hw[0].clone(),
                    params,
                    preset: Some(String::from_str("p4")),
                };
            }
        } else {
            push_text(&mut params, "-pix_fmt");
            push_text(&mut params, "yuv420p");
            assert(texts(params@) =~= seq!["-pix_fmt"@, "yuv420p"@]);
            return EncoderPlan { codec: hw[0].clone(), params, preset: None };
        }
    }
    push_text(&mut params, "-pix_fmt");
    push_text(&mut params, "yuv420p");
    push_text(&mut params, "-crf");
    push_text(&mut params, "22");
    push_text(&mut params, "-tune");
    push_text(&mut params, "zerolatency");
    push_text(&mut params, "-bf");
    push_text(&mut params, "0");
    assert(texts(params@) =~= software_plan().params);
    EncoderPlan {
        codec: String::from_str("libx264"),
        params,
        preset: Some(String::from_str("ultrafast")),
    }
}

/// The arguments that ask for a preset: none where the plan has none.
pub open spec fn preset_args(preset: Option<Seq<char>>) -> Seq<Seq<char>> {
    match preset {
        Some(p) => seq!["-preset"@, p],
        None => Seq::empty(),
    }
}

/// Appends the arguments that ask for the plan's preset.
pub fn push_preset(args: &mut Vec<String>, plan: &EncoderPlan)
    ensures
        texts(final(args)@) == texts(old(args)@) + preset_args(plan@.preset),
{
    match &plan.preset {
        Some(p) => {
            push_text(args, "-preset");
            push_text(args, p.as_str());
            assert(texts(args@) =~= texts(old(args)@) + preset_args(plan@.preset));
        },
        None => {
            assert(texts(args@) =~= texts(old(args)@) + preset_args(plan@.preset));
        },
    }
}

} // verus!
