//! What the negotiation engine knows of the media engine it supervises.
use vstd::prelude::*;
use crate::text::push_str;

verus! {

/// Settings of the H264 encoder.
#[derive(Clone, Copy, Debug, PartialEq, Eq)]
pub struct H264Settings {
    pub nvidia_encoder: bool,
}

/// The video encoder the media engine runs.
#[derive(Clone, Copy, Debug, PartialEq, Eq)]
pub enum VideoEncoderType {
    H264(H264Settings),
    VP8,
    VP9,
}

/// The codec name that the encoder's RTP map lines carry.
pub open spec fn codec_name_spec(e: VideoEncoderType) -> Seq<char> {
    match e {
        VideoEncoderType::H264(_) => "H264"@,
        VideoEncoderType::VP8 => "VP8"@,
        VideoEncoderType::VP9 => "VP9"@,
    }
}

impl VideoEncoderType {
    /// The codec name that the encoder's RTP map lines carry.
    pub fn codec_name(&self) -> (r: String)
        ensures
            r@ == codec_name_spec(*self),
    {
        let mut r = String::new();
        match self {
            VideoEncoderType::H264(_) => push_str(&mut r, "H264"),
            VideoEncoderType::VP8 => push_str(&mut r, "VP8"),
            VideoEncoderType::VP9 => push_str(&mut r, "VP9"),
        }
        r
    }
}

/// The composed answer, as handed to the media engine.
#[derive(Clone, Debug, PartialEq, Eq)]
pub struct ToGst {
    pub remote_sdp: String,
}

/// The synchronization sources of one stream.
#[derive(Clone, Copy, Debug, PartialEq, Eq)]
pub struct StreamSSRCs {
    pub audio: u32,
    pub video: u32,
    pub rtx: u32,
}

} // verus!
