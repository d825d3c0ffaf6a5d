//! The parts of an M3U8 playlist that the planning logic reads, as parsed by
//! the `m3u8-rs` crate.

use vstd::prelude::*;

verus! {

#[verifier::external_type_specification]
#[verifier::external_body]
pub struct ExMasterPlaylist(m3u8_rs::MasterPlaylist);

#[verifier::external_type_specification]
#[verifier::external_body]
pub struct ExMediaPlaylist(m3u8_rs::MediaPlaylist);

#[verifier::external_type_specification]
#[verifier::external_body]
pub struct ExVariantStream(m3u8_rs::VariantStream);

#[verifier::external_type_specification]
#[verifier::external_body]
pub struct ExAlternativeMedia(m3u8_rs::AlternativeMedia);

#[verifier::external_type_specification]
#[verifier::external_body]
pub struct ExMediaSegment(m3u8_rs::MediaSegment);

/// One `#EXT-X-STREAM-INF` (or `#EXT-X-I-FRAME-STREAM-INF`) entry.
#[derive(Debug, Clone)]
pub struct VariantModel {
    pub uri: String,
    pub bandwidth: u64,
    pub average_bandwidth: Option<u64>,
    pub codecs: Option<String>,
    /// `(width, height)` of the `RESOLUTION` attribute.
    pub resolution: Option<(u64, u64)>,
    /// The `AUDIO` group id.
    pub audio: Option<String>,
    pub is_i_frame: bool,
}

/// The `TYPE` of an `#EXT-X-MEDIA` entry.
#[derive(Debug, Clone)]
pub enum MediaKind {
    Audio,
    Video,
    Subtitles,
    ClosedCaptions,
    Other(String),
}

/// One `#EXT-X-MEDIA` entry.
#[derive(Debug, Clone)]
pub struct AlternativeModel {
    pub media_type: MediaKind,
    pub uri: Option<String>,
    pub group_id: String,
    pub language: Option<String>,
    pub name: String,
    pub default: bool,
    pub autoselect: bool,
}

#[derive(Debug, Clone)]
pub struct MasterModel {
    pub variants: Vec<VariantModel>,
    pub alternatives: Vec<AlternativeModel>,
}

/// The `METHOD` of an `#EXT-X-KEY`.
#[derive(Debug, Clone)]
pub enum KeyMethodKind {
    Unencrypted,
    Aes128,
    SampleAes,
    Other(String),
}

/// One media segment.
#[derive(Debug, Clone)]
pub struct SegmentModel {
    pub uri: String,
    /// The bits of the `#EXTINF` duration (an IEEE 754 single).
    pub duration_bits: u32,
    /// An `#EXT-X-MAP` applies.
    pub has_map: bool,
    /// An `#EXT-X-BYTERANGE` applies.
    pub has_byte_range: bool,
    /// The method of the `#EXT-X-KEY` that applies, if any.
    pub key_method: Option<KeyMethodKind>,
}

#[derive(Debug, Clone)]
pub struct MediaModel {
    pub target_duration: u64,
    pub end_list: bool,
    pub segments: Vec<SegmentModel>,
}

#[derive(Debug, Clone)]
pub enum PlaylistModel {
    Master(MasterModel),
    Media(MediaModel),
}

/// What `m3u8_rs::parse_playlist_res` makes of `body`, or the text of its
/// error.
pub uninterp spec fn m3u8_playlist(body: Seq<u8>) -> Result<PlaylistModel, Seq<char>>;

/// Parses `body` with `m3u8_rs::parse_playlist_res` and copies what the
/// planning logic reads into the library's model; a parse error becomes its
/// text. The contract claims that the outcome is a function of the bytes
/// alone.
#[verifier::external_body]
pub(crate) fn parse_playlist_bytes(body: &[u8]) -> (r: Result<PlaylistModel, String>)
    ensures
        match r {
            Ok(p) => m3u8_playlist(body@) == Ok::<PlaylistModel, Seq<char>>(p),
            Err(e) => m3u8_playlist(body@) == Err::<PlaylistModel, Seq<char>>(e@),
        },
{
    match m3u8_rs::parse_playlist_res(body) {
        Ok(m3u8_rs::Playlist::MasterPlaylist(p)) => Ok(PlaylistModel::Master(master_model(p))),
        Ok(m3u8_rs::Playlist::MediaPlaylist(p)) => Ok(PlaylistModel::Media(media_model(p))),
        Err(e) => Err(e.to_string()),
    }
}

/// Field-by-field copy of an `m3u8_rs::MasterPlaylist`, for
/// `parse_playlist_bytes`.
#[verifier::external_body]
fn master_model(p: m3u8_rs::MasterPlaylist) -> MasterModel {
    MasterModel {
        variants: p.variants.into_iter().map(variant_model).collect(),
        alternatives: p.alternatives.into_iter().map(alternative_model).collect(),
    }
}

/// Field-by-field copy of an `m3u8_rs::VariantStream`, for `master_model`.
#[verifier::external_body]
fn variant_model(v: m3u8_rs::VariantStream) -> VariantModel {
    VariantModel {
        uri: v.uri,
        bandwidth: v.bandwidth,
        average_bandwidth: v.average_bandwidth,
        codecs: v.codecs,
        resolution: v.resolution.map(|r| (r.width, r.height)),
        audio: v.audio,
        is_i_frame: v.is_i_frame,
    }
}

/// Field-by-field copy of an `m3u8_rs::AlternativeMedia`, for
/// `master_model`.
#[verifier::external_body]
fn alternative_model(a: m3u8_rs::AlternativeMedia) -> AlternativeModel {
    AlternativeModel {
        media_type: match a.media_type {
            m3u8_rs::AlternativeMediaType::Audio => MediaKind::Audio,
            m3u8_rs::AlternativeMediaType::Video => MediaKind::Video,
            m3u8_rs::AlternativeMediaType::Subtitles => MediaKind::Subtitles,
            m3u8_rs::AlternativeMediaType::ClosedCaptions => MediaKind::ClosedCaptions,
            m3u8_rs::AlternativeMediaType::Other(o) => MediaKind::Other(o),
        },
        uri: a.uri,
        group_id: a.group_id,
        language: a.language,
        name: a.name,
        default: a.default,
        autoselect: a.autoselect,
    }
}

/// Field-by-field copy of an `m3u8_rs::MediaPlaylist`, for
/// `parse_playlist_bytes`.
#[verifier::external_body]
fn media_model(p: m3u8_rs::MediaPlaylist) -> MediaModel {
    MediaModel {
        target_duration: p.target_duration,
        end_list: p.end_list,
        segments: p.segments.into_iter().map(segment_model).collect(),
    }
}

/// Field-by-field copy of an `m3u8_rs::MediaSegment`, for `media_model`.
#[verifier::external_body]
fn segment_model(s: m3u8_rs::MediaSegment) -> SegmentModel {
    SegmentModel {
        uri: s.uri,
        duration_bits: s.duration.to_bits(),
        has_map: s.map.is_some(),
        has_byte_range: s.byte_range.is_some(),
        key_method: s.key.map(|k| match k.method {
            m3u8_rs::KeyMethod::None => KeyMethodKind::Unencrypted,
            m3u8_rs::KeyMethod::AES128 => KeyMethodKind::Aes128,
            m3u8_rs::KeyMethod::SampleAES => KeyMethodKind::SampleAes,
            m3u8_rs::KeyMethod::Other(o) => KeyMethodKind::Other(o),
        }),
    }
}

} // verus!
