//! Master playlist parsing and variant selection.

use vstd::prelude::*;
use crate::bandwidth::{mbps_tenths, mbps_tenths_of};
use crate::playlist::{
    m3u8_playlist, parse_playlist_bytes, AlternativeModel, MasterModel, MediaKind, PlaylistModel,
    VariantModel,
};
use crate::text::{decimal, push_all, push_decimal, string_from_chars, chars_of};
use crate::urls::{join_url, parse_url, url_join, url_parse};

verus! {

/// Why a master playlist could not be turned into variants.
#[derive(Debug)]
pub enum HlsError {
    InvalidMasterUrl { value: String, source: url::ParseError },
    InvalidPlaylist { reason: String },
    ExpectedMasterPlaylist,
    InvalidPlaylistUrl { base_url: String, value: String, source: url::ParseError },
    EmptyMasterPlaylist,
}

/// An `HlsError` without the `url` error value it carries.
pub enum HlsErrorView {
    InvalidMasterUrl { value: Seq<char> },
    InvalidPlaylist { reason: Seq<char> },
    ExpectedMasterPlaylist,
    InvalidPlaylistUrl { base_url: Seq<char>, value: Seq<char> },
    EmptyMasterPlaylist,
}

impl View for HlsError {
    type V = HlsErrorView;

    open spec fn view(&self) -> HlsErrorView {
        match self {
            HlsError::InvalidMasterUrl { value, .. } => HlsErrorView::InvalidMasterUrl {
                value: value@,
            },
            HlsError::InvalidPlaylist { reason } => HlsErrorView::InvalidPlaylist {
                reason: reason@,
            },
            HlsError::ExpectedMasterPlaylist => HlsErrorView::ExpectedMasterPlaylist,
            HlsError::InvalidPlaylistUrl { base_url, value, .. } =>
                HlsErrorView::InvalidPlaylistUrl { base_url: base_url@, value: value@ },
            HlsError::EmptyMasterPlaylist => HlsErrorView::EmptyMasterPlaylist,
        }
    }
}

/// The message an `HlsError` is shown with.
pub open spec fn hls_error_message(e: HlsErrorView) -> Seq<char> {
    match e {
        HlsErrorView::InvalidMasterUrl { value } =>
            "invalid master playlist URL `"@ + value + "`"@,
        HlsErrorView::InvalidPlaylist { reason } => "failed to parse HLS playlist: "@ + reason,
        HlsErrorView::ExpectedMasterPlaylist =>
            "expected a master playlist, got a media playlist"@,
        HlsErrorView::InvalidPlaylistUrl { base_url, value } =>
            "failed to resolve playlist URL `"@ + value + "` against `"@ + base_url + "`"@,
        HlsErrorView::EmptyMasterPlaylist => "master playlist did not contain variant streams"@,
    }
}

impl HlsError {
    /// The message this error is shown with.
    pub fn message(&self) -> (r: String)
        ensures
            r@ == hls_error_message(self@),
    {
        match self {
            HlsError::InvalidMasterUrl { value, .. } => {
                let mut s = String::from_str("invalid master playlist URL `");
                s.append(value.as_str());
                s.append("`");
                s
            },
            HlsError::InvalidPlaylist { reason } => {
                let mut s = String::from_str("failed to parse HLS playlist: ");
                s.append(reason.as_str());
                s
            },
            HlsError::ExpectedMasterPlaylist => String::from_str(
                "expected a master playlist, got a media playlist",
            ),
            HlsError::InvalidPlaylistUrl { base_url, value, .. } => {
                let mut s = String::from_str("failed to resolve playlist URL `");
                s.append(value.as_str());
                s.append("` against `");
                s.append(base_url.as_str());
                s.append("`");
                s
            },
            HlsError::EmptyMasterPlaylist => String::from_str(
                "master playlist did not contain variant streams",
            ),
        }
    }
}

pub open spec fn opt_view(o: Option<String>) -> Option<Seq<char>> {
    match o {
        Some(s) => Some(s@),
        None => None,
    }
}

/// A parsed master playlist: its URL and its playable variants.
#[derive(Debug, Clone)]
pub struct ParsedMasterPlaylist {
    pub master_url: String,
    pub variants: Vec<HlsVariant>,
}

pub struct ParsedMasterPlaylistView {
    pub master_url: Seq<char>,
    pub variants: Seq<HlsVariantView>,
}

impl View for ParsedMasterPlaylist {
    type V = ParsedMasterPlaylistView;

    open spec fn view(&self) -> ParsedMasterPlaylistView {
        ParsedMasterPlaylistView {
            master_url: self.master_url@,
            variants: variants_view(self.variants@),
        }
    }
}

/// One playable rendition of the stream.
#[derive(Debug, Clone)]
pub struct HlsVariant {
    pub id: String,
    pub label: String,
    pub bandwidth: u64,
    pub average_bandwidth: Option<u64>,
    pub width: Option<u32>,
    pub height: Option<u32>,
    pub codecs: Option<String>,
    pub audio_group: Option<String>,
    pub audio_renditions: Vec<AudioRendition>,
    pub media_playlist_url: String,
}

pub struct HlsVariantView {
    pub id: Seq<char>,
    pub label: Seq<char>,
    pub bandwidth: u64,
    pub average_bandwidth: Option<u64>,
    pub width: Option<u32>,
    pub height: Option<u32>,
    pub codecs: Option<Seq<char>>,
    pub audio_group: Option<Seq<char>>,
    pub audio_renditions: Seq<AudioRenditionView>,
    pub media_playlist_url: Seq<char>,
}

impl View for HlsVariant {
    type V = HlsVariantView;

    open spec fn view(&self) -> HlsVariantView {
        HlsVariantView {
            id: self.id@,
            label: self.label@,
            bandwidth: self.bandwidth,
            average_bandwidth: self.average_bandwidth,
            width: self.width,
            height: self.height,
            codecs: opt_view(self.codecs),
            audio_group: opt_view(self.audio_group),
            audio_renditions: renditions_view(self.audio_renditions@),
            media_playlist_url: self.media_playlist_url@,
        }
    }
}

pub open spec fn variants_view(s: Seq<HlsVariant>) -> Seq<HlsVariantView> {
    s.map_values(|v: HlsVariant| v@)
}

/// An audio track that goes with a variant's `AUDIO` group.
#[derive(Debug, Clone)]
pub struct AudioRendition {
    pub group_id: String,
    pub name: String,
    pub language: Option<String>,
    pub default: bool,
    pub autoselect: bool,
    pub playlist_url: Option<String>,
}

pub struct AudioRenditionView {
    pub group_id: Seq<char>,
    pub name: Seq<char>,
    pub language: Option<Seq<char>>,
    pub default: bool,
    pub autoselect: bool,
    pub playlist_url: Option<Seq<char>>,
}

impl View for AudioRendition {
    type V = AudioRenditionView;

    open spec fn view(&self) -> AudioRenditionView {
        AudioRenditionView {
            group_id: self.group_id@,
            name: self.name@,
            language: opt_view(self.language),
            default: self.default,
            autoselect: self.autoselect,
            playlist_url: opt_view(self.playlist_url),
        }
    }
}

pub open spec fn renditions_view(s: Seq<AudioRendition>) -> Seq<AudioRenditionView> {
    s.map_values(|a: AudioRendition| a@)
}

/// A quality choice offered to the user.
#[derive(Debug, Clone)]
pub struct QualityOption {
    pub id: String,
    pub label: String,
    pub bandwidth: Option<u64>,
    pub width: Option<u32>,
    pub height: Option<u32>,
    pub media_playlist_url: String,
}

pub struct QualityOptionView {
    pub id: Seq<char>,
    pub label: Seq<char>,
    pub bandwidth: Option<u64>,
    pub width: Option<u32>,
    pub height: Option<u32>,
    pub media_playlist_url: Seq<char>,
}

impl View for QualityOption {
    type V = QualityOptionView;

    open spec fn view(&self) -> QualityOptionView {
        QualityOptionView {
            id: self.id@,
            label: self.label@,
            bandwidth: self.bandwidth,
            width: self.width,
            height: self.height,
            media_playlist_url: self.media_playlist_url@,
        }
    }
}

/// The quality option that describes a variant.
pub open spec fn quality_of(v: HlsVariantView) -> QualityOptionView {
    QualityOptionView {
        id: v.id,
        label: v.label,
        bandwidth: Some(v.bandwidth),
        width: v.width,
        height: v.height,
        media_playlist_url: v.media_playlist_url,
    }
}


/// An exec `Result` seen through the views of both sides.
pub open spec fn result_view<T: View, E: View>(r: Result<T, E>) -> Result<T::V, E::V> {
    match r {
        Ok(t) => Ok(t@),
        Err(e) => Err(e@),
    }
}

/// `Some(x)` where `x` fits in a `u32` (`u32::try_from(x).ok()`).
pub open spec fn fits_u32(x: u64) -> Option<u32> {
    if x <= u32::MAX {
        Some(x as u32)
    } else {
        None
    }
}

/// `<megabits>.<tenth> Mbps`, the tenths being those that `{:.1}` prints
/// of the bandwidth as an `f64` divided by a million (`mbps_tenths`).
pub open spec fn mbps_label(bandwidth: u64) -> Seq<char> {
    let t = mbps_tenths(bandwidth);
    decimal(t / 10) + seq!['.'] + decimal(t % 10) + " Mbps"@
}

/// The label of the variant at `index`: `<height>p` where the height is
/// known, else the bandwidth in Mbps where it is positive, else
/// `Variant <index + 1>`.
pub open spec fn spec_quality_label(index: nat, height: Option<u32>, bandwidth: u64) -> Seq<char> {
    match height {
        Some(h) => decimal(h as nat) + seq!['p'],
        None => if bandwidth > 0 {
            mbps_label(bandwidth)
        } else {
            "Variant "@ + decimal(index + 1)
        },
    }
}

/// An alternative that is an audio rendition of the group `group`.
pub open spec fn is_audio_of_group(a: AlternativeModel, group: Seq<char>) -> bool {
    a.media_type is Audio && a.group_id@ == group
}

/// The rendition made of one `#EXT-X-MEDIA` entry, its URI resolved against
/// the master URL.
pub open spec fn spec_rendition(master_url: Seq<char>, a: AlternativeModel) -> Result<
    AudioRenditionView,
    HlsErrorView,
> {
    let playlist_url = match a.uri {
        None => Ok(None),
        Some(u) => match url_join(master_url, u@) {
            None => Err(HlsErrorView::InvalidPlaylistUrl { base_url: master_url, value: u@ }),
            Some(j) => Ok(Some(j)),
        },
    };
    match playlist_url {
        Err(e) => Err(e),
        Ok(playlist_url) => Ok(
            AudioRenditionView {
                group_id: a.group_id@,
                name: a.name@,
                language: opt_view(a.language),
                default: a.default,
                autoselect: a.autoselect,
                playlist_url,
            },
        ),
    }
}

/// The renditions of `group` among the first `n` alternatives, in order; the
/// first URL that does not resolve is the error.
pub open spec fn spec_renditions(
    master_url: Seq<char>,
    alternatives: Seq<AlternativeModel>,
    group: Seq<char>,
    n: nat,
) -> Result<Seq<AudioRenditionView>, HlsErrorView>
    decreases n,
{
    if n == 0 {
        Ok(Seq::empty())
    } else {
        match spec_renditions(master_url, alternatives, group, (n - 1) as nat) {
            Err(e) => Err(e),
            Ok(s) => if is_audio_of_group(alternatives[n - 1], group) {
                match spec_rendition(master_url, alternatives[n - 1]) {
                    Err(e) => Err(e),
                    Ok(r) => Ok(s.push(r)),
                }
            } else {
                Ok(s)
            },
        }
    }
}

/// The audio renditions of a variant: none without an `AUDIO` group, else
/// those of its group.
pub open spec fn spec_audio_renditions(
    master_url: Seq<char>,
    playlist: MasterModel,
    variant: VariantModel,
) -> Result<Seq<AudioRenditionView>, HlsErrorView> {
    match variant.audio {
        None => Ok(Seq::empty()),
        Some(g) => spec_renditions(
            master_url,
            playlist.alternatives@,
            g@,
            playlist.alternatives@.len(),
        ),
    }
}

/// `variant-<index + 1>`.
pub open spec fn variant_id(index: nat) -> Seq<char> {
    "variant-"@ + decimal(index + 1)
}

/// The variant made of the stream entry at `index`.
pub open spec fn spec_variant(
    master_url: Seq<char>,
    playlist: MasterModel,
    index: nat,
    v: VariantModel,
) -> Result<HlsVariantView, HlsErrorView> {
    let width = match v.resolution {
        Some(r) => fits_u32(r.0),
        None => None,
    };
    let height = match v.resolution {
        Some(r) => fits_u32(r.1),
        None => None,
    };
    match url_join(master_url, v.uri@) {
        None => Err(HlsErrorView::InvalidPlaylistUrl { base_url: master_url, value: v.uri@ }),
        Some(media_playlist_url) => match spec_audio_renditions(master_url, playlist, v) {
            Err(e) => Err(e),
            Ok(audio_renditions) => Ok(
                HlsVariantView {
                    id: variant_id(index),
                    label: spec_quality_label(index, height, v.bandwidth),
                    bandwidth: v.bandwidth,
                    average_bandwidth: v.average_bandwidth,
                    width,
                    height,
                    codecs: opt_view(v.codecs),
                    audio_group: opt_view(v.audio),
                    audio_renditions,
                    media_playlist_url,
                },
            ),
        },
    }
}

/// The variants made of the first `n` stream entries, skipping I-frame
/// entries; the first error met is the result.
pub open spec fn spec_collect_variants(master_url: Seq<char>, playlist: MasterModel, n: nat) -> Result<
    Seq<HlsVariantView>,
    HlsErrorView,
>
    decreases n,
{
    if n == 0 {
        Ok(Seq::empty())
    } else {
        match spec_collect_variants(master_url, playlist, (n - 1) as nat) {
            Err(e) => Err(e),
            Ok(s) => {
                let v = playlist.variants@[n - 1];
                if v.is_i_frame {
                    Ok(s)
                } else {
                    match spec_variant(master_url, playlist, (n - 1) as nat, v) {
                        Err(e) => Err(e),
                        Ok(x) => Ok(s.push(x)),
                    }
                }
            },
        }
    }
}

/// The parsed master playlist made of the parser's model.
pub open spec fn spec_master_from_model(master_url: Seq<char>, playlist: MasterModel) -> Result<
    ParsedMasterPlaylistView,
    HlsErrorView,
> {
    if playlist.variants@.len() == 0 {
        Err(HlsErrorView::EmptyMasterPlaylist)
    } else {
        match spec_collect_variants(master_url, playlist, playlist.variants@.len()) {
            Err(e) => Err(e),
            Ok(s) => if s.len() == 0 {
                Err(HlsErrorView::EmptyMasterPlaylist)
            } else {
                Ok(ParsedMasterPlaylistView { master_url, variants: s })
            },
        }
    }
}

/// What `parse_master_playlist` returns.
pub open spec fn spec_parse_master(master_url: Seq<char>, body: Seq<u8>) -> Result<
    ParsedMasterPlaylistView,
    HlsErrorView,
> {
    if url_parse(master_url) is None {
        Err(HlsErrorView::InvalidMasterUrl { value: master_url })
    } else {
        match m3u8_playlist(body) {
            Err(reason) => Err(HlsErrorView::InvalidPlaylist { reason }),
            Ok(PlaylistModel::Media(_)) => Err(HlsErrorView::ExpectedMasterPlaylist),
            Ok(PlaylistModel::Master(p)) => spec_master_from_model(master_url, p),
        }
    }
}

proof fn lemma_renditions_err(
    master_url: Seq<char>,
    alternatives: Seq<AlternativeModel>,
    group: Seq<char>,
    k: nat,
    n: nat,
)
    requires
        k <= n,
        spec_renditions(master_url, alternatives, group, k) is Err,
    ensures
        spec_renditions(master_url, alternatives, group, n) == spec_renditions(
            master_url,
            alternatives,
            group,
            k,
        ),
    decreases n,
{
    if n > k {
        lemma_renditions_err(master_url, alternatives, group, k, (n - 1) as nat);
    }
}

proof fn lemma_collect_err(master_url: Seq<char>, playlist: MasterModel, k: nat, n: nat)
    requires
        k <= n,
        spec_collect_variants(master_url, playlist, k) is Err,
    ensures
        spec_collect_variants(master_url, playlist, n) == spec_collect_variants(
            master_url,
            playlist,
            k,
        ),
    decreases n,
{
    if n > k {
        lemma_collect_err(master_url, playlist, k, (n - 1) as nat);
    }
}

fn clone_opt_string(o: &Option<String>) -> (r: Option<String>)
    ensures
        opt_view(r) == opt_view(*o),
{
    match o {
        Some(s) => Some(s.clone()),
        None => None,
    }
}

fn push_literal(out: &mut Vec<char>, lit: &str)
    ensures
        final(out)@ == old(out)@ + lit@,
{
    let v = chars_of(lit);
    push_all(out, &v);
}

/// The label of the variant at `index`.
fn quality_label(index: usize, height: Option<u32>, bandwidth: u64) -> (r: String)
    requires
        index < usize::MAX,
    ensures
        r@ == spec_quality_label(index as nat, height, bandwidth),
{
    let mut out: Vec<char> = Vec::new();
    match height {
        Some(h) => {
            push_decimal(&mut out, h as u64);
            out.push('p');
        },
        None => {
            if bandwidth > 0 {
                let tenths = mbps_tenths_of(bandwidth);
                push_decimal(&mut out, tenths / 10);
                out.push('.');
                push_decimal(&mut out, tenths % 10);
                push_literal(&mut out, " Mbps");
            } else {
                push_literal(&mut out, "Variant ");
                push_decimal(&mut out, (index + 1) as u64);
            }
        },
    }
    assert(out@ =~= spec_quality_label(index as nat, height, bandwidth));
    string_from_chars(&out)
}

fn resolve_url(master_url: &str, value: &String) -> (r: Result<String, HlsError>)
    ensures
        match r {
            Ok(u) => url_join(master_url@, value@) == Some(u@),
            Err(e) => url_join(master_url@, value@) is None && e@
                == (HlsErrorView::InvalidPlaylistUrl { base_url: master_url@, value: value@ }),
        },
{
    match join_url(master_url, value.as_str()) {
        Ok(u) => Ok(u),
        Err(source) => Err(
            HlsError::InvalidPlaylistUrl {
                base_url: master_url.to_owned(),
                value: value.clone(),
                source,
            },
        ),
    }
}

fn audio_rendition_from_parsed(master_url: &str, alternative: &AlternativeModel) -> (r: Result<
    AudioRendition,
    HlsError,
>)
    ensures
        result_view(r) == spec_rendition(master_url@, *alternative),
{
    let playlist_url = match &alternative.uri {
        None => None,
        Some(u) => match resolve_url(master_url, u) {
            Ok(j) => Some(j),
            Err(e) => {
                return Err(e);
            },
        },
    };
    Ok(
        AudioRendition {
            group_id: alternative.group_id.clone(),
            name: alternative.name.clone(),
            language: clone_opt_string(&alternative.language),
            default: alternative.default,
            autoselect: alternative.autoselect,
            playlist_url,
        },
    )
}

fn audio_renditions_for_variant(
    master_url: &str,
    playlist: &MasterModel,
    variant: &VariantModel,
) -> (r: Result<Vec<AudioRendition>, HlsError>)
    ensures
        match r {
            Ok(v) => spec_audio_renditions(master_url@, *playlist, *variant) == Ok::<
                Seq<AudioRenditionView>,
                HlsErrorView,
            >(renditions_view(v@)),
            Err(e) => spec_audio_renditions(master_url@, *playlist, *variant) == Err::<
                Seq<AudioRenditionView>,
                HlsErrorView,
            >(e@),
        },
{
    let mut out: Vec<AudioRendition> = Vec::new();
    let group = match &variant.audio {
        None => {
            assert(renditions_view(out@) =~= Seq::<AudioRenditionView>::empty());
            return Ok(out);
        },
        Some(g) => g,
    };
    let alternatives = &playlist.alternatives;
    let n = alternatives.len();
    let mut i: usize = 0;
    assert(renditions_view(out@) =~= Seq::<AudioRenditionView>::empty());
    while i < n
        invariant
            n == alternatives@.len(),
            alternatives == &playlist.alternatives,
            variant.audio == Some(*group),
            i <= n,
            spec_renditions(master_url@, alternatives@, group@, i as nat) == Ok::<
                Seq<AudioRenditionView>,
                HlsErrorView,
            >(renditions_view(out@)),
        decreases n - i,
    {
        let a = &alternatives[i];
        let is_audio = match a.media_type {
            MediaKind::Audio => true,
            _ => false,
        };
        if is_audio && a.group_id == *group {
            match audio_rendition_from_parsed(master_url, a) {
                Ok(r) => {
                    let ghost prev = out@;
                    let ghost rv = r@;
                    out.push(r);
                    assert(renditions_view(out@) =~= renditions_view(prev).push(rv));
                },
                Err(e) => {
                    proof {
                        lemma_renditions_err(
                            master_url@,
                            alternatives@,
                            group@,
                            (i + 1) as nat,
                            n as nat,
                        );
                    }
                    return Err(e);
                },
            }
        }
        i = i + 1;
    }
    Ok(out)
}


fn resolution_part(x: u64) -> (r: Option<u32>)
    ensures
        r == fits_u32(x),
{
    if x <= u32::MAX as u64 {
        Some(x as u32)
    } else {
        None
    }
}

fn variant_from_parsed(
    master_url: &str,
    playlist: &MasterModel,
    index: usize,
    variant: &VariantModel,
) -> (r: Result<HlsVariant, HlsError>)
    requires
        index < usize::MAX,
    ensures
        result_view(r) == spec_variant(master_url@, *playlist, index as nat, *variant),
{
    let width = match variant.resolution {
        Some(res) => resolution_part(res.0),
        None => None,
    };
    let height = match variant.resolution {
        Some(res) => resolution_part(res.1),
        None => None,
    };
    let label = quality_label(index, height, variant.bandwidth);
    let media_playlist_url = match resolve_url(master_url, &variant.uri) {
        Ok(u) => u,
        Err(e) => {
            return Err(e);
        },
    };
    let audio_renditions = match audio_renditions_for_variant(master_url, playlist, variant) {
        Ok(v) => v,
        Err(e) => {
            return Err(e);
        },
    };
    let mut id: Vec<char> = Vec::new();
    push_literal(&mut id, "variant-");
    push_decimal(&mut id, (index + 1) as u64);
    let id = string_from_chars(&id);
    Ok(
        HlsVariant {
            id,
            label,
            bandwidth: variant.bandwidth,
            average_bandwidth: variant.average_bandwidth,
            width,
            height,
            codecs: clone_opt_string(&variant.codecs),
            audio_group: clone_opt_string(&variant.audio),
            audio_renditions,
            media_playlist_url,
        },
    )
}

/// Turns the parser's model of a master playlist into variants: one per
/// stream entry that is not an I-frame entry, in order, each with its URI
/// and the URIs of its audio renditions resolved against `master_url`. A
/// playlist without stream entries, or with I-frame entries only, is
/// `EmptyMasterPlaylist`; the first URI that does not resolve is
/// `InvalidPlaylistUrl`.
pub fn master_playlist_from_parsed(master_url: &str, playlist: &MasterModel) -> (r: Result<
    ParsedMasterPlaylist,
    HlsError,
>)
    ensures
        result_view(r) == spec_master_from_model(master_url@, *playlist),
{
    let n = playlist.variants.len();
    if n == 0 {
        return Err(HlsError::EmptyMasterPlaylist);
    }
    let mut variants: Vec<HlsVariant> = Vec::new();
    let mut i: usize = 0;
    assert(variants_view(variants@) =~= Seq::<HlsVariantView>::empty());
    while i < n
        invariant
            n == playlist.variants@.len(),
            i <= n,
            spec_collect_variants(master_url@, *playlist, i as nat) == Ok::<
                Seq<HlsVariantView>,
                HlsErrorView,
            >(variants_view(variants@)),
        decreases n - i,
    {
        let v = &playlist.variants[i];
        if !v.is_i_frame {
            match variant_from_parsed(master_url, playlist, i, v) {
                Ok(x) => {
                    let ghost prev = variants@;
                    let ghost xv = x@;
                    variants.push(x);
                    assert(variants_view(variants@) =~= variants_view(prev).push(xv));
                },
                Err(e) => {
                    proof {
                        lemma_collect_err(master_url@, *playlist, (i + 1) as nat, n as nat);
                    }
                    return Err(e);
                },
            }
        }
        i = i + 1;
    }
    if variants.len() == 0 {
        return Err(HlsError::EmptyMasterPlaylist);
    }
    Ok(ParsedMasterPlaylist { master_url: master_url.to_owned(), variants })
}

/// Parses `playlist_body` as the master playlist found at `master_url`.
/// `master_url` must be a valid absolute URL (`InvalidMasterUrl`), the body
/// must parse (`InvalidPlaylist`, with the parser's message) and be a master
/// playlist (`ExpectedMasterPlaylist`); the rest is
/// `master_playlist_from_parsed`.
pub fn parse_master_playlist(master_url: &str, playlist_body: &[u8]) -> (r: Result<
    ParsedMasterPlaylist,
    HlsError,
>)
    ensures
        result_view(r) == spec_parse_master(master_url@, playlist_body@),
{
    match parse_url(master_url) {
        Ok(_) => {},
        Err(source) => {
            return Err(HlsError::InvalidMasterUrl { value: master_url.to_owned(), source });
        },
    }
    let parsed = match parse_playlist_bytes(playlist_body) {
        Ok(p) => p,
        Err(reason) => {
            return Err(HlsError::InvalidPlaylist { reason });
        },
    };
    match parsed {
        PlaylistModel::Master(m) => master_playlist_from_parsed(master_url, &m),
        PlaylistModel::Media(_) => Err(HlsError::ExpectedMasterPlaylist),
    }
}


pub open spec fn u32_or_zero(o: Option<u32>) -> int {
    match o {
        Some(x) => x as int,
        None => 0,
    }
}

/// The order in which variants compete: height, then width (a missing one
/// counting as 0), then average bandwidth (the bandwidth where it is
/// missing), then bandwidth.
pub open spec fn variant_key(v: HlsVariantView) -> (int, int, int, int) {
    (
        u32_or_zero(v.height),
        u32_or_zero(v.width),
        match v.average_bandwidth {
            Some(a) => a as int,
            None => v.bandwidth as int,
        },
        v.bandwidth as int,
    )
}

/// Lexicographic `<=` on four integers.
pub open spec fn key4_le(a: (int, int, int, int), b: (int, int, int, int)) -> bool {
    a.0 < b.0 || (a.0 == b.0 && (a.1 < b.1 || (a.1 == b.1 && (a.2 < b.2 || (a.2 == b.2 && a.3
        <= b.3)))))
}

/// `s[i]` has the greatest key and every later entry's key is smaller: the
/// entry that `Iterator::max_by_key` picks (the last of several maxima).
pub open spec fn is_last_max_variant(s: Seq<HlsVariantView>, i: int) -> bool {
    &&& 0 <= i < s.len()
    &&& forall|j: int| 0 <= j < s.len() ==> key4_le(variant_key(#[trigger] s[j]), variant_key(s[i]))
    &&& forall|j: int| i < j < s.len() ==> !key4_le(variant_key(s[i]), variant_key(#[trigger] s[j]))
}

/// The variant that `select_best_variant` picks from `s`.
pub open spec fn spec_best_variant(s: Seq<HlsVariantView>) -> Option<HlsVariantView> {
    if s.len() == 0 {
        None
    } else {
        Some(s[choose|i: int| is_last_max_variant(s, i)])
    }
}

/// At most one entry is the last of the greatest keys.
pub proof fn last_max_variant_unique(s: Seq<HlsVariantView>, i: int, j: int)
    requires
        is_last_max_variant(s, i),
        is_last_max_variant(s, j),
    ensures
        i == j,
{
    if i < j {
        assert(!key4_le(variant_key(s[i]), variant_key(s[j])));
        assert(key4_le(variant_key(s[i]), variant_key(s[j])));
    } else if j < i {
        assert(!key4_le(variant_key(s[j]), variant_key(s[i])));
        assert(key4_le(variant_key(s[j]), variant_key(s[i])));
    }
}

fn variant_key_le(a: &HlsVariant, b: &HlsVariant) -> (r: bool)
    ensures
        r == key4_le(variant_key(a@), variant_key(b@)),
{
    let ah: u32 = match a.height { Some(x) => x, None => 0 };
    let bh: u32 = match b.height { Some(x) => x, None => 0 };
    let aw: u32 = match a.width { Some(x) => x, None => 0 };
    let bw: u32 = match b.width { Some(x) => x, None => 0 };
    let aa: u64 = match a.average_bandwidth { Some(x) => x, None => a.bandwidth };
    let ba: u64 = match b.average_bandwidth { Some(x) => x, None => b.bandwidth };
    ah < bh || (ah == bh && (aw < bw || (aw == bw && (aa < ba || (aa == ba && a.bandwidth
        <= b.bandwidth)))))
}

/// The variant with the greatest (height, width, average bandwidth,
/// bandwidth), the last one among equals; `None` for no variants.
pub fn select_best_variant(variants: &[HlsVariant]) -> (r: Option<&HlsVariant>)
    ensures
        match r {
            None => variants@.len() == 0,
            Some(x) => spec_best_variant(variants_view(variants@)) == Some(x@),
        },
{
    let n = variants.len();
    if n == 0 {
        return None;
    }
    let ghost vs = variants_view(variants@);
    let mut best: usize = 0;
    let mut i: usize = 1;
    while i < n
        invariant
            n == variants@.len(),
            vs == variants_view(variants@),
            best < i <= n,
            forall|j: int| 0 <= j < i ==> key4_le(
                variant_key(#[trigger] vs[j]),
                variant_key(vs[best as int]),
            ),
            forall|j: int| best < j < i ==> !key4_le(
                variant_key(vs[best as int]),
                variant_key(#[trigger] vs[j]),
            ),
        decreases n - i,
    {
        if variant_key_le(&variants[best], &variants[i]) {
            best = i;
        }
        i = i + 1;
    }
    proof {
        assert(is_last_max_variant(vs, best as int));
        let c = choose|k: int| is_last_max_variant(vs, k);
        last_max_variant_unique(vs, c, best as int);
    }
    Some(&variants[best])
}

pub open spec fn u64_or_zero(o: Option<u64>) -> int {
    match o {
        Some(x) => x as int,
        None => 0,
    }
}

/// The order in which quality options compete: height, width, bandwidth
/// (a missing value counting as 0).
pub open spec fn quality_key(q: QualityOptionView) -> (int, int, int) {
    (u32_or_zero(q.height), u32_or_zero(q.width), u64_or_zero(q.bandwidth))
}

/// Lexicographic `<=` on three integers.
pub open spec fn key3_le(a: (int, int, int), b: (int, int, int)) -> bool {
    a.0 < b.0 || (a.0 == b.0 && (a.1 < b.1 || (a.1 == b.1 && a.2 <= b.2)))
}

/// `s[i]` has the greatest key and every later entry's key is smaller.
pub open spec fn is_last_max_quality(s: Seq<QualityOptionView>, i: int) -> bool {
    &&& 0 <= i < s.len()
    &&& forall|j: int| 0 <= j < s.len() ==> key3_le(quality_key(#[trigger] s[j]), quality_key(s[i]))
    &&& forall|j: int| i < j < s.len() ==> !key3_le(quality_key(s[i]), quality_key(#[trigger] s[j]))
}

/// The option that `select_best_quality` picks from `s`.
pub open spec fn spec_best_quality(s: Seq<QualityOptionView>) -> Option<QualityOptionView> {
    if s.len() == 0 {
        None
    } else {
        Some(s[choose|i: int| is_last_max_quality(s, i)])
    }
}

/// At most one entry is the last of the greatest keys.
pub proof fn last_max_quality_unique(s: Seq<QualityOptionView>, i: int, j: int)
    requires
        is_last_max_quality(s, i),
        is_last_max_quality(s, j),
    ensures
        i == j,
{
    if i < j {
        assert(!key3_le(quality_key(s[i]), quality_key(s[j])));
        assert(key3_le(quality_key(s[i]), quality_key(s[j])));
    } else if j < i {
        assert(!key3_le(quality_key(s[j]), quality_key(s[i])));
        assert(key3_le(quality_key(s[j]), quality_key(s[i])));
    }
}

fn quality_key_le(a: &QualityOption, b: &QualityOption) -> (r: bool)
    ensures
        r == key3_le(quality_key(a@), quality_key(b@)),
{
    let ah: u32 = match a.height { Some(x) => x, None => 0 };
    let bh: u32 = match b.height { Some(x) => x, None => 0 };
    let aw: u32 = match a.width { Some(x) => x, None => 0 };
    let bw: u32 = match b.width { Some(x) => x, None => 0 };
    let ab: u64 = match a.bandwidth { Some(x) => x, None => 0 };
    let bb: u64 = match b.bandwidth { Some(x) => x, None => 0 };
    ah < bh || (ah == bh && (aw < bw || (aw == bw && ab <= bb)))
}

pub open spec fn qualities_view(s: Seq<QualityOption>) -> Seq<QualityOptionView> {
    s.map_values(|q: QualityOption| q@)
}

/// The option with the greatest (height, width, bandwidth), the last one
/// among equals; `None` for no options.
pub fn select_best_quality(options: &[QualityOption]) -> (r: Option<&QualityOption>)
    ensures
        match r {
            None => options@.len() == 0,
            Some(x) => spec_best_quality(qualities_view(options@)) == Some(x@),
        },
{
    let n = options.len();
    if n == 0 {
        return None;
    }
    let ghost qs = qualities_view(options@);
    let mut best: usize = 0;
    let mut i: usize = 1;
    while i < n
        invariant
            n == options@.len(),
            qs == qualities_view(options@),
            best < i <= n,
            forall|j: int| 0 <= j < i ==> key3_le(
                quality_key(#[trigger] qs[j]),
                quality_key(qs[best as int]),
            ),
            forall|j: int| best < j < i ==> !key3_le(
                quality_key(qs[best as int]),
                quality_key(#[trigger] qs[j]),
            ),
        decreases n - i,
    {
        if quality_key_le(&options[best], &options[i]) {
            best = i;
        }
        i = i + 1;
    }
    proof {
        assert(is_last_max_quality(qs, best as int));
        let c = choose|k: int| is_last_max_quality(qs, k);
        last_max_quality_unique(qs, c, best as int);
    }
    Some(&options[best])
}

fn quality_option_of(v: &HlsVariant) -> (r: QualityOption)
    ensures
        r@ == quality_of(v@),
{
    QualityOption {
        id: v.id.clone(),
        label: v.label.clone(),
        bandwidth: Some(v.bandwidth),
        width: v.width,
        height: v.height,
        media_playlist_url: v.media_playlist_url.clone(),
    }
}


impl ParsedMasterPlaylist {
    /// One quality option per variant, in the same order.
    pub fn quality_options(&self) -> (r: Vec<QualityOption>)
        ensures
            r@.len() == self.variants@.len(),
            forall|i: int|
                0 <= i < r@.len() ==> (#[trigger] r@[i])@ == quality_of(self.variants@[i]@),
            forall|i: int|
                #![trigger r@[i]]
                0 <= i < r@.len() ==> {
                    &&& r@[i].id@ == self.variants@[i].id@
                    &&& r@[i].label@ == self.variants@[i].label@
                    &&& r@[i].bandwidth == Some(self.variants@[i].bandwidth)
                    &&& r@[i].width == self.variants@[i].width
                    &&& r@[i].height == self.variants@[i].height
                    &&& r@[i].media_playlist_url@ == self.variants@[i].media_playlist_url@
                },
    {
        let mut out: Vec<QualityOption> = Vec::new();
        let n = self.variants.len();
        let mut i: usize = 0;
        while i < n
            invariant
                n == self.variants@.len(),
                i <= n,
                out@.len() == i,
                forall|k: int|
                    0 <= k < i ==> (#[trigger] out@[k])@ == quality_of(self.variants@[k]@),
            decreases n - i,
        {
            let q = quality_option_of(&self.variants[i]);
            out.push(q);
            i = i + 1;
        }
        out
    }

    /// The variant that `select_best_variant` picks.
    pub fn best_variant(&self) -> (r: Option<&HlsVariant>)
        ensures
            match r {
                None => self.variants@.len() == 0,
                Some(x) => spec_best_variant(variants_view(self.variants@)) == Some(x@),
            },
    {
        select_best_variant(self.variants.as_slice())
    }

    /// The quality option of the best variant.
    pub fn best_quality(&self) -> (r: Option<QualityOption>)
        ensures
            match r {
                None => self.variants@.len() == 0,
                Some(q) => spec_best_variant(variants_view(self.variants@)) matches Some(v)
                    && q@ == quality_of(v) && q.id@ == v.id && q.label@ == v.label && q.bandwidth
                    == Some(v.bandwidth) && q.width == v.width && q.height == v.height
                    && q.media_playlist_url@ == v.media_playlist_url,
            },
    {
        match self.best_variant() {
            Some(v) => Some(quality_option_of(v)),
            None => None,
        }
    }
}


proof fn lemma_renditions_in_group(
    master_url: Seq<char>,
    alternatives: Seq<AlternativeModel>,
    group: Seq<char>,
    n: nat,
)
    requires
        n <= alternatives.len(),
    ensures
        spec_renditions(master_url, alternatives, group, n) matches Ok(rs) ==> forall|k: int|
            0 <= k < rs.len() ==> (#[trigger] rs[k]).group_id == group,
    decreases n,
{
    if n > 0 {
        lemma_renditions_in_group(master_url, alternatives, group, (n - 1) as nat);
    }
}

proof fn lemma_collected_variants_grouped(master_url: Seq<char>, playlist: MasterModel, n: nat)
    requires
        n <= playlist.variants@.len(),
    ensures
        spec_collect_variants(master_url, playlist, n) matches Ok(vs) ==> forall|i: int, k: int|
            0 <= i < vs.len() && 0 <= k < vs[i].audio_renditions.len() ==> vs[i].audio_group
                == Some((#[trigger] vs[i].audio_renditions[k]).group_id),
    decreases n,
{
    if n > 0 {
        lemma_collected_variants_grouped(master_url, playlist, (n - 1) as nat);
        let v = playlist.variants@[n - 1];
        match v.audio {
            Some(g) => lemma_renditions_in_group(
                master_url,
                playlist.alternatives@,
                g@,
                playlist.alternatives@.len(),
            ),
            None => {},
        }
    }
}

/// A parsed master playlist has at least one variant, and every audio
/// rendition of a variant belongs to that variant's `AUDIO` group.
pub proof fn parsed_master_playlist_shape(master_url: Seq<char>, body: Seq<u8>)
    ensures
        spec_parse_master(master_url, body) matches Ok(p) ==> {
            &&& p.master_url == master_url
            &&& p.variants.len() > 0
            &&& forall|i: int, k: int|
                0 <= i < p.variants.len() && 0 <= k < p.variants[i].audio_renditions.len()
                    ==> p.variants[i].audio_group == Some(
                    (#[trigger] p.variants[i].audio_renditions[k]).group_id,
                )
        },
{
    if url_parse(master_url) is Some {
        if let Ok(PlaylistModel::Master(m)) = m3u8_playlist(body) {
            lemma_collected_variants_grouped(master_url, m, m.variants@.len());
        }
    }
}

proof fn last_max_of_prefix(s: Seq<HlsVariantView>, n: int) -> (b: int)
    requires
        1 <= n <= s.len(),
    ensures
        0 <= b < n,
        forall|j: int| 0 <= j < n ==> key4_le(variant_key(#[trigger] s[j]), variant_key(s[b])),
        forall|j: int| b < j < n ==> !key4_le(variant_key(s[b]), variant_key(#[trigger] s[j])),
    decreases n,
{
    if n == 1 {
        0
    } else {
        let b = last_max_of_prefix(s, n - 1);
        if key4_le(variant_key(s[b]), variant_key(s[n - 1])) {
            n - 1
        } else {
            b
        }
    }
}

/// Exactly the non-empty variant lists have a best variant: one entry with
/// the greatest key after which every key is smaller.
pub proof fn best_variant_exists(variants: Seq<HlsVariantView>)
    ensures
        spec_best_variant(variants) is Some <==> variants.len() > 0,
        variants.len() > 0 ==> exists|i: int| is_last_max_variant(variants, i),
{
    if variants.len() > 0 {
        let b = last_max_of_prefix(variants, variants.len() as int);
        assert(is_last_max_variant(variants, b));
    }
}

proof fn last_max_quality_of_prefix(s: Seq<QualityOptionView>, n: int) -> (b: int)
    requires
        1 <= n <= s.len(),
    ensures
        0 <= b < n,
        forall|j: int| 0 <= j < n ==> key3_le(quality_key(#[trigger] s[j]), quality_key(s[b])),
        forall|j: int| b < j < n ==> !key3_le(quality_key(s[b]), quality_key(#[trigger] s[j])),
    decreases n,
{
    if n == 1 {
        0
    } else {
        let b = last_max_quality_of_prefix(s, n - 1);
        if key3_le(quality_key(s[b]), quality_key(s[n - 1])) {
            n - 1
        } else {
            b
        }
    }
}

/// Exactly the non-empty option lists have a best quality option: one
/// entry with the greatest key after which every key is smaller.
pub proof fn best_quality_exists(options: Seq<QualityOptionView>)
    ensures
        spec_best_quality(options) is Some <==> options.len() > 0,
        options.len() > 0 ==> exists|i: int| is_last_max_quality(options, i),
{
    if options.len() > 0 {
        let b = last_max_quality_of_prefix(options, options.len() as int);
        assert(is_last_max_quality(options, b));
    }
}

/// How many of the first `n` stream entries are not I-frame entries: the
/// position, among the variants, of the variant made of entry `n`.
pub open spec fn stream_entries_before(entries: Seq<VariantModel>, n: nat) -> nat
    decreases n,
{
    if n == 0 || n > entries.len() {
        0
    } else {
        stream_entries_before(entries, (n - 1) as nat) + if entries[n - 1].is_i_frame {
            0nat
        } else {
            1nat
        }
    }
}

proof fn lemma_stream_entries_grow(entries: Seq<VariantModel>, m: nat, n: nat)
    requires
        m < n <= entries.len(),
        !entries[m as int].is_i_frame,
    ensures
        stream_entries_before(entries, m) < stream_entries_before(entries, n),
    decreases n,
{
    if n > m + 1 {
        lemma_stream_entries_grow(entries, m, (n - 1) as nat);
    }
}

/// The variant `v` carries the attributes of the stream entry `e`, the
/// entry at `index`: its id `variant-<index + 1>`, its `BANDWIDTH`, `AVERAGE-BANDWIDTH`, `CODECS` and `AUDIO` group, the width
/// and height of its `RESOLUTION` (where they fit in a `u32`), and its URI
/// resolved against `master_url`.
#[verifier::opaque]
pub open spec fn variant_copies_entry(
    master_url: Seq<char>,
    index: nat,
    e: VariantModel,
    v: HlsVariantView,
) -> bool {
    &&& v.id == "variant-"@ + decimal(index + 1)
    &&& v.bandwidth == e.bandwidth
    &&& v.average_bandwidth == e.average_bandwidth
    &&& v.codecs == opt_view(e.codecs)
    &&& v.audio_group == opt_view(e.audio)
    &&& v.width == match e.resolution {
        Some(res) => if res.0 <= u32::MAX { Some(res.0 as u32) } else { None },
        None => None,
    }
    &&& v.height == match e.resolution {
        Some(res) => if res.1 <= u32::MAX { Some(res.1 as u32) } else { None },
        None => None,
    }
    &&& url_join(master_url, e.uri@) == Some(v.media_playlist_url)
}

proof fn lemma_variant_copies_entry(master_url: Seq<char>, playlist: MasterModel, index: nat, e: VariantModel)
    ensures
        spec_variant(master_url, playlist, index, e) matches Ok(x) ==> variant_copies_entry(
            master_url,
            index,
            e,
            x,
        ),
{
    reveal(variant_copies_entry);
}

proof fn lemma_copies_push(
    master_url: Seq<char>,
    es: Seq<VariantModel>,
    s: Seq<HlsVariantView>,
    x: HlsVariantView,
    k: nat,
)
    requires
        k < es.len(),
        !es[k as int].is_i_frame,
        s.len() == stream_entries_before(es, k),
        forall|m: int|
            #![trigger es[m]]
            0 <= m < k && !es[m].is_i_frame ==> variant_copies_entry(
                master_url,
                m as nat,
                es[m],
                s[stream_entries_before(es, m as nat) as int],
            ),
        variant_copies_entry(master_url, k, es[k as int], x),
    ensures
        s.push(x).len() == stream_entries_before(es, k + 1),
        forall|m: int|
            #![trigger es[m]]
            0 <= m < k + 1 && !es[m].is_i_frame ==> variant_copies_entry(
                master_url,
                m as nat,
                es[m],
                s.push(x)[stream_entries_before(es, m as nat) as int],
            ),
{
    assert(stream_entries_before(es, k + 1) == stream_entries_before(es, k) + 1);
    assert forall|m: int|
        #![trigger es[m]]
        0 <= m < k + 1 && !es[m].is_i_frame implies variant_copies_entry(
            master_url,
            m as nat,
            es[m],
            s.push(x)[stream_entries_before(es, m as nat) as int],
        ) by {
        if m < k {
            lemma_stream_entries_grow(es, m as nat, k);
        }
    }
}

proof fn lemma_collect_copies_entries(master_url: Seq<char>, playlist: MasterModel, n: nat)
    requires
        n <= playlist.variants@.len(),
    ensures
        spec_collect_variants(master_url, playlist, n) matches Ok(vs) ==> {
            &&& vs.len() == stream_entries_before(playlist.variants@, n)
            &&& forall|m: int|
                #![trigger playlist.variants@[m]]
                0 <= m < n && !playlist.variants@[m].is_i_frame ==> variant_copies_entry(
                    master_url,
                    m as nat,
                    playlist.variants@[m],
                    vs[stream_entries_before(playlist.variants@, m as nat) as int],
                )
        },
    decreases n,
{
    if n > 0 {
        let es = playlist.variants@;
        let k = (n - 1) as nat;
        lemma_collect_copies_entries(master_url, playlist, k);
        if let Ok(s) = spec_collect_variants(master_url, playlist, k) {
            let e = es[k as int];
            if e.is_i_frame {
                assert(stream_entries_before(es, n) == stream_entries_before(es, k));
            } else {
                lemma_variant_copies_entry(master_url, playlist, k, e);
                if let Ok(x) = spec_variant(master_url, playlist, k, e) {
                    lemma_copies_push(master_url, es, s, x, k);
                }
            }
        }
    }
}

/// Each variant of a parsed master playlist carries the attributes of its
/// own `#EXT-X-STREAM-INF` entry: the variants follow the entries that are
/// not I-frame entries, in order, and the variant of entry `k` is named
/// `variant-<k + 1>` and has that entry's `BANDWIDTH`, `AVERAGE-BANDWIDTH`, `CODECS` and `AUDIO` group, the
/// width and height of its `RESOLUTION` (where they fit in a `u32`), and
/// its URI resolved against the master playlist's URL.
pub proof fn parsed_variants_copy_stream_entries(master_url: Seq<char>, body: Seq<u8>)
    ensures
        spec_parse_master(master_url, body) matches Ok(p) ==> {
            &&& m3u8_playlist(body) matches Ok(PlaylistModel::Master(m))
            &&& p.variants.len() == stream_entries_before(m.variants@, m.variants@.len())
            &&& forall|k: int|
                #![trigger m.variants@[k]]
                0 <= k < m.variants@.len() && !m.variants@[k].is_i_frame ==> variant_copies_entry(
                    master_url,
                    k as nat,
                    m.variants@[k],
                    p.variants[stream_entries_before(m.variants@, k as nat) as int],
                )
        },
{
    if url_parse(master_url) is Some {
        if let Ok(PlaylistModel::Master(m)) = m3u8_playlist(body) {
            lemma_collect_copies_entries(master_url, m, m.variants@.len());
        }
    }
}

/// The selected variant is the greatest by height, then width (a missing
/// one counting as 0), then average bandwidth (the bandwidth where it is
/// missing), then bandwidth; it is one of the variants, and every later
/// variant ranks strictly below it (the last of several equals wins). So a variant with a known, positive height always
/// beats one without a resolution.
pub proof fn best_variant_is_greatest(vs: Seq<HlsVariantView>)
    ensures
        spec_best_variant(vs) is Some <==> vs.len() > 0,
        spec_best_variant(vs) matches Some(b) ==> {
            &&& exists|i: int|
                #![trigger vs[i]]
                0 <= i < vs.len() && vs[i] == b && forall|j: int|
                    #![trigger vs[j]]
                    i < j < vs.len() ==> {
                        let v = vs[j];
                        let vh: int = match v.height { Some(h) => h as int, None => 0 };
                        let bh: int = match b.height { Some(h) => h as int, None => 0 };
                        let vw: int = match v.width { Some(w) => w as int, None => 0 };
                        let bw: int = match b.width { Some(w) => w as int, None => 0 };
                        let va: int = match v.average_bandwidth { Some(a) => a as int, None => v.bandwidth as int };
                        let ba: int = match b.average_bandwidth { Some(a) => a as int, None => b.bandwidth as int };
                        vh < bh || (vh == bh && (vw < bw || (vw == bw && (va < ba || (va == ba
                            && v.bandwidth < b.bandwidth)))))
                    }
            &&& forall|j: int|
                #![trigger vs[j]]
                0 <= j < vs.len() ==> {
                    let v = vs[j];
                    let vh: int = match v.height { Some(h) => h as int, None => 0 };
                    let bh: int = match b.height { Some(h) => h as int, None => 0 };
                    let vw: int = match v.width { Some(w) => w as int, None => 0 };
                    let bw: int = match b.width { Some(w) => w as int, None => 0 };
                    let va: int = match v.average_bandwidth { Some(a) => a as int, None => v.bandwidth as int };
                    let ba: int = match b.average_bandwidth { Some(a) => a as int, None => b.bandwidth as int };
                    vh < bh || (vh == bh && (vw < bw || (vw == bw && (va < ba || (va == ba
                        && v.bandwidth <= b.bandwidth)))))
                }
            &&& forall|j: int|
                #![trigger vs[j]]
                0 <= j < vs.len() && vs[j].height is Some && vs[j].height->0 > 0 ==> b.height is Some
                    && b.height->0 >= vs[j].height->0
        },
{
    best_variant_exists(vs);
    if vs.len() > 0 {
        let c = choose|i: int| is_last_max_variant(vs, i);
        assert(is_last_max_variant(vs, c));
        let b = vs[c];
        assert forall|j: int|
            #![trigger vs[j]]
            0 <= j < vs.len() && vs[j].height is Some && vs[j].height->0 > 0 implies b.height is Some
                && b.height->0 >= vs[j].height->0 by {
            assert(key4_le(variant_key(vs[j]), variant_key(b)));
        }
    }
}

/// The selected quality option is the greatest by height, then width, then
/// bandwidth (a missing value counting as 0), and it is one of the options,
/// every later option ranking strictly below it: among options of one
/// resolution, the one with the highest bandwidth wins.
pub proof fn best_quality_is_greatest(qs: Seq<QualityOptionView>)
    ensures
        spec_best_quality(qs) is Some <==> qs.len() > 0,
        spec_best_quality(qs) matches Some(b) ==> {
            &&& exists|i: int|
                #![trigger qs[i]]
                0 <= i < qs.len() && qs[i] == b && forall|j: int|
                    #![trigger qs[j]]
                    i < j < qs.len() ==> {
                        let q = qs[j];
                        let qh: int = match q.height { Some(h) => h as int, None => 0 };
                        let bh: int = match b.height { Some(h) => h as int, None => 0 };
                        let qw: int = match q.width { Some(w) => w as int, None => 0 };
                        let bw: int = match b.width { Some(w) => w as int, None => 0 };
                        let qb: int = match q.bandwidth { Some(x) => x as int, None => 0 };
                        let bb: int = match b.bandwidth { Some(x) => x as int, None => 0 };
                        qh < bh || (qh == bh && (qw < bw || (qw == bw && qb < bb)))
                    }
            &&& forall|j: int|
                #![trigger qs[j]]
                0 <= j < qs.len() ==> {
                    let q = qs[j];
                    let qh: int = match q.height { Some(h) => h as int, None => 0 };
                    let bh: int = match b.height { Some(h) => h as int, None => 0 };
                    let qw: int = match q.width { Some(w) => w as int, None => 0 };
                    let bw: int = match b.width { Some(w) => w as int, None => 0 };
                    let qb: int = match q.bandwidth { Some(x) => x as int, None => 0 };
                    let bb: int = match b.bandwidth { Some(x) => x as int, None => 0 };
                    qh < bh || (qh == bh && (qw < bw || (qw == bw && qb <= bb)))
                }
        },
{
    best_quality_exists(qs);
    if qs.len() > 0 {
        let c = choose|i: int| is_last_max_quality(qs, i);
        assert(is_last_max_quality(qs, c));
    }
}

/// A quality option describes its variant: the same id, label, width,
/// height and media playlist URL, and the variant's bandwidth.
pub proof fn quality_option_copies_variant(v: HlsVariantView)
    ensures
        quality_of(v).id == v.id,
        quality_of(v).label == v.label,
        quality_of(v).bandwidth == Some(v.bandwidth),
        quality_of(v).width == v.width,
        quality_of(v).height == v.height,
        quality_of(v).media_playlist_url == v.media_playlist_url,
{
}

} // verus!
