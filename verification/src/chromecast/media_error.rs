//! The detailed error codes that a receiver sends with a media error.

use vstd::prelude::*;

verus! {

/// What went wrong on the receiver.
#[derive(Clone, Copy, Debug, PartialEq, Eq, Structural)]
pub enum MediaDetailedErrorCode {
    /// The media element failed for a reason that has no code.
    MediaUnknown,
    /// The user had the fetching stopped.
    MediaAborted,
    /// The decoder failed on usable media.
    MediaDecode,
    /// The network failed while usable media was fetched.
    MediaNetwork,
    /// The decoder cannot play the source.
    MediaSrcNotSupported,
    SourceBufferFailure,
    MediakeysUnknown,
    MediakeysNetwork,
    MediakeysUnsupported,
    MediakeysWebcrypto,
    NetworkUnknown,
    /// A segment could not be downloaded.
    SegmentNetwork,
    HlsNetworkMasterPlaylist,
    HlsNetworkPlaylist,
    HlsNetworkNoKeyResponse,
    HlsNetworkKeyLoad,
    HlsNetworkInvalidSegment,
    HlsSegmentParsing,
    DashNetwork,
    DashNoInit,
    SmoothNetwork,
    SmoothNoMediaData,
    ManifestUnknown,
    HlsManifestMaster,
    HlsManifestPlaylist,
    DashManifestUnknown,
    DashManifestNoPeriods,
    DashManifestNoMimeType,
    DashInvalidSegmentInfo,
    SmoothManifest,
    SegmentUnknown,
    TextUnknown,
    App,
    BreakClipLoadingError,
    BreakSeekInterceptorError,
    ImageError,
    /// Another load took over.
    LoadInterrupted,
    /// The load could not start.
    LoadFailed,
    MediaErrorMessage,
    /// No more is known.
    Generic,
    /// A code that has no name here.
    Unknown(i64),
}

/// The number of an error.
pub open spec fn error_code(e: MediaDetailedErrorCode) -> i64 {
    match e {
        MediaDetailedErrorCode::MediaUnknown => 100,
        MediaDetailedErrorCode::MediaAborted => 101,
        MediaDetailedErrorCode::MediaDecode => 102,
        MediaDetailedErrorCode::MediaNetwork => 103,
        MediaDetailedErrorCode::MediaSrcNotSupported => 104,
        MediaDetailedErrorCode::SourceBufferFailure => 110,
        MediaDetailedErrorCode::MediakeysUnknown => 200,
        MediaDetailedErrorCode::MediakeysNetwork => 201,
        MediaDetailedErrorCode::MediakeysUnsupported => 202,
        MediaDetailedErrorCode::MediakeysWebcrypto => 203,
        MediaDetailedErrorCode::NetworkUnknown => 300,
        MediaDetailedErrorCode::SegmentNetwork => 301,
        MediaDetailedErrorCode::HlsNetworkMasterPlaylist => 311,
        MediaDetailedErrorCode::HlsNetworkPlaylist => 312,
        MediaDetailedErrorCode::HlsNetworkNoKeyResponse => 313,
        MediaDetailedErrorCode::HlsNetworkKeyLoad => 314,
        MediaDetailedErrorCode::HlsNetworkInvalidSegment => 315,
        MediaDetailedErrorCode::HlsSegmentParsing => 316,
        MediaDetailedErrorCode::DashNetwork => 321,
        MediaDetailedErrorCode::DashNoInit => 322,
        MediaDetailedErrorCode::SmoothNetwork => 331,
        MediaDetailedErrorCode::SmoothNoMediaData => 332,
        MediaDetailedErrorCode::ManifestUnknown => 400,
        MediaDetailedErrorCode::HlsManifestMaster => 411,
        MediaDetailedErrorCode::HlsManifestPlaylist => 412,
        MediaDetailedErrorCode::DashManifestUnknown => 420,
        MediaDetailedErrorCode::DashManifestNoPeriods => 421,
        MediaDetailedErrorCode::DashManifestNoMimeType => 422,
        MediaDetailedErrorCode::DashInvalidSegmentInfo => 423,
        MediaDetailedErrorCode::SmoothManifest => 431,
        MediaDetailedErrorCode::SegmentUnknown => 500,
        MediaDetailedErrorCode::TextUnknown => 600,
        MediaDetailedErrorCode::App => 900,
        MediaDetailedErrorCode::BreakClipLoadingError => 901,
        MediaDetailedErrorCode::BreakSeekInterceptorError => 902,
        MediaDetailedErrorCode::ImageError => 903,
        MediaDetailedErrorCode::LoadInterrupted => 904,
        MediaDetailedErrorCode::LoadFailed => 905,
        MediaDetailedErrorCode::MediaErrorMessage => 906,
        MediaDetailedErrorCode::Generic => 999,
        MediaDetailedErrorCode::Unknown(code) => code,
    }
}

/// Whether a number has a name.
pub open spec fn is_named_code(code: i64) -> bool {
    ||| code == 100
    ||| code == 101
    ||| code == 102
    ||| code == 103
    ||| code == 104
    ||| code == 110
    ||| code == 200
    ||| code == 201
    ||| code == 202
    ||| code == 203
    ||| code == 300
    ||| code == 301
    ||| code == 311
    ||| code == 312
    ||| code == 313
    ||| code == 314
    ||| code == 315
    ||| code == 316
    ||| code == 321
    ||| code == 322
    ||| code == 331
    ||| code == 332
    ||| code == 400
    ||| code == 411
    ||| code == 412
    ||| code == 420
    ||| code == 421
    ||| code == 422
    ||| code == 423
    ||| code == 431
    ||| code == 500
    ||| code == 600
    ||| code == 900
    ||| code == 901
    ||| code == 902
    ||| code == 903
    ||| code == 904
    ||| code == 905
    ||| code == 906
    ||| code == 999
}

/// Whether a fresh attempt may clear an error with this number: the failures
/// of the network and of loading may, the numbers without a name may, those of
/// the decoder, the manifest and the keys do not.
pub open spec fn is_retryable_code(code: i64) -> bool {
    ||| !is_named_code(code)
    ||| code == 103
    ||| code == 300
    ||| code == 301
    ||| code == 311
    ||| code == 312
    ||| code == 315
    ||| code == 321
    ||| code == 331
    ||| code == 500
    ||| code == 904
    ||| code == 905
    ||| code == 906
    ||| code == 999
}

impl MediaDetailedErrorCode {
    /// The error with the number; a number without a name is kept as it is.
    pub fn from_code(code: i64) -> (error: Self)
        ensures
            error_code(error) == code,
            error is Unknown <==> !is_named_code(code),
    {
        match code {
            100 => MediaDetailedErrorCode::MediaUnknown,
            101 => MediaDetailedErrorCode::MediaAborted,
            102 => MediaDetailedErrorCode::MediaDecode,
            103 => MediaDetailedErrorCode::MediaNetwork,
            104 => MediaDetailedErrorCode::MediaSrcNotSupported,
            110 => MediaDetailedErrorCode::SourceBufferFailure,
            200 => MediaDetailedErrorCode::MediakeysUnknown,
            201 => MediaDetailedErrorCode::MediakeysNetwork,
            202 => MediaDetailedErrorCode::MediakeysUnsupported,
            203 => MediaDetailedErrorCode::MediakeysWebcrypto,
            300 => MediaDetailedErrorCode::NetworkUnknown,
            301 => MediaDetailedErrorCode::SegmentNetwork,
            311 => MediaDetailedErrorCode::HlsNetworkMasterPlaylist,
            312 => MediaDetailedErrorCode::HlsNetworkPlaylist,
            313 => MediaDetailedErrorCode::HlsNetworkNoKeyResponse,
            314 => MediaDetailedErrorCode::HlsNetworkKeyLoad,
            315 => MediaDetailedErrorCode::HlsNetworkInvalidSegment,
            316 => MediaDetailedErrorCode::HlsSegmentParsing,
            321 => MediaDetailedErrorCode::DashNetwork,
            322 => MediaDetailedErrorCode::DashNoInit,
            331 => MediaDetailedErrorCode::SmoothNetwork,
            332 => MediaDetailedErrorCode::SmoothNoMediaData,
            400 => MediaDetailedErrorCode::ManifestUnknown,
            411 => MediaDetailedErrorCode::HlsManifestMaster,
            412 => MediaDetailedErrorCode::HlsManifestPlaylist,
            420 => MediaDetailedErrorCode::DashManifestUnknown,
            421 => MediaDetailedErrorCode::DashManifestNoPeriods,
            422 => MediaDetailedErrorCode::DashManifestNoMimeType,
            423 => MediaDetailedErrorCode::DashInvalidSegmentInfo,
            431 => MediaDetailedErrorCode::SmoothManifest,
            500 => MediaDetailedErrorCode::SegmentUnknown,
            600 => MediaDetailedErrorCode::TextUnknown,
            900 => MediaDetailedErrorCode::App,
            901 => MediaDetailedErrorCode::BreakClipLoadingError,
            902 => MediaDetailedErrorCode::BreakSeekInterceptorError,
            903 => MediaDetailedErrorCode::ImageError,
            904 => MediaDetailedErrorCode::LoadInterrupted,
            905 => MediaDetailedErrorCode::LoadFailed,
            906 => MediaDetailedErrorCode::MediaErrorMessage,
            999 => MediaDetailedErrorCode::Generic,
            other => MediaDetailedErrorCode::Unknown(other),
        }
    }

    /// The number of the error.
    pub fn code(self) -> (code: i64)
        ensures
            code == error_code(self),
    {
        match self {
            MediaDetailedErrorCode::MediaUnknown => 100,
            MediaDetailedErrorCode::MediaAborted => 101,
            MediaDetailedErrorCode::MediaDecode => 102,
            MediaDetailedErrorCode::MediaNetwork => 103,
            MediaDetailedErrorCode::MediaSrcNotSupported => 104,
            MediaDetailedErrorCode::SourceBufferFailure => 110,
            MediaDetailedErrorCode::MediakeysUnknown => 200,
            MediaDetailedErrorCode::MediakeysNetwork => 201,
            MediaDetailedErrorCode::MediakeysUnsupported => 202,
            MediaDetailedErrorCode::MediakeysWebcrypto => 203,
            MediaDetailedErrorCode::NetworkUnknown => 300,
            MediaDetailedErrorCode::SegmentNetwork => 301,
            MediaDetailedErrorCode::HlsNetworkMasterPlaylist => 311,
            MediaDetailedErrorCode::HlsNetworkPlaylist => 312,
            MediaDetailedErrorCode::HlsNetworkNoKeyResponse => 313,
            MediaDetailedErrorCode::HlsNetworkKeyLoad => 314,
            MediaDetailedErrorCode::HlsNetworkInvalidSegment => 315,
            MediaDetailedErrorCode::HlsSegmentParsing => 316,
            MediaDetailedErrorCode::DashNetwork => 321,
            MediaDetailedErrorCode::DashNoInit => 322,
            MediaDetailedErrorCode::SmoothNetwork => 331,
            MediaDetailedErrorCode::SmoothNoMediaData => 332,
            MediaDetailedErrorCode::ManifestUnknown => 400,
            MediaDetailedErrorCode::HlsManifestMaster => 411,
            MediaDetailedErrorCode::HlsManifestPlaylist => 412,
            MediaDetailedErrorCode::DashManifestUnknown => 420,
            MediaDetailedErrorCode::DashManifestNoPeriods => 421,
            MediaDetailedErrorCode::DashManifestNoMimeType => 422,
            MediaDetailedErrorCode::DashInvalidSegmentInfo => 423,
            MediaDetailedErrorCode::SmoothManifest => 431,
            MediaDetailedErrorCode::SegmentUnknown => 500,
            MediaDetailedErrorCode::TextUnknown => 600,
            MediaDetailedErrorCode::App => 900,
            MediaDetailedErrorCode::BreakClipLoadingError => 901,
            MediaDetailedErrorCode::BreakSeekInterceptorError => 902,
            MediaDetailedErrorCode::ImageError => 903,
            MediaDetailedErrorCode::LoadInterrupted => 904,
            MediaDetailedErrorCode::LoadFailed => 905,
            MediaDetailedErrorCode::MediaErrorMessage => 906,
            MediaDetailedErrorCode::Generic => 999,
            MediaDetailedErrorCode::Unknown(code) => code,
        }
    }

    /// Whether a fresh attempt may clear the error. An error that carries a
    /// bare number always may.
    pub fn is_retryable(self) -> (retryable: bool)
        ensures
            retryable == (self is Unknown || is_retryable_code(error_code(self))),
    {
        match self {
            MediaDetailedErrorCode::MediaNetwork
            | MediaDetailedErrorCode::NetworkUnknown
            | MediaDetailedErrorCode::SegmentNetwork
            | MediaDetailedErrorCode::SegmentUnknown
            | MediaDetailedErrorCode::HlsNetworkMasterPlaylist
            | MediaDetailedErrorCode::HlsNetworkPlaylist
            | MediaDetailedErrorCode::HlsNetworkInvalidSegment
            | MediaDetailedErrorCode::DashNetwork
            | MediaDetailedErrorCode::SmoothNetwork
            | MediaDetailedErrorCode::LoadInterrupted
            | MediaDetailedErrorCode::LoadFailed
            | MediaDetailedErrorCode::MediaErrorMessage
            | MediaDetailedErrorCode::Generic
            | MediaDetailedErrorCode::Unknown(_) => true,
            _ => false,
        }
    }
}

/// Two named errors with one number are the same error.
pub proof fn codes_are_distinct(a: MediaDetailedErrorCode, b: MediaDetailedErrorCode)
    requires
        error_code(a) == error_code(b),
        !(a is Unknown),
        !(b is Unknown),
    ensures
        a == b,
{
}

/// The numbers are those of the receivers' framework.
pub proof fn numbers_are_the_frameworks()
    ensures
        error_code(MediaDetailedErrorCode::MediaUnknown) == 100,
        error_code(MediaDetailedErrorCode::MediaAborted) == 101,
        error_code(MediaDetailedErrorCode::MediaDecode) == 102,
        error_code(MediaDetailedErrorCode::MediaNetwork) == 103,
        error_code(MediaDetailedErrorCode::MediaSrcNotSupported) == 104,
        error_code(MediaDetailedErrorCode::SourceBufferFailure) == 110,
        error_code(MediaDetailedErrorCode::MediakeysUnknown) == 200,
        error_code(MediaDetailedErrorCode::MediakeysNetwork) == 201,
        error_code(MediaDetailedErrorCode::MediakeysUnsupported) == 202,
        error_code(MediaDetailedErrorCode::MediakeysWebcrypto) == 203,
        error_code(MediaDetailedErrorCode::NetworkUnknown) == 300,
        error_code(MediaDetailedErrorCode::SegmentNetwork) == 301,
        error_code(MediaDetailedErrorCode::HlsNetworkMasterPlaylist) == 311,
        error_code(MediaDetailedErrorCode::HlsNetworkPlaylist) == 312,
        error_code(MediaDetailedErrorCode::HlsNetworkNoKeyResponse) == 313,
        error_code(MediaDetailedErrorCode::HlsNetworkKeyLoad) == 314,
        error_code(MediaDetailedErrorCode::HlsNetworkInvalidSegment) == 315,
        error_code(MediaDetailedErrorCode::HlsSegmentParsing) == 316,
        error_code(MediaDetailedErrorCode::DashNetwork) == 321,
        error_code(MediaDetailedErrorCode::DashNoInit) == 322,
        error_code(MediaDetailedErrorCode::SmoothNetwork) == 331,
        error_code(MediaDetailedErrorCode::SmoothNoMediaData) == 332,
        error_code(MediaDetailedErrorCode::ManifestUnknown) == 400,
        error_code(MediaDetailedErrorCode::HlsManifestMaster) == 411,
        error_code(MediaDetailedErrorCode::HlsManifestPlaylist) == 412,
        error_code(MediaDetailedErrorCode::DashManifestUnknown) == 420,
        error_code(MediaDetailedErrorCode::DashManifestNoPeriods) == 421,
        error_code(MediaDetailedErrorCode::DashManifestNoMimeType) == 422,
        error_code(MediaDetailedErrorCode::DashInvalidSegmentInfo) == 423,
        error_code(MediaDetailedErrorCode::SmoothManifest) == 431,
        error_code(MediaDetailedErrorCode::SegmentUnknown) == 500,
        error_code(MediaDetailedErrorCode::TextUnknown) == 600,
        error_code(MediaDetailedErrorCode::App) == 900,
        error_code(MediaDetailedErrorCode::BreakClipLoadingError) == 901,
        error_code(MediaDetailedErrorCode::BreakSeekInterceptorError) == 902,
        error_code(MediaDetailedErrorCode::ImageError) == 903,
        error_code(MediaDetailedErrorCode::LoadInterrupted) == 904,
        error_code(MediaDetailedErrorCode::LoadFailed) == 905,
        error_code(MediaDetailedErrorCode::MediaErrorMessage) == 906,
        error_code(MediaDetailedErrorCode::Generic) == 999,
{
}

/// Every error that has a name has a number that is known, and every known
/// number is that of an error.
pub proof fn named_numbers_are_those_of_errors(e: MediaDetailedErrorCode, code: i64)
    ensures
        !(e is Unknown) ==> is_named_code(error_code(e)),
        error_code(MediaDetailedErrorCode::Unknown(code)) == code,
{
}

/// What failed on the way may be tried again: the network, the fetching of
/// segments and playlists, the loading, and what nobody can name. What failed in
/// the media may not: the decoder, the source, the keys, the manifests, the text.
pub proof fn failures_on_the_way_may_be_tried_again(code: i64)
    ensures
        is_retryable_code(103) && is_retryable_code(300) && is_retryable_code(301),
        is_retryable_code(311) && is_retryable_code(312) && is_retryable_code(315),
        is_retryable_code(321) && is_retryable_code(331) && is_retryable_code(500),
        is_retryable_code(904) && is_retryable_code(905) && is_retryable_code(906)
            && is_retryable_code(999),
        100 <= code <= 102 || code == 104 || code == 110 ==> !is_retryable_code(code),
        200 <= code <= 203 ==> !is_retryable_code(code),
        code == 313 || code == 314 || code == 316 || code == 322 || code == 332
            ==> !is_retryable_code(code),
        code == 400 || code == 411 || code == 412 || 420 <= code <= 423 || code == 431
            ==> !is_retryable_code(code),
        code == 600 || 900 <= code <= 903 ==> !is_retryable_code(code),
        code < 100 || code > 999 || 105 <= code <= 109 ==> is_retryable_code(code),
{
}

} // verus!
