//! Request handling: which requests run during a firmware update, which
//! need on-screen confirmation, and the handlers for the requests answered
//! from the session and the seed store.
use vstd::prelude::*;
use crate::limits::ErrCode;
use crate::nvs_store::store::{NvsError, NvsStore};
use crate::protocol::Response;
use crate::session::Session;
use crate::types::{DeviceAddressBookEntry, SeedSlotLabel, TouchCalibration};
use crate::update_auth::{UpdateAuthError, UpdateFlashError, UpdateImageStreamError, UpdateSignatureError, UpdateStreamError};

verus! {

/// The kinds of single-frame requests.
#[derive(Clone, Copy, Debug, PartialEq, Eq, Structural)]
pub enum RequestKind {
    Hello,
    Ping,
    GetInfo,
    GetLockStatus,
    GetSecurityStatus,
    GetBuildInfo,
    Reboot,
    SetSeed,
    Wipe,
    Lock,
    SelectSeed,
    GetFingerprint,
    GetPubkey,
    SignDigest,
    GetXpub,
    GetCheetahPub,
    SignSpendHash,
    SignSpendHashFor,
    Health,
    InitializePin,
    AddSeed,
    DeleteSeed,
    Unlock,
    ResetPin,
    ChangePinOnDevice,
    StartTouchCalibration,
    Reset,
    GetReleaseInfo,
    GetUpdateBootStatus,
    GetUpdateTrust,
    VerifyUpdateManifest,
    BeginUpdate,
    UpdateChunk,
    FinishUpdate,
    CancelUpdate,
    GetUpdateStatus,
    GetTouchCalibration,
    SetTouchCalibration,
    ShowTouchDiagnostics,
    GetSeedLabels,
    SetSeedLabel,
    GetAddressBook,
    VaultList,
    VaultStore,
    VaultReveal,
    VaultDelete,
    GetMasterPubkey,
}

/// A frame: one request, or the start or a part of a fragmented payload.
#[derive(Clone, Copy, Debug, PartialEq, Eq, Structural)]
pub enum FrameKind {
    One(RequestKind),
    FragBegin,
    FragPart,
}

/// The requests served while a firmware update streams: status queries and
/// the update itself.
pub open spec fn allowed_during_update(f: FrameKind) -> bool {
    match f {
        FrameKind::One(k) => k == RequestKind::Hello || k == RequestKind::Ping || k == RequestKind::GetInfo
            || k == RequestKind::GetLockStatus || k == RequestKind::GetSecurityStatus || k == RequestKind::GetBuildInfo
            || k == RequestKind::GetReleaseInfo || k == RequestKind::GetUpdateBootStatus || k == RequestKind::GetUpdateTrust
            || k == RequestKind::GetUpdateStatus || k == RequestKind::UpdateChunk || k == RequestKind::FinishUpdate
            || k == RequestKind::CancelUpdate,
        _ => false,
    }
}

pub fn update_mode_allows_frame(f: FrameKind) -> (r: bool)
    ensures
        r == allowed_during_update(f),
{
    match f {
        FrameKind::One(k) => match k {
            RequestKind::Hello | RequestKind::Ping | RequestKind::GetInfo | RequestKind::GetLockStatus
            | RequestKind::GetSecurityStatus | RequestKind::GetBuildInfo | RequestKind::GetReleaseInfo
            | RequestKind::GetUpdateBootStatus | RequestKind::GetUpdateTrust | RequestKind::GetUpdateStatus
            | RequestKind::UpdateChunk | RequestKind::FinishUpdate | RequestKind::CancelUpdate => true,
            _ => false,
        },
        _ => false,
    }
}

/// While an update streams, every other frame is answered busy.
pub fn update_busy_gate(stream_active: bool, f: FrameKind) -> (r: Option<Response>)
    ensures
        (stream_active && !allowed_during_update(f)) ==> (r matches Some(resp) && crate::protocol::is_err(resp, ErrCode::Busy)),
        !(stream_active && !allowed_during_update(f)) ==> r is None,
{
    if stream_active && !update_mode_allows_frame(f) {
        return Some(Response::Error { code: ErrCode::Busy });
    }
    None
}

/// The single-frame signing requests the worker answers directly.
pub open spec fn direct_sign(f: FrameKind) -> bool {
    f == FrameKind::One(RequestKind::SignDigest) || f == FrameKind::One(RequestKind::SignSpendHash)
        || f == FrameKind::One(RequestKind::SignSpendHashFor)
}

pub fn is_direct_sign_frame(f: FrameKind) -> (r: bool)
    ensures
        r == direct_sign(f),
{
    match f {
        FrameKind::One(RequestKind::SignDigest) | FrameKind::One(RequestKind::SignSpendHash)
        | FrameKind::One(RequestKind::SignSpendHashFor) => true,
        _ => false,
    }
}

/// The question shown before a request that needs the user's approval.
#[derive(Clone, Copy, Debug, PartialEq, Eq, Structural)]
pub enum ConfirmPrompt {
    SignDigest,
    ApproveSpend,
    DeleteSeed,
    FactoryReset,
    StoreSecret,
    RevealSecret,
    DeleteSecret,
    ExportPubkey,
}

pub open spec fn prompt_for(f: FrameKind) -> Option<ConfirmPrompt> {
    match f {
        FrameKind::One(RequestKind::SignDigest) => Some(ConfirmPrompt::SignDigest),
        FrameKind::One(RequestKind::SignSpendHash) => Some(ConfirmPrompt::ApproveSpend),
        FrameKind::One(RequestKind::SignSpendHashFor) => Some(ConfirmPrompt::ApproveSpend),
        FrameKind::One(RequestKind::DeleteSeed) => Some(ConfirmPrompt::DeleteSeed),
        FrameKind::One(RequestKind::Reset) => Some(ConfirmPrompt::FactoryReset),
        FrameKind::One(RequestKind::VaultStore) => Some(ConfirmPrompt::StoreSecret),
        FrameKind::One(RequestKind::VaultReveal) => Some(ConfirmPrompt::RevealSecret),
        FrameKind::One(RequestKind::VaultDelete) => Some(ConfirmPrompt::DeleteSecret),
        FrameKind::One(RequestKind::GetMasterPubkey) => Some(ConfirmPrompt::ExportPubkey),
        _ => None,
    }
}

/// A spend is asked for as a spend: both spend-signing requests are
/// prompted "Approve spend?", and only a digest signature is prompted
/// "Sign digest?".
pub proof fn lemma_spend_prompts(f: FrameKind)
    ensures
        (f == FrameKind::One(RequestKind::SignSpendHash) || f == FrameKind::One(RequestKind::SignSpendHashFor))
            ==> (prompt_for(f) matches Some(p) && prompt_text(p) == "Approve spend?"@),
        (prompt_for(f) matches Some(p) && prompt_text(p) == "Sign digest?"@) <==> f == FrameKind::One(RequestKind::SignDigest),
{
    reveal_strlit("Approve spend?");
    reveal_strlit("Sign digest?");
    assert(prompt_text(ConfirmPrompt::SignDigest) =~= "Sign digest?"@);
    assert(prompt_text(ConfirmPrompt::ApproveSpend) =~= "Approve spend?"@);
    if let Some(p) = prompt_for(f) {
        if p != ConfirmPrompt::SignDigest {
            assert(prompt_text(p) != "Sign digest?"@) by {
                assert(prompt_text(p).len() != 12 || prompt_text(p)[0] != 'S' || prompt_text(p)[1] != 'i');
            }
        }
    }
}

pub fn frame_confirmation_prompt(f: FrameKind) -> (r: Option<ConfirmPrompt>)
    ensures
        r == prompt_for(f),
        (f == FrameKind::One(RequestKind::SignSpendHash) || f == FrameKind::One(RequestKind::SignSpendHashFor))
            ==> r == Some(ConfirmPrompt::ApproveSpend),
        r == Some(ConfirmPrompt::SignDigest) <==> f == FrameKind::One(RequestKind::SignDigest),
{
    match f {
        FrameKind::One(RequestKind::SignDigest) => Some(ConfirmPrompt::SignDigest),
        FrameKind::One(RequestKind::SignSpendHash) => Some(ConfirmPrompt::ApproveSpend),
        FrameKind::One(RequestKind::SignSpendHashFor) => Some(ConfirmPrompt::ApproveSpend),
        FrameKind::One(RequestKind::DeleteSeed) => Some(ConfirmPrompt::DeleteSeed),
        FrameKind::One(RequestKind::Reset) => Some(ConfirmPrompt::FactoryReset),
        FrameKind::One(RequestKind::VaultStore) => Some(ConfirmPrompt::StoreSecret),
        FrameKind::One(RequestKind::VaultReveal) => Some(ConfirmPrompt::RevealSecret),
        FrameKind::One(RequestKind::VaultDelete) => Some(ConfirmPrompt::DeleteSecret),
        FrameKind::One(RequestKind::GetMasterPubkey) => Some(ConfirmPrompt::ExportPubkey),
        _ => None,
    }
}

impl ConfirmPrompt {
    pub fn text(self) -> (s: &'static str)
        ensures
            s@ == prompt_text(self),
    {
        match self {
            ConfirmPrompt::SignDigest => { proof { reveal_strlit("Sign digest?"); } "Sign digest?" },
            ConfirmPrompt::ApproveSpend => { proof { reveal_strlit("Approve spend?"); } "Approve spend?" },
            ConfirmPrompt::DeleteSeed => { proof { reveal_strlit("Delete seed?"); } "Delete seed?" },
            ConfirmPrompt::FactoryReset => { proof { reveal_strlit("Factory reset?"); } "Factory reset?" },
            ConfirmPrompt::StoreSecret => { proof { reveal_strlit("Store secret?"); } "Store secret?" },
            ConfirmPrompt::RevealSecret => { proof { reveal_strlit("Reveal secret?"); } "Reveal secret?" },
            ConfirmPrompt::DeleteSecret => { proof { reveal_strlit("Delete secret?"); } "Delete secret?" },
            ConfirmPrompt::ExportPubkey => { proof { reveal_strlit("Export pubkey?"); } "Export pubkey?" },
        }
    }
}

pub open spec fn prompt_text(p: ConfirmPrompt) -> Seq<char> {
    match p {
        ConfirmPrompt::SignDigest => seq!['S', 'i', 'g', 'n', ' ', 'd', 'i', 'g', 'e', 's', 't', '?'],
        ConfirmPrompt::ApproveSpend => seq!['A', 'p', 'p', 'r', 'o', 'v', 'e', ' ', 's', 'p', 'e', 'n', 'd', '?'],
        ConfirmPrompt::DeleteSeed => seq!['D', 'e', 'l', 'e', 't', 'e', ' ', 's', 'e', 'e', 'd', '?'],
        ConfirmPrompt::FactoryReset => seq!['F', 'a', 'c', 't', 'o', 'r', 'y', ' ', 'r', 'e', 's', 'e', 't', '?'],
        ConfirmPrompt::StoreSecret => seq!['S', 't', 'o', 'r', 'e', ' ', 's', 'e', 'c', 'r', 'e', 't', '?'],
        ConfirmPrompt::RevealSecret => seq!['R', 'e', 'v', 'e', 'a', 'l', ' ', 's', 'e', 'c', 'r', 'e', 't', '?'],
        ConfirmPrompt::DeleteSecret => seq!['D', 'e', 'l', 'e', 't', 'e', ' ', 's', 'e', 'c', 'r', 'e', 't', '?'],
        ConfirmPrompt::ExportPubkey => seq!['E', 'x', 'p', 'o', 'r', 't', ' ', 'p', 'u', 'b', 'k', 'e', 'y', '?'],
    }
}

/// The error code a failed update step is reported with.
pub open spec fn stream_error_code(e: UpdateStreamError) -> ErrCode {
    match e {
        UpdateStreamError::Auth(UpdateAuthError::NoTrustAnchor) | UpdateStreamError::Auth(UpdateAuthError::UnsupportedManifest)
            => ErrCode::UnsupportedVersion,
        UpdateStreamError::Auth(UpdateAuthError::Crypto(UpdateSignatureError::RollbackVersion)) => ErrCode::UnsupportedVersion,
        UpdateStreamError::Auth(UpdateAuthError::Crypto(_)) => ErrCode::Crypto,
        UpdateStreamError::Flash(UpdateFlashError::VerifyMismatch) => ErrCode::Crypto,
        UpdateStreamError::Image(UpdateImageStreamError::ImageHashMismatch) => ErrCode::Crypto,
        UpdateStreamError::Busy => ErrCode::Busy,
        UpdateStreamError::Flash(_) => ErrCode::Flash,
        UpdateStreamError::Image(UpdateImageStreamError::ChunkTooLarge) | UpdateStreamError::Image(UpdateImageStreamError::Overflow)
            => ErrCode::Overflow,
        UpdateStreamError::NoActiveSession => ErrCode::BadCobsOrPostcard,
        UpdateStreamError::Image(UpdateImageStreamError::OffsetMismatch)
        | UpdateStreamError::Image(UpdateImageStreamError::IncompleteImage) => ErrCode::BadCobsOrPostcard,
    }
}

pub fn update_stream_error_code(e: UpdateStreamError) -> (c: ErrCode)
    ensures
        c == stream_error_code(e),
{
    match e {
        UpdateStreamError::Auth(UpdateAuthError::NoTrustAnchor) | UpdateStreamError::Auth(UpdateAuthError::UnsupportedManifest)
            => ErrCode::UnsupportedVersion,
        UpdateStreamError::Auth(UpdateAuthError::Crypto(UpdateSignatureError::RollbackVersion)) => ErrCode::UnsupportedVersion,
        UpdateStreamError::Auth(UpdateAuthError::Crypto(_)) => ErrCode::Crypto,
        UpdateStreamError::Flash(UpdateFlashError::VerifyMismatch) => ErrCode::Crypto,
        UpdateStreamError::Image(UpdateImageStreamError::ImageHashMismatch) => ErrCode::Crypto,
        UpdateStreamError::Busy => ErrCode::Busy,
        UpdateStreamError::Flash(_) => ErrCode::Flash,
        UpdateStreamError::Image(UpdateImageStreamError::ChunkTooLarge) | UpdateStreamError::Image(UpdateImageStreamError::Overflow)
            => ErrCode::Overflow,
        UpdateStreamError::NoActiveSession => ErrCode::BadCobsOrPostcard,
        UpdateStreamError::Image(UpdateImageStreamError::OffsetMismatch)
        | UpdateStreamError::Image(UpdateImageStreamError::IncompleteImage) => ErrCode::BadCobsOrPostcard,
    }
}

/// The lock status report: a device with a seed in RAM or in flash reports
/// the session's lock, a blank device reports unlocked.
pub fn lock_status(session: &Session, nvs: &NvsStore) -> (r: Response)
    requires
        nvs.wf(),
    ensures
        r matches Response::OkLockStatus { locked, attempts_remaining }
            && locked == ((session.view().slots.len() > 0 || crate::nvs_store::store::store_initialized(nvs@)) && session.view().locked)
            && attempts_remaining == match crate::nvs_store::store::stored_header(nvs@) {
                Some(h) => if crate::nvs_store::records::header_view_initialized(h) {
                    (crate::nvs_store::layout::MAX_PIN_ATTEMPTS - crate::nvs_store::store::attempts_used(nvs@, h)) as u8
                } else {
                    crate::nvs_store::layout::MAX_PIN_ATTEMPTS
                },
                None => crate::nvs_store::layout::MAX_PIN_ATTEMPTS,
            },
{
    let has_seed_in_ram = crate::session::has_seed(session);
    let persisted_seed = nvs.is_initialized();
    let locked = if has_seed_in_ram || persisted_seed { crate::session::is_locked(session) } else { false };
    Response::OkLockStatus { locked, attempts_remaining: nvs.get_attempts_remaining() }
}

/// The seed labels, or the label change a request asks for (refused while
/// locked).
pub fn get_seed_labels(nvs: &NvsStore) -> (r: Response)
    requires
        nvs.wf(),
    ensures
        r matches Response::OkSeedLabels(labels)
            && labels@.map_values(|l: SeedSlotLabel| crate::nvs_store::records::label_view(l))
                == crate::nvs_store::prefs::stored_labels(nvs@),
{
    match nvs.read_seed_labels() {
        Ok(labels) => Response::OkSeedLabels(labels),
        Err(_) => Response::OkSeedLabels(Vec::new()),
    }
}

pub open spec fn label_error_code(e: NvsError) -> ErrCode {
    match e {
        NvsError::InvalidSlot | NvsError::NotInitialized => ErrCode::NoSeed,
        NvsError::InvalidLabel => ErrCode::BadCobsOrPostcard,
        NvsError::Flash => ErrCode::Flash,
        _ => ErrCode::NoSeed,
    }
}

pub fn set_seed_label(nvs: &mut NvsStore, slot: u8, label: &[u8], locked: bool) -> (r: Response)
    requires
        old(nvs).wf(),
    ensures
        final(nvs).wf(),
        locked ==> crate::protocol::is_err(r, ErrCode::DeviceLocked) && final(nvs)@ == old(nvs)@,
        !locked && !crate::nvs_store::records::spec_seed_label_valid(label@)
            ==> crate::protocol::is_err(r, ErrCode::BadCobsOrPostcard) && final(nvs)@ == old(nvs)@,
{
    if locked {
        return Response::Error { code: ErrCode::DeviceLocked };
    }
    match nvs.write_seed_label(slot as usize, label) {
        Ok(()) => Response::Done,
        Err(NvsError::InvalidSlot) | Err(NvsError::NotInitialized) => Response::Error { code: ErrCode::NoSeed },
        Err(NvsError::InvalidLabel) => Response::Error { code: ErrCode::BadCobsOrPostcard },
        Err(NvsError::Flash) => Response::Error { code: ErrCode::Flash },
        Err(_) => Response::Error { code: ErrCode::NoSeed },
    }
}

/// The stored calibration, or the built-in one when none is stored.
pub fn get_touch_calibration(nvs: &NvsStore) -> (r: Response)
    requires
        nvs.wf(),
    ensures
        r matches Response::OkTouchCalibration(c) && c == match crate::nvs_store::prefs::stored_calibration(nvs@) {
            Some(s) => s,
            None => TouchCalibration {
                raw_x_min: crate::gui::constants::RAW_X_MIN,
                raw_x_max: crate::gui::constants::RAW_X_MAX,
                raw_y_min: crate::gui::constants::RAW_Y_MIN,
                raw_y_max: crate::gui::constants::RAW_Y_MAX,
                mirror_x: crate::gui::constants::MIRROR_X,
                mirror_y: false,
            },
        },
{
    let c = match nvs.read_touch_calibration() {
        Ok(Some(c)) => c,
        _ => crate::gui::touch::default_touch_calibration(),
    };
    Response::OkTouchCalibration(c)
}

/// Store a calibration from the host; an empty raw range is refused.
pub fn set_touch_calibration(nvs: &mut NvsStore, c: &TouchCalibration) -> (r: Response)
    requires
        old(nvs).wf(),
    ensures
        final(nvs).wf(),
        !crate::gui::touch::calibration_valid(*c) ==> crate::protocol::is_err(r, ErrCode::BadCobsOrPostcard) && final(nvs)@ == old(nvs)@,
        crate::gui::touch::calibration_valid(*c) ==> r is Done && crate::nvs_store::prefs::stored_calibration(final(nvs)@) == Some(*c),
{
    if !crate::gui::touch::touch_calibration_valid(c) {
        return Response::Error { code: ErrCode::BadCobsOrPostcard };
    }
    match nvs.write_touch_calibration(c) {
        Ok(()) => Response::Done,
        Err(NvsError::Flash) => Response::Error { code: ErrCode::Flash },
        Err(_) => Response::Error { code: ErrCode::BadCobsOrPostcard },
    }
}

/// The address book for the host, refused while locked.
pub fn read_address_book_payload(nvs: &NvsStore, locked: bool) -> (r: Result<Vec<DeviceAddressBookEntry>, Response>)
    requires
        nvs.wf(),
    ensures
        locked ==> (r matches Err(resp) && crate::protocol::is_err(resp, ErrCode::DeviceLocked)),
        !locked ==> (r matches Ok(entries) && entries@.map_values(|e: DeviceAddressBookEntry| crate::nvs_store::records::entry_view(e))
            == crate::nvs_store::prefs::stored_address_book(nvs@)),
{
    if locked {
        return Err(Response::Error { code: ErrCode::DeviceLocked });
    }
    match nvs.read_device_address_book() {
        Ok(entries) => Ok(entries),
        Err(_) => Ok(Vec::new()),
    }
}

/// Replace the address book with entries decoded from the host (refused
/// while locked; too many or invalid entries are a malformed request).
pub fn write_address_book_entries(nvs: &mut NvsStore, entries: &[DeviceAddressBookEntry], locked: bool) -> (r: Response)
    requires
        old(nvs).wf(),
    ensures
        final(nvs).wf(),
        locked ==> crate::protocol::is_err(r, ErrCode::DeviceLocked) && final(nvs)@ == old(nvs)@,
        !locked && !crate::nvs_store::records::address_book_storable(entries@)
            ==> crate::protocol::is_err(r, ErrCode::BadCobsOrPostcard) && final(nvs)@ == old(nvs)@,
        !locked && crate::nvs_store::records::address_book_storable(entries@) ==> r is Done,
{
    if locked {
        return Response::Error { code: ErrCode::DeviceLocked };
    }
    match nvs.write_device_address_book(entries) {
        Ok(()) => Response::Done,
        Err(NvsError::Full) | Err(NvsError::InvalidLabel) => Response::Error { code: ErrCode::BadCobsOrPostcard },
        Err(NvsError::Flash) => Response::Error { code: ErrCode::Flash },
        Err(_) => Response::Error { code: ErrCode::BadCobsOrPostcard },
    }
}

/// The trust-anchor report.
pub fn update_trust(anchor: Option<[u8; 32]>) -> (r: Response)
    ensures
        match anchor {
            Some(a) => r matches Response::OkUpdateTrust { configured, pubkey_sha256 } && configured && pubkey_sha256 == a,
            None => r matches Response::OkUpdateTrust { configured, pubkey_sha256 } && !configured
                && pubkey_sha256@ == Seq::new(32, |i: int| 0u8),
        },
{
    match anchor {
        Some(a) => Response::OkUpdateTrust { configured: true, pubkey_sha256: a },
        None => {
            let z = [0u8; 32];
            assert(z@ =~= Seq::new(32, |i: int| 0u8));
            Response::OkUpdateTrust { configured: false, pubkey_sha256: z }
        },
    }
}

/// A payload of kind `SetSeed` completed: exactly 64 bytes become the
/// session's only seed; any other length is malformed.
pub fn complete_set_seed(session: &mut Session, payload: &[u8]) -> (r: Response)
    requires
        old(session).wf(),
    ensures
        final(session).wf(),
        payload@.len() != 64 ==> crate::protocol::is_err(r, ErrCode::BadCobsOrPostcard) && final(session).view() == old(session).view(),
        payload@.len() == 64 ==> r is Done && final(session).view().slots.len() == 1
            && final(session).view().slots[0]@ == payload@ && !final(session).view().locked,
{
    if payload.len() != 64 {
        return Response::Error { code: ErrCode::BadCobsOrPostcard };
    }
    let mut arr = [0u8; 64];
    let mut i: usize = 0;
    while i < 64
        invariant
            payload@.len() == 64,
            i <= 64,
            forall|j: int| 0 <= j < i ==> arr@[j] == payload@[j],
        decreases 64 - i,
    {
        arr[i] = payload[i];
        i += 1;
    }
    assert(arr@ =~= payload@);
    crate::session::set_seed(session, &arr);
    Response::Done
}

/// The id of an outgoing address-book transfer: the request id's low bits,
/// never zero.
pub fn address_book_frag_id(req_id: u32) -> (id: u16)
    ensures
        id == if (req_id % 65536) as u16 == 0 { 1u16 } else { (req_id % 65536) as u16 },
{
    let low = (req_id % 65536) as u16;
    if low == 0 { 1 } else { low }
}

/// Where the screen goes once a calibration is saved.
#[derive(Clone, Copy, Debug, PartialEq, Eq, Structural)]
pub enum CalibrationDone {
    /// Back to PIN entry, the device being locked.
    BeginUnlock,
    /// The unlocked screen, with a "Calibration saved" note.
    UnlockedSaved,
}

/// Saves the calibration just taken on the device; an empty raw range is
/// refused.
pub fn finish_touch_calibration(nvs: &mut NvsStore, calibration: TouchCalibration, locked: bool) -> (r: (
    Response,
    Option<CalibrationDone>,
))
    requires
        old(nvs).wf(),
    ensures
        final(nvs).wf(),
        !crate::gui::touch::calibration_valid(calibration) ==> crate::protocol::is_err(r.0, ErrCode::BadCobsOrPostcard)
            && r.1 is None && final(nvs)@ == old(nvs)@,
        crate::gui::touch::calibration_valid(calibration) ==> (r.0 matches Response::OkTouchCalibration(c) && c == calibration)
            && r.1 == Some(if locked { CalibrationDone::BeginUnlock } else { CalibrationDone::UnlockedSaved })
            && crate::nvs_store::prefs::stored_calibration(final(nvs)@) == Some(calibration),
{
    match set_touch_calibration(nvs, &calibration) {
        Response::Done => {
            let next = if locked { CalibrationDone::BeginUnlock } else { CalibrationDone::UnlockedSaved };
            (Response::OkTouchCalibration(calibration), Some(next))
        },
        other => (other, None),
    }
}

/// `value` cut to `cap` bytes, as a fixed-capacity build string holds it.
pub fn build_string(value: &[u8], cap: usize) -> (r: Vec<u8>)
    requires
        value@.len() > cap ==> crate::gui::label::is_char_boundary(value@, cap as int),
    ensures
        r@ == if value@.len() <= cap { value@ } else { value@.take(cap as int) },
{
    let take: usize = if value.len() < cap { value.len() } else { cap };
    let r = crate::bytes::copy_range(value, 0, take);
    assert(r@ =~= if value@.len() <= cap { value@ } else { value@.take(cap as int) });
    r
}

/// Capacity of the diagnostics build line.
pub const BUILD_LABEL_CAP: usize = 64;

/// Text written piece by piece into a buffer of `cap` bytes: each piece
/// goes in whole if it fits, and the first that does not fit ends the
/// write.
pub open spec fn write_pieces(acc: Seq<u8>, pieces: Seq<Seq<u8>>, cap: nat) -> Seq<u8>
    decreases pieces.len(),
{
    if pieces.len() == 0 {
        acc
    } else if acc.len() + pieces[0].len() <= cap {
        write_pieces(acc + pieces[0], pieces.skip(1), cap)
    } else {
        acc
    }
}

fn append_fit(out: &mut Vec<u8>, piece: &[u8], cap: usize) -> (fit: bool)
    ensures
        fit == (old(out)@.len() + piece@.len() <= cap),
        final(out)@ == if fit { old(out)@ + piece@ } else { old(out)@ },
{
    if piece.len() > cap || out.len() > cap - piece.len() {
        return false;
    }
    crate::gui::render::append(out, piece);
    true
}

/// The build line on the touch diagnostics screen: profile and commit, a
/// dirty mark, and the touch bus speed, each write cut at the line's
/// capacity.
pub fn diagnostics_build_label(profile: &[u8], commit: &[u8], dirty: bool, i2c_khz: u32) -> (r: Vec<u8>)
    ensures
        r@ == ({
            let first = write_pieces(Seq::empty(), seq![seq![102u8, 119u8, 32u8], profile@, seq![32u8], commit@], BUILD_LABEL_CAP as nat);
            let second = if dirty { write_pieces(first, seq![seq![32u8, 100u8, 105u8, 114u8, 116u8, 121u8]], BUILD_LABEL_CAP as nat) } else { first };
            write_pieces(
                second,
                seq![seq![32u8, 105u8, 50u8, 99u8], crate::gui::render::dec_digits(i2c_khz as nat), seq![107u8]],
                BUILD_LABEL_CAP as nat,
            )
        }),
{
    let cap = BUILD_LABEL_CAP;
    let mut out: Vec<u8> = Vec::new();
    let fw: [u8; 3] = [102, 119, 32];
    let sp: [u8; 1] = [32];
    let ghost p1 = seq![fw@, profile@, sp@, commit@];
    assert(fw@ =~= seq![102u8, 119u8, 32u8]);
    assert(sp@ =~= seq![32u8]);
    if append_fit(&mut out, fw.as_slice(), cap) {
        if append_fit(&mut out, profile, cap) {
            if append_fit(&mut out, sp.as_slice(), cap) {
                append_fit(&mut out, commit, cap);
            }
        }
    }
    proof {
        reveal_with_fuel(write_pieces, 5);
        assert(p1.skip(1) =~= seq![profile@, sp@, commit@]);
        assert(p1.skip(1).skip(1) =~= seq![sp@, commit@]);
        assert(p1.skip(1).skip(1).skip(1) =~= seq![commit@]);
        assert(p1.skip(1).skip(1).skip(1).skip(1) =~= Seq::<Seq<u8>>::empty());
        assert(out@ == write_pieces(Seq::empty(), p1, cap as nat));
    }
    let ghost first = out@;
    if dirty {
        let d: [u8; 6] = [32, 100, 105, 114, 116, 121];
        assert(d@ =~= seq![32u8, 100u8, 105u8, 114u8, 116u8, 121u8]);
        append_fit(&mut out, d.as_slice(), cap);
        proof {
            reveal_with_fuel(write_pieces, 2);
            assert(seq![d@].skip(1) =~= Seq::<Seq<u8>>::empty());
        }
    }
    let ghost second = out@;
    let i2c: [u8; 4] = [32, 105, 50, 99];
    let k: [u8; 1] = [107];
    assert(i2c@ =~= seq![32u8, 105u8, 50u8, 99u8]);
    assert(k@ =~= seq![107u8]);
    let mut digits: Vec<u8> = Vec::new();
    crate::gui::render::push_decimal(&mut digits, i2c_khz as u64);
    assert(digits@ =~= crate::gui::render::dec_digits(i2c_khz as nat));
    let ghost p3 = seq![i2c@, digits@, k@];
    if append_fit(&mut out, i2c.as_slice(), cap) {
        if append_fit(&mut out, digits.as_slice(), cap) {
            append_fit(&mut out, k.as_slice(), cap);
        }
    }
    proof {
        reveal_with_fuel(write_pieces, 4);
        assert(p3.skip(1) =~= seq![digits@, k@]);
        assert(p3.skip(1).skip(1) =~= seq![k@]);
        assert(p3.skip(1).skip(1).skip(1) =~= Seq::<Seq<u8>>::empty());
    }
    out
}

/// Which handler a single request goes to.
#[derive(Clone, Copy, Debug, PartialEq, Eq, Structural)]
pub enum RequestRoute {
    /// Hello, info, ping, lock, security and build status.
    Metadata,
    Reboot,
    /// Setting, wiping, locking or selecting the session's seed.
    Session,
    /// Keys, signatures and health.
    Signing,
    /// Release information and the firmware update stream.
    Update,
    /// Touch calibration and diagnostics.
    Touch,
    SeedLabels,
    /// The vault and the master public key.
    Vault,
    /// Refused as unsupported: PIN, seed-store and reset requests are only
    /// made on the device, and the address book only travels in fragments.
    Refused,
}

/// The handler each single request goes to.
pub open spec fn request_route(k: RequestKind) -> RequestRoute {
    match k {
        RequestKind::Hello | RequestKind::GetInfo | RequestKind::Ping | RequestKind::GetLockStatus
        | RequestKind::GetSecurityStatus | RequestKind::GetBuildInfo => RequestRoute::Metadata,
        RequestKind::Reboot => RequestRoute::Reboot,
        RequestKind::SetSeed | RequestKind::Wipe | RequestKind::Lock | RequestKind::SelectSeed => RequestRoute::Session,
        RequestKind::GetFingerprint | RequestKind::GetPubkey | RequestKind::SignDigest | RequestKind::GetXpub
        | RequestKind::GetCheetahPub | RequestKind::SignSpendHash | RequestKind::SignSpendHashFor
        | RequestKind::Health => RequestRoute::Signing,
        RequestKind::InitializePin | RequestKind::AddSeed | RequestKind::DeleteSeed | RequestKind::Unlock
        | RequestKind::ResetPin | RequestKind::ChangePinOnDevice | RequestKind::StartTouchCalibration
        | RequestKind::Reset | RequestKind::GetAddressBook => RequestRoute::Refused,
        RequestKind::GetReleaseInfo | RequestKind::GetUpdateBootStatus | RequestKind::GetUpdateTrust
        | RequestKind::VerifyUpdateManifest | RequestKind::BeginUpdate | RequestKind::UpdateChunk
        | RequestKind::FinishUpdate | RequestKind::CancelUpdate | RequestKind::GetUpdateStatus => RequestRoute::Update,
        RequestKind::GetTouchCalibration | RequestKind::SetTouchCalibration
        | RequestKind::ShowTouchDiagnostics => RequestRoute::Touch,
        RequestKind::GetSeedLabels | RequestKind::SetSeedLabel => RequestRoute::SeedLabels,
        RequestKind::VaultList | RequestKind::VaultStore | RequestKind::VaultReveal | RequestKind::VaultDelete
        | RequestKind::GetMasterPubkey => RequestRoute::Vault,
    }
}

pub fn route_request(k: RequestKind) -> (r: RequestRoute)
    ensures
        r == request_route(k),
{
    match k {
        RequestKind::Hello | RequestKind::GetInfo | RequestKind::Ping | RequestKind::GetLockStatus
        | RequestKind::GetSecurityStatus | RequestKind::GetBuildInfo => RequestRoute::Metadata,
        RequestKind::Reboot => RequestRoute::Reboot,
        RequestKind::SetSeed | RequestKind::Wipe | RequestKind::Lock | RequestKind::SelectSeed => RequestRoute::Session,
        RequestKind::GetFingerprint | RequestKind::GetPubkey | RequestKind::SignDigest | RequestKind::GetXpub
        | RequestKind::GetCheetahPub | RequestKind::SignSpendHash | RequestKind::SignSpendHashFor
        | RequestKind::Health => RequestRoute::Signing,
        RequestKind::InitializePin | RequestKind::AddSeed | RequestKind::DeleteSeed | RequestKind::Unlock
        | RequestKind::ResetPin | RequestKind::ChangePinOnDevice | RequestKind::StartTouchCalibration
        | RequestKind::Reset | RequestKind::GetAddressBook => RequestRoute::Refused,
        RequestKind::GetReleaseInfo | RequestKind::GetUpdateBootStatus | RequestKind::GetUpdateTrust
        | RequestKind::VerifyUpdateManifest | RequestKind::BeginUpdate | RequestKind::UpdateChunk
        | RequestKind::FinishUpdate | RequestKind::CancelUpdate | RequestKind::GetUpdateStatus => RequestRoute::Update,
        RequestKind::GetTouchCalibration | RequestKind::SetTouchCalibration
        | RequestKind::ShowTouchDiagnostics => RequestRoute::Touch,
        RequestKind::GetSeedLabels | RequestKind::SetSeedLabel => RequestRoute::SeedLabels,
        RequestKind::VaultList | RequestKind::VaultStore | RequestKind::VaultReveal | RequestKind::VaultDelete
        | RequestKind::GetMasterPubkey => RequestRoute::Vault,
    }
}

/// The reply a single request gets before any handler runs: requests made
/// only on the device (PIN, seed store, reset) and the address book outside
/// fragments are refused as unsupported; the rest go on to their handler.
pub fn refuse_direct_request(k: RequestKind) -> (r: Option<Response>)
    ensures
        request_route(k) == RequestRoute::Refused <==> r is Some,
        r is Some ==> r == Some(Response::Error { code: ErrCode::UnsupportedVersion }),
{
    match route_request(k) {
        RequestRoute::Refused => Some(Response::Error { code: ErrCode::UnsupportedVersion }),
        _ => None,
    }
}

/// A vault request, by what its checks need.
#[derive(Clone, Copy, Debug, PartialEq, Eq, Structural)]
pub enum VaultOp {
    List,
    /// Storing a preimage of this many bytes.
    Store { preimage_len: usize },
    Reveal,
    Delete,
    MasterPubkey,
}

/// The refusal a vault request meets before the store is touched, if any:
/// every one needs the device unlocked, and a stored preimage must be
/// neither empty nor longer than `max_preimage_len`.
pub open spec fn vault_refusal(op: VaultOp, locked: bool, max_preimage_len: usize) -> Option<Response> {
    if locked {
        Some(Response::Error { code: ErrCode::DeviceLocked })
    } else {
        match op {
            VaultOp::Store { preimage_len } => if preimage_len == 0 || preimage_len > max_preimage_len {
                Some(Response::Error { code: ErrCode::Overflow })
            } else {
                None
            },
            _ => None,
        }
    }
}

pub fn vault_gate(op: VaultOp, locked: bool, max_preimage_len: usize) -> (r: Option<Response>)
    ensures
        r == vault_refusal(op, locked, max_preimage_len),
{
    if locked {
        return Some(Response::Error { code: ErrCode::DeviceLocked });
    }
    match op {
        VaultOp::Store { preimage_len } => if preimage_len == 0 || preimage_len > max_preimage_len {
            Some(Response::Error { code: ErrCode::Overflow })
        } else {
            None
        },
        _ => None,
    }
}

/// A request held until the user answers its prompt; `slot` is the slot a
/// seed deletion names.
#[derive(Clone, Copy, Debug, PartialEq, Eq, Structural)]
pub struct PendingConfirmation {
    pub msg_id: u32,
    pub kind: FrameKind,
    pub slot: u8,
}

/// What follows the user's answer to a held request.
pub enum ConfirmAction {
    /// Answer now with this reply.
    Reply { msg_id: u32, response: Response },
    /// Delete the seed in `slot` under the session's master key.
    DeleteSeed { msg_id: u32, slot: u8 },
    /// Erase the store and the session.
    FactoryReset { msg_id: u32 },
    /// Hand the signing request to the signing worker.
    DirectSign { msg_id: u32 },
    /// Handle the request as if it had just arrived.
    Handle { msg_id: u32 },
}

/// Hold `p` for the user's answer; only one request waits at a time, so a
/// second is answered busy and the first kept.
pub fn hold_for_confirmation(pending: &mut Option<PendingConfirmation>, p: PendingConfirmation) -> (r: Result<(), ErrCode>)
    ensures
        (*old(pending)) is Some ==> r == Err::<(), ErrCode>(ErrCode::Busy) && *final(pending) == *old(pending),
        (*old(pending)) is None ==> r is Ok && *final(pending) == Some(p),
{
    if pending.is_some() {
        return Err(ErrCode::Busy);
    }
    *pending = Some(p);
    Ok(())
}

/// What follows an answer to `p`: a refusal is answered "rejected by user";
/// an approved seed deletion needs the master key (else the device counts
/// as locked), a factory reset erases everything, a signing request goes to
/// the signing worker, and any other request is handled then.
pub open spec fn confirm_action(p: PendingConfirmation, approved: bool, has_master_key: bool) -> ConfirmAction {
    if !approved {
        ConfirmAction::Reply { msg_id: p.msg_id, response: Response::Error { code: ErrCode::RejectedByUser } }
    } else if p.kind == FrameKind::One(RequestKind::DeleteSeed) {
        if has_master_key {
            ConfirmAction::DeleteSeed { msg_id: p.msg_id, slot: p.slot }
        } else {
            ConfirmAction::Reply { msg_id: p.msg_id, response: Response::Error { code: ErrCode::DeviceLocked } }
        }
    } else if p.kind == FrameKind::One(RequestKind::Reset) {
        ConfirmAction::FactoryReset { msg_id: p.msg_id }
    } else if direct_sign(p.kind) {
        ConfirmAction::DirectSign { msg_id: p.msg_id }
    } else {
        ConfirmAction::Handle { msg_id: p.msg_id }
    }
}

/// Take the held request, if any, and say what the user's answer leads to.
pub fn answer_confirmation(pending: &mut Option<PendingConfirmation>, approved: bool, has_master_key: bool) -> (r: Option<
    ConfirmAction,
>)
    ensures
        *final(pending) == None::<PendingConfirmation>,
        match *old(pending) {
            None => r is None,
            Some(p) => r == Some(confirm_action(p, approved, has_master_key)),
        },
{
    let p = match pending.take() {
        Some(p) => p,
        None => return None,
    };
    let msg_id = p.msg_id;
    if !approved {
        return Some(ConfirmAction::Reply { msg_id, response: Response::Error { code: ErrCode::RejectedByUser } });
    }
    match p.kind {
        FrameKind::One(RequestKind::DeleteSeed) => if has_master_key {
            Some(ConfirmAction::DeleteSeed { msg_id, slot: p.slot })
        } else {
            Some(ConfirmAction::Reply { msg_id, response: Response::Error { code: ErrCode::DeviceLocked } })
        },
        FrameKind::One(RequestKind::Reset) => Some(ConfirmAction::FactoryReset { msg_id }),
        _ => if is_direct_sign_frame(p.kind) {
            Some(ConfirmAction::DirectSign { msg_id })
        } else {
            Some(ConfirmAction::Handle { msg_id })
        },
    }
}

} // verus!
