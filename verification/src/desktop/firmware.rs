//! Firmware flashing runs of the desktop bridge: device identities in
//! hexadecimal, the registry of the running and the interrupted runs, and
//! the decisions of a run (`FlashRun`), taken one outside result at a time.

use vstd::prelude::*;

use crate::sim::support::{hex_bytes, lower_hex};
use crate::wire::str_bytes;

verus! {

/// The 16 bytes of an operation's UUID.
pub type OperationId = [u8; 16];

/// Whether an operation id is the nil UUID (all zero).
pub open spec fn is_nil(id: OperationId) -> bool {
    forall|i: int| 0 <= i < 16 ==> #[trigger] id@[i] == 0
}

/// Whether an operation id is the nil UUID; see `is_nil`.
pub fn operation_is_nil(id: &OperationId) -> (b: bool)
    ensures
        b == is_nil(*id),
{
    let mut i: usize = 0;
    while i < 16
        invariant
            i <= 16,
            forall|k: int| 0 <= k < i ==> #[trigger] id@[k] == 0,
        decreases 16 - i,
    {
        if id[i] != 0 {
            return false;
        }
        i = i + 1;
    }
    true
}

/// Equal views make equal ids.
proof fn lemma_ids_equal(a: OperationId, b: OperationId)
    requires
        a@ == b@,
    ensures
        a == b,
{
    assert forall|i: int| 0 <= i < 16 implies a[i] == b[i] by {
        vstd::array::lemma_array_index(a, i);
        vstd::array::lemma_array_index(b, i);
    }
    assert(a =~= b);
}

/// Whether two operation ids are the same.
pub fn same_operation(a: &OperationId, b: &OperationId) -> (r: bool)
    ensures
        r == (*a == *b),
{
    let r = crate::bytes::bytes_equal(a.as_slice(), b.as_slice());
    proof {
        if r {
            lemma_ids_equal(*a, *b);
        }
    }
    r
}

/// The phases a flashing run reports.
#[derive(Clone, Copy, Debug, PartialEq, Eq, Structural)]
pub enum FirmwareFlashPhase {
    Preparing,
    SwitchingTransport,
    Unlocking,
    Erasing,
    Programming,
    Verifying,
    Restarting,
    Reconnecting,
    Succeeded,
    RecoveryRequired,
    Retrying,
    RollingBack,
}

/// A flashing failure: a stable code, a message for the user and, when
/// known, the run it belongs to.
#[derive(Clone, Debug)]
pub struct FirmwareFlashErrorDto {
    pub code: String,
    pub message: String,
    pub operation_id: Option<OperationId>,
}

/// A `FirmwareFlashErrorDto` with its texts as characters.
pub struct FlashErrorView {
    pub code: Seq<char>,
    pub message: Seq<char>,
    pub operation_id: Option<OperationId>,
}

impl View for FirmwareFlashErrorDto {
    type V = FlashErrorView;

    open spec fn view(&self) -> FlashErrorView {
        FlashErrorView { code: self.code@, message: self.message@, operation_id: self.operation_id }
    }
}

/// The error with `code` and `message`, of run `operation_id` if any.
pub open spec fn flash_error_view(code: Seq<char>, message: Seq<char>, operation_id: Option<OperationId>) -> FlashErrorView {
    FlashErrorView { code, message, operation_id }
}

impl FirmwareFlashErrorDto {
    /// An error of no particular run.
    pub fn new(code: &str, message: &str) -> (e: FirmwareFlashErrorDto)
        ensures
            e@ == flash_error_view(code@, message@, None),
    {
        FirmwareFlashErrorDto { code: code.to_owned(), message: message.to_owned(), operation_id: None }
    }

    /// The same error, of run `operation_id`.
    pub fn with_operation(self, operation_id: OperationId) -> (e: FirmwareFlashErrorDto)
        ensures
            e@ == flash_error_view(self@.code, self@.message, Some(operation_id)),
    {
        FirmwareFlashErrorDto { operation_id: Some(operation_id), ..self }
    }
}

/// The error with `code` and `message` of run `operation_id`.
pub fn firmware_error(code: &str, message: &str, operation_id: OperationId) -> (e: FirmwareFlashErrorDto)
    ensures
        e@ == flash_error_view(code@, message@, Some(operation_id)),
{
    FirmwareFlashErrorDto { code: code.to_owned(), message: message.to_owned(), operation_id: Some(operation_id) }
}

/// A progress report of a run.
#[derive(Clone, Debug)]
pub struct FirmwareFlashEvent {
    pub operation_id: OperationId,
    pub phase: FirmwareFlashPhase,
    pub progress_percent: u8,
    pub message: String,
}

/// A `FirmwareFlashEvent` with its message as characters.
pub struct FlashEventView {
    pub operation_id: OperationId,
    pub phase: FirmwareFlashPhase,
    pub progress_percent: u8,
    pub message: Seq<char>,
}

impl View for FirmwareFlashEvent {
    type V = FlashEventView;

    open spec fn view(&self) -> FlashEventView {
        FlashEventView {
            operation_id: self.operation_id,
            phase: self.phase,
            progress_percent: self.progress_percent,
            message: self.message@,
        }
    }
}

/// A progress report.
pub fn event(operation_id: OperationId, phase: FirmwareFlashPhase, progress_percent: u8, message: &str) -> (e:
    FirmwareFlashEvent)
    ensures
        e@ == (FlashEventView { operation_id, phase, progress_percent, message: message@ }),
{
    FirmwareFlashEvent { operation_id, phase, progress_percent, message: message.to_owned() }
}

/// The outcome of a finished run: the device (in lowercase hexadecimal),
/// the firmware it now runs, and whether that is the recovery copy.
#[derive(Clone, Debug)]
pub struct FirmwareFlashResult {
    pub operation_id: OperationId,
    pub device_id_hex: String,
    pub firmware_version: [u16; 3],
    pub rolled_back: bool,
}

/// A `FirmwareFlashResult` with the identity as UTF-8 bytes.
pub struct FlashResultView {
    pub operation_id: OperationId,
    pub device_id_hex: Seq<u8>,
    pub firmware_version: [u16; 3],
    pub rolled_back: bool,
}

impl View for FirmwareFlashResult {
    type V = FlashResultView;

    open spec fn view(&self) -> FlashResultView {
        FlashResultView {
            operation_id: self.operation_id,
            device_id_hex: str_bytes(self.device_id_hex),
            firmware_version: self.firmware_version,
            rolled_back: self.rolled_back,
        }
    }
}

/// The value of a lowercase hexadecimal digit; other bytes have none.
pub open spec fn nibble_of(b: u8) -> Option<u8> {
    if 0x30 <= b <= 0x39 {
        Some((b - 0x30) as u8)
    } else if 0x61 <= b <= 0x66 {
        Some((b - 0x61 + 10) as u8)
    } else {
        None
    }
}

/// The value of a lowercase hexadecimal digit; see `nibble_of`.
pub fn hex_nibble(byte: u8) -> (r: Option<u8>)
    ensures
        r == nibble_of(byte),
{
    if 0x30 <= byte && byte <= 0x39 {
        Some(byte - 0x30)
    } else if 0x61 <= byte && byte <= 0x66 {
        Some(byte - 0x61 + 10)
    } else {
        None
    }
}

/// Whether `text` is exactly 32 lowercase hexadecimal digits.
pub open spec fn is_device_id_hex(text: Seq<u8>) -> bool {
    text.len() == 32 && forall|i: int| 0 <= i < 32 ==> (#[trigger] nibble_of(text[i])) is Some
}

/// The device id written by 32 lowercase hexadecimal digits, two per byte,
/// high digit first.
pub open spec fn device_id_of(text: Seq<u8>) -> Seq<u8> {
    Seq::new(
        16,
        |i: int| (nibble_of(text[2 * i])->Some_0 * 16 + nibble_of(text[2 * i + 1])->Some_0) as u8,
    )
}

/// The device id a text names: `None` unless it is 32 lowercase
/// hexadecimal digits; see `device_id_of`.
pub fn parse_device_id(value: &str) -> (r: Option<[u8; 16]>)
    ensures
        match r {
            Some(id) => is_device_id_hex(str_bytes_of(value)) && id@ == device_id_of(str_bytes_of(value)),
            None => !is_device_id_hex(str_bytes_of(value)),
        },
{
    let bytes = value.as_bytes();
    if bytes.len() != 32 {
        return None;
    }
    let mut output: [u8; 16] = [0u8; 16];
    let mut index: usize = 0;
    while index < 16
        invariant
            index <= 16,
            bytes@ == str_bytes_of(value),
            bytes@.len() == 32,
            forall|k: int| 0 <= k < 2 * index ==> (#[trigger] nibble_of(bytes@[k])) is Some,
            forall|k: int| 0 <= k < index ==> #[trigger] output@[k] == device_id_of(bytes@)[k],
        decreases 16 - index,
    {
        let high = match hex_nibble(bytes[2 * index]) {
            Some(n) => n,
            None => {
                return None;
            },
        };
        let low = match hex_nibble(bytes[2 * index + 1]) {
            Some(n) => n,
            None => {
                return None;
            },
        };
        output.set(index, high * 16 + low);
        index = index + 1;
    }
    proof {
        assert(output@ =~= device_id_of(bytes@));
    }
    Some(output)
}

/// The UTF-8 bytes of a string slice.
pub open spec fn str_bytes_of(s: &str) -> Seq<u8> {
    vstd::utf8::encode_utf8(s@)
}

/// Bytes in lowercase hexadecimal, two digits each; see `hex_bytes`.
pub fn encode_hex(bytes: &[u8]) -> (s: String)
    requires
        bytes@.len() <= usize::MAX / 2,
    ensures
        str_bytes(s) == hex_bytes(bytes@),
{
    lower_hex(bytes)
}

/// What a verified firmware package offers to the user: its release, the
/// board it is for, its version and the digests of image and package in
/// lowercase hexadecimal, and the key that signed it.
#[derive(Clone, Debug)]
pub struct FirmwarePackageSummary {
    pub release_id: [u8; 16],
    pub target: &'static str,
    pub mcu: &'static str,
    pub firmware_version: [u16; 3],
    pub image_length: u32,
    pub image_sha256: String,
    pub package_sha256: String,
    pub signing_key_id: String,
}

impl FirmwarePackageSummary {
    /// The summary of a package whose manifest gives `release_id`,
    /// `firmware_version`, `image_length`, `image_sha256` and
    /// `signing_key_id`, and whose own digest is `package_sha256`. Packages
    /// are built for one board, named here.
    pub fn from_manifest(
        release_id: [u8; 16],
        firmware_version: [u16; 3],
        image_length: u32,
        image_sha256: &[u8; 32],
        package_sha256: &[u8; 32],
        signing_key_id: String,
    ) -> (s: FirmwarePackageSummary)
        ensures
            s.release_id == release_id,
            s.target@ == "lckfb-tmx-mspm0g3507"@,
            s.mcu@ == "MSPM0G3507"@,
            s.firmware_version == firmware_version,
            s.image_length == image_length,
            str_bytes(s.image_sha256) == hex_bytes(image_sha256@),
            str_bytes(s.package_sha256) == hex_bytes(package_sha256@),
            s.signing_key_id@ == signing_key_id@,
    {
        FirmwarePackageSummary {
            release_id,
            target: "lckfb-tmx-mspm0g3507",
            mcu: "MSPM0G3507",
            firmware_version,
            image_length,
            image_sha256: encode_hex(image_sha256.as_slice()),
            package_sha256: encode_hex(package_sha256.as_slice()),
            signing_key_id,
        }
    }
}

/// The run in progress: its id, whether a cancel was asked for, and
/// whether the device was already asked to stop for flashing.
#[derive(Clone, Copy, Debug)]
pub struct ActiveOperation {
    pub operation_id: OperationId,
    pub cancel_requested: bool,
    pub prepare_started: bool,
}

/// The running flashing run, if any, and the interrupted runs kept for a
/// retry or a rollback, each with what resuming it needs (`R`).
pub struct FlashRegistry<R> {
    active: Option<ActiveOperation>,
    recovery: Vec<(OperationId, R)>,
}

/// No two kept runs share an id.
pub open spec fn ids_distinct<R>(s: Seq<(OperationId, R)>) -> bool {
    forall|i: int, j: int| 0 <= i < j < s.len() ==> (#[trigger] s[i]).0 != (#[trigger] s[j]).0
}

/// What is kept for run `id`, looking from the newest entry back.
pub open spec fn kept_find<R>(s: Seq<(OperationId, R)>, id: OperationId) -> Option<R>
    decreases s.len(),
{
    if s.len() == 0 {
        None
    } else if s.last().0 == id {
        Some(s.last().1)
    } else {
        kept_find(s.drop_last(), id)
    }
}

proof fn lemma_kept_find_absent<R>(s: Seq<(OperationId, R)>, id: OperationId)
    requires
        forall|k: int| 0 <= k < s.len() ==> (#[trigger] s[k]).0 != id,
    ensures
        kept_find(s, id) is None,
    decreases s.len(),
{
    if s.len() > 0 {
        lemma_kept_find_absent(s.drop_last(), id);
    }
}

proof fn lemma_kept_find_at<R>(s: Seq<(OperationId, R)>, i: int)
    requires
        ids_distinct(s),
        0 <= i < s.len(),
    ensures
        kept_find(s, s[i].0) == Some(s[i].1),
    decreases s.len(),
{
    if i < s.len() - 1 {
        assert(s[i].0 != s[s.len() - 1].0);
        lemma_kept_find_at(s.drop_last(), i);
    }
}

proof fn lemma_kept_find_remove<R>(s: Seq<(OperationId, R)>, i: int, k: OperationId)
    requires
        ids_distinct(s),
        0 <= i < s.len(),
    ensures
        ids_distinct(s.remove(i)),
        kept_find(s.remove(i), k) == if k == s[i].0 {
            None
        } else {
            kept_find(s, k)
        },
    decreases s.len(),
{
    let t = s.remove(i);
    assert forall|a: int, b: int| 0 <= a < b < t.len() implies (#[trigger] t[a]).0 != (#[trigger] t[b]).0 by {
        let a2 = if a < i { a } else { a + 1 };
        let b2 = if b < i { b } else { b + 1 };
        assert(t[a] == s[a2] && t[b] == s[b2]);
    }
    if k == s[i].0 {
        assert forall|m: int| 0 <= m < t.len() implies (#[trigger] t[m]).0 != k by {
            let m2 = if m < i { m } else { m + 1 };
            assert(t[m] == s[m2]);
        }
        lemma_kept_find_absent(t, k);
    } else if i == s.len() - 1 {
        assert(t =~= s.drop_last());
    } else {
        assert(t.drop_last() =~= s.drop_last().remove(i));
        assert(t.last() == s.last());
        lemma_kept_find_remove(s.drop_last(), i, k);
    }
}

impl<R> FlashRegistry<R> {
    /// No kept run appears twice.
    pub closed spec fn wf(&self) -> bool {
        ids_distinct(self.recovery@)
    }

    /// The run in progress, if any.
    pub closed spec fn running(&self) -> Option<ActiveOperation> {
        self.active
    }

    /// What is kept for run `id`, if anything.
    pub closed spec fn kept(&self, id: OperationId) -> Option<R> {
        kept_find(self.recovery@, id)
    }

    /// Nothing running, nothing kept.
    pub fn new() -> (r: FlashRegistry<R>)
        ensures
            r.wf(),
            r.running() is None,
            forall|id: OperationId| r.kept(id) is None,
    {
        FlashRegistry { active: None, recovery: Vec::new() }
    }

    fn position(&self, operation_id: &OperationId) -> (r: Option<usize>)
        requires
            self.wf(),
        ensures
            match r {
                Some(i) => i < self.recovery@.len() && self.recovery@[i as int].0 == *operation_id,
                None => self.kept(*operation_id) is None && forall|k: int|
                    0 <= k < self.recovery@.len() ==> (#[trigger] self.recovery@[k]).0 != *operation_id,
            },
    {
        let mut i: usize = 0;
        while i < self.recovery.len()
            invariant
                i <= self.recovery@.len(),
                forall|k: int| 0 <= k < i ==> (#[trigger] self.recovery@[k]).0 != *operation_id,
            decreases self.recovery@.len() - i,
        {
            if same_operation(&self.recovery[i].0, operation_id) {
                return Some(i);
            }
            i = i + 1;
        }
        proof {
            lemma_kept_find_absent(self.recovery@, *operation_id);
        }
        None
    }

    /// Whether run `operation_id` is kept for recovery.
    pub fn has_recovery(&self, operation_id: &OperationId) -> (b: bool)
        requires
            self.wf(),
        ensures
            b == self.kept(*operation_id) is Some,
    {
        match self.position(operation_id) {
            Some(i) => {
                proof {
                    lemma_kept_find_at(self.recovery@, i as int);
                }
                true
            },
            None => false,
        }
    }

    /// Takes what is kept for run `operation_id`, which is then no longer
    /// kept; other runs stay as they were.
    pub fn take_recovery(&mut self, operation_id: &OperationId) -> (r: Option<R>)
        requires
            old(self).wf(),
        ensures
            final(self).wf(),
            final(self).running() == old(self).running(),
            r == old(self).kept(*operation_id),
            final(self).kept(*operation_id) is None,
            forall|id: OperationId| id != *operation_id ==> #[trigger] final(self).kept(id) == old(self).kept(id),
    {
        match self.position(operation_id) {
            Some(i) => {
                let ghost s = self.recovery@;
                proof {
                    lemma_kept_find_at(s, i as int);
                }
                let (_, resume) = self.recovery.remove(i);
                proof {
                    assert(self.recovery@ =~= s.remove(i as int));
                    lemma_kept_find_remove(s, i as int, *operation_id);
                    assert forall|id: OperationId| id != *operation_id implies #[trigger] kept_find(
                        self.recovery@,
                        id,
                    ) == kept_find(s, id) by {
                        lemma_kept_find_remove(s, i as int, id);
                    }
                }
                Some(resume)
            },
            None => None,
        }
    }

    /// Keeps run `operation_id` for recovery with `resume`, replacing what
    /// was kept for it; other runs stay as they were.
    pub fn insert_recovery(&mut self, operation_id: OperationId, resume: R)
        requires
            old(self).wf(),
        ensures
            final(self).wf(),
            final(self).running() == old(self).running(),
            final(self).kept(operation_id) == Some(resume),
            forall|id: OperationId| id != operation_id ==> #[trigger] final(self).kept(id) == old(self).kept(id),
    {
        let _ = self.take_recovery(&operation_id);
        let ghost before = self.recovery@;
        let ghost mid = *self;
        proof {
            assert forall|k: int| 0 <= k < before.len() implies (#[trigger] before[k]).0 != operation_id by {
                if before[k].0 == operation_id {
                    lemma_kept_find_at(before, k);
                }
            }
        }
        self.recovery.push((operation_id, resume));
        proof {
            let s = self.recovery@;
            assert(s.drop_last() =~= before);
            assert forall|id: OperationId| id != operation_id implies #[trigger] kept_find(s, id) == kept_find(
                before,
                id,
            ) by {
                assert(s.drop_last() =~= before);
                assert(mid.kept(id) == kept_find(before, id));
            }
            assert forall|a: int, b: int| 0 <= a < b < s.len() implies (#[trigger] s[a]).0 != (#[trigger] s[b]).0 by {
                if b == s.len() - 1 {
                    assert(s[a] == before[a]);
                } else {
                    assert(s[a] == before[a] && s[b] == before[b]);
                }
            }
            assert forall|id: OperationId| id != operation_id implies #[trigger] self.kept(id) == old(self).kept(
                id,
            ) by {
                assert(mid.kept(id) == old(self).kept(id));
                assert(self.kept(id) == kept_find(s, id));
            }
        }
    }

    /// Starts run `operation_id`; refused while another run is in progress
    /// (`firmwareUpgradeActive`, nothing changes).
    pub fn begin(&mut self, operation_id: OperationId) -> (r: Result<(), FirmwareFlashErrorDto>)
        requires
            old(self).wf(),
        ensures
            final(self).wf(),
            forall|id: OperationId| #[trigger] final(self).kept(id) == old(self).kept(id),
            match old(self).running() {
                Some(_) => (r matches Err(e) && e@ == flash_error_view(
                    "firmwareUpgradeActive"@,
                    "已有固件升级正在进行"@,
                    Some(operation_id),
                )) && final(self).running() == old(self).running(),
                None => r is Ok && final(self).running() == Some(
                    ActiveOperation { operation_id, cancel_requested: false, prepare_started: false },
                ),
            },
    {
        if self.active.is_some() {
            return Err(firmware_error("firmwareUpgradeActive", "已有固件升级正在进行", operation_id));
        }
        self.active = Some(ActiveOperation { operation_id, cancel_requested: false, prepare_started: false });
        Ok(())
    }

    /// Asks run `operation_id` to stop. The running run stops before the
    /// device is asked to prepare, not after
    /// (`firmwareCancellationUnavailable`); a kept run cannot be cancelled
    /// (`firmwareCancellationUnavailable`); any other id is unknown
    /// (`firmwareOperationNotFound`).
    pub fn cancel(&mut self, operation_id: OperationId) -> (r: Result<(), FirmwareFlashErrorDto>)
        requires
            old(self).wf(),
        ensures
            final(self).wf(),
            forall|id: OperationId| #[trigger] final(self).kept(id) == old(self).kept(id),
            match old(self).running() {
                Some(a) if a.operation_id == operation_id => if a.prepare_started {
                    (r matches Err(e) && e@ == flash_error_view(
                        "firmwareCancellationUnavailable"@,
                        "设备安全切换已开始，不能再取消固件升级"@,
                        Some(operation_id),
                    )) && final(self).running() == old(self).running()
                } else {
                    r is Ok && final(self).running() == Some(ActiveOperation { cancel_requested: true, ..a })
                },
                _ => final(self).running() == old(self).running() && if old(self).kept(operation_id) is Some {
                    r matches Err(e) && e@ == flash_error_view(
                        "firmwareCancellationUnavailable"@,
                        "设备处于恢复模式，不能取消固件升级"@,
                        Some(operation_id),
                    )
                } else {
                    r matches Err(e) && e@ == flash_error_view(
                        "firmwareOperationNotFound"@,
                        "固件升级操作不存在"@,
                        Some(operation_id),
                    )
                },
            },
    {
        if let Some(a) = self.active {
            if same_operation(&a.operation_id, &operation_id) {
                if a.prepare_started {
                    return Err(
                        firmware_error(
                            "firmwareCancellationUnavailable",
                            "设备安全切换已开始，不能再取消固件升级",
                            operation_id,
                        ),
                    );
                }
                self.active = Some(ActiveOperation { cancel_requested: true, ..a });
                return Ok(());
            }
        }
        if self.has_recovery(&operation_id) {
            return Err(
                firmware_error(
                    "firmwareCancellationUnavailable",
                    "设备处于恢复模式，不能取消固件升级",
                    operation_id,
                ),
            );
        }
        Err(firmware_error("firmwareOperationNotFound", "固件升级操作不存在", operation_id))
    }

    /// Marks that the device is being asked to prepare for run
    /// `operation_id`: refused with no run in progress
    /// (`firmwareOperationNotFound`) or after a cancel
    /// (`firmwareOperationCancelled`).
    pub fn mark_prepare_started(&mut self, operation_id: OperationId) -> (r: Result<(), FirmwareFlashErrorDto>)
        requires
            old(self).wf(),
        ensures
            final(self).wf(),
            forall|id: OperationId| #[trigger] final(self).kept(id) == old(self).kept(id),
            match old(self).running() {
                None => (r matches Err(e) && e@ == flash_error_view(
                    "firmwareOperationNotFound"@,
                    "固件升级操作不存在"@,
                    Some(operation_id),
                )) && final(self).running() is None,
                Some(a) => if a.cancel_requested {
                    (r matches Err(e) && e@ == flash_error_view(
                        "firmwareOperationCancelled"@,
                        "固件升级已在安全切换前取消"@,
                        Some(operation_id),
                    )) && final(self).running() == old(self).running()
                } else {
                    r is Ok && final(self).running() == Some(ActiveOperation { prepare_started: true, ..a })
                },
            },
    {
        match self.active {
            None => Err(firmware_error("firmwareOperationNotFound", "固件升级操作不存在", operation_id)),
            Some(a) => {
                if a.cancel_requested {
                    return Err(
                        firmware_error("firmwareOperationCancelled", "固件升级已在安全切换前取消", operation_id),
                    );
                }
                self.active = Some(ActiveOperation { prepare_started: true, ..a });
                Ok(())
            },
        }
    }

    /// Ends run `operation_id` if it is the one in progress.
    pub fn clear_active(&mut self, operation_id: OperationId)
        requires
            old(self).wf(),
        ensures
            final(self).wf(),
            forall|id: OperationId| #[trigger] final(self).kept(id) == old(self).kept(id),
            match old(self).running() {
                Some(a) if a.operation_id == operation_id => final(self).running() is None,
                _ => final(self).running() == old(self).running(),
            },
    {
        if let Some(a) = self.active {
            if same_operation(&a.operation_id, &operation_id) {
                self.active = None;
            }
        }
    }
}


/// A serial adapter's hardware kind, as far as flashing cares.
#[derive(Clone, Copy, Debug, PartialEq, Eq, Structural)]
pub enum SerialProfile {
    Hc05BluetoothSpp,
    NanoUartWl,
    Other,
}

/// How the device is reached.
#[derive(Clone, Copy, Debug, PartialEq, Eq, Structural)]
pub enum FlashLink {
    Simulator,
    Serial { baud_rate: u32, profile: SerialProfile },
}

/// What a run does: a first flash (possibly to an older version), or a
/// retry or a rollback of an interrupted one.
#[derive(Clone, Copy, Debug, PartialEq, Eq, Structural)]
pub enum FlashMode {
    Start { allow_downgrade: bool },
    Retry,
    Rollback,
}

/// The outside result a run waits for next.
#[derive(Clone, Copy, Debug, PartialEq, Eq, Structural)]
pub enum FlashStage {
    Snapshot,
    Package,
    ImageCheck,
    RecoveryCopy,
    Credentials,
    Prepare,
    Trust,
    ResumePackage,
    Flash,
    Reconnect,
    SaveRecoveryCopy,
    Finished,
}

/// What checking a firmware package for the device found.
#[derive(Clone, Copy, Debug)]
pub enum PackageCheck {
    NotProvisioned,
    Invalid,
    Verified { firmware_version: [u16; 3], image_length: u32 },
}

/// The outside work a run asks for next, or its end: its result and
/// whether the run is to be kept for a retry or a rollback.
pub enum FlashWork {
    TakeSnapshot,
    VerifyPackage { device_id: [u8; 16] },
    ValidateImage { image_length: u32 },
    LoadRecoveryCopy { device_id: [u8; 16] },
    LoadCredentials { device_id: [u8; 16] },
    Prepare,
    LoadTrust,
    LoadResumePackage,
    Flash,
    Reconnect,
    SaveRecoveryCopy,
    Finish { result: Result<FirmwareFlashResult, FirmwareFlashErrorDto>, keep_for_recovery: bool },
}

/// A `FlashWork` with its result as a view.
pub enum FlashWorkView {
    TakeSnapshot,
    VerifyPackage { device_id: [u8; 16] },
    ValidateImage { image_length: u32 },
    LoadRecoveryCopy { device_id: [u8; 16] },
    LoadCredentials { device_id: [u8; 16] },
    Prepare,
    LoadTrust,
    LoadResumePackage,
    Flash,
    Reconnect,
    SaveRecoveryCopy,
    Finish { result: Result<FlashResultView, FlashErrorView>, keep_for_recovery: bool },
}

impl View for FlashWork {
    type V = FlashWorkView;

    open spec fn view(&self) -> FlashWorkView {
        match self {
            FlashWork::TakeSnapshot => FlashWorkView::TakeSnapshot,
            FlashWork::VerifyPackage { device_id } => FlashWorkView::VerifyPackage { device_id: *device_id },
            FlashWork::ValidateImage { image_length } => FlashWorkView::ValidateImage { image_length: *image_length },
            FlashWork::LoadRecoveryCopy { device_id } => FlashWorkView::LoadRecoveryCopy { device_id: *device_id },
            FlashWork::LoadCredentials { device_id } => FlashWorkView::LoadCredentials { device_id: *device_id },
            FlashWork::Prepare => FlashWorkView::Prepare,
            FlashWork::LoadTrust => FlashWorkView::LoadTrust,
            FlashWork::LoadResumePackage => FlashWorkView::LoadResumePackage,
            FlashWork::Flash => FlashWorkView::Flash,
            FlashWork::Reconnect => FlashWorkView::Reconnect,
            FlashWork::SaveRecoveryCopy => FlashWorkView::SaveRecoveryCopy,
            FlashWork::Finish { result, keep_for_recovery } => FlashWorkView::Finish {
                result: match result {
                    Ok(r) => Ok(r@),
                    Err(e) => Err(e@),
                },
                keep_for_recovery: *keep_for_recovery,
            },
        }
    }
}

/// Progress reports to send, then the work to do.
pub struct FlashStep {
    pub events: Vec<FirmwareFlashEvent>,
    pub work: FlashWork,
}

/// The reports of a step as views.
pub open spec fn events_view(v: Seq<FirmwareFlashEvent>) -> Seq<FlashEventView> {
    v.map_values(|e: FirmwareFlashEvent| e@)
}

/// A `FlashStep` as views.
pub struct FlashStepView {
    pub events: Seq<FlashEventView>,
    pub work: FlashWorkView,
}

impl View for FlashStep {
    type V = FlashStepView;

    open spec fn view(&self) -> FlashStepView {
        FlashStepView { events: events_view(self.events@), work: self.work@ }
    }
}

/// A flashing run: its id and mode, the stage it is at, whether the device
/// was already asked to prepare, the device and the firmware it expects.
#[derive(Clone, Copy, Debug)]
pub struct FlashRun {
    pub operation_id: OperationId,
    pub mode: FlashMode,
    pub stage: FlashStage,
    pub prepared: bool,
    pub device_id: [u8; 16],
    pub current_version: [u16; 3],
    pub target_version: [u16; 3],
    pub image_length: u32,
    pub serial_link: bool,
}

/// Firmware versions in order: major, then minor, then patch.
pub open spec fn version_lt(a: [u16; 3], b: [u16; 3]) -> bool {
    a[0] < b[0] || (a[0] == b[0] && (a[1] < b[1] || (a[1] == b[1] && a[2] < b[2])))
}

/// A version as one number: major, minor and patch as base-65536 digits.
pub open spec fn version_number(a: [u16; 3]) -> int {
    a[0] * 0x1_0000_0000 + a[1] * 0x1_0000 + a[2]
}

/// Versions compare as the numbers they spell, most significant part
/// first: an older minor or patch version is older whatever the parts
/// after it, and of any two versions exactly one is older or they are the
/// same.
pub proof fn lemma_version_order(a: [u16; 3], b: [u16; 3])
    ensures
        version_lt(a, b) <==> version_number(a) < version_number(b),
        version_lt(a, b) || version_lt(b, a) || a@ == b@,
        !(version_lt(a, b) && version_lt(b, a)),
        a[0] == b[0] && a[1] < b[1] ==> version_lt(a, b),
        a[0] == b[0] && a[1] == b[1] && a[2] < b[2] ==> version_lt(a, b),
{
    if a[0] == b[0] && a[1] == b[1] && a[2] == b[2] {
        assert(a@ =~= b@);
    }
}

fn version_less(a: [u16; 3], b: [u16; 3]) -> (r: bool)
    ensures
        r == version_lt(a, b),
        r <==> version_number(a) < version_number(b),
{
    a[0] < b[0] || (a[0] == b[0] && (a[1] < b[1] || (a[1] == b[1] && a[2] < b[2])))
}

/// The report of run `op` at `phase` and `percent` with `message`.
pub open spec fn report(op: OperationId, phase: FirmwareFlashPhase, percent: u8, message: Seq<char>) -> FlashEventView {
    FlashEventView { operation_id: op, phase, progress_percent: percent, message }
}

/// How a run ends on `error`. A first flash that never asked the device to
/// prepare ends with the error itself; otherwise the run is kept for a
/// retry or a rollback, reports that, and ends with `recoveryRequired` of
/// the failed step's run (or this one).
pub open spec fn failure(run: FlashRun, error: FlashErrorView, before: Seq<FlashEventView>) -> (FlashRun, FlashStepView) {
    let done = FlashRun { stage: FlashStage::Finished, ..run };
    let op = match error.operation_id {
        Some(o) => o,
        None => run.operation_id,
    };
    match run.mode {
        FlashMode::Start { .. } => if run.prepared {
            (
                done,
                FlashStepView {
                    events: before.push(
                        report(
                            run.operation_id,
                            FirmwareFlashPhase::RecoveryRequired,
                            0,
                            "设备需要人工进入 BSL 后重试或回滚"@,
                        ),
                    ),
                    work: FlashWorkView::Finish {
                        result: Err(
                            flash_error_view(
                                "recoveryRequired"@,
                                "固件升级中断；设备升级锁保持，等待重试或回滚"@,
                                Some(op),
                            ),
                        ),
                        keep_for_recovery: true,
                    },
                },
            )
        } else {
            (done, FlashStepView { events: before, work: FlashWorkView::Finish { result: Err(error), keep_for_recovery: false } })
        },
        _ => (
            done,
            FlashStepView {
                events: before.push(
                    report(
                        run.operation_id,
                        FirmwareFlashPhase::RecoveryRequired,
                        0,
                        "设备仍需人工进入 BSL 后重试或回滚"@,
                    ),
                ),
                work: FlashWorkView::Finish {
                    result: Err(
                        flash_error_view("recoveryRequired"@, "恢复操作未完成；设备升级锁继续保持"@, Some(op)),
                    ),
                    keep_for_recovery: true,
                },
            },
        ),
    }
}

/// How a run ends well: it reports success, and its result names the
/// device, the firmware now running and whether that is the recovery copy.
pub open spec fn success(run: FlashRun) -> (FlashRun, FlashStepView) {
    let message = match run.mode {
        FlashMode::Start { .. } => "固件升级完成并已重新连接"@,
        FlashMode::Retry => "固件重试成功并已重新连接"@,
        FlashMode::Rollback => "恢复固件已刷回并重新连接"@,
    };
    (
        FlashRun { stage: FlashStage::Finished, ..run },
        FlashStepView {
            events: seq![report(run.operation_id, FirmwareFlashPhase::Succeeded, 100, message)],
            work: FlashWorkView::Finish {
                result: Ok(
                    FlashResultView {
                        operation_id: run.operation_id,
                        device_id_hex: hex_bytes(run.device_id@),
                        firmware_version: run.target_version,
                        rolled_back: run.mode == FlashMode::Rollback,
                    },
                ),
                keep_for_recovery: false,
            },
        },
    )
}

/// The next stage and work, with no report.
pub open spec fn next(run: FlashRun, stage: FlashStage, work: FlashWorkView) -> (FlashRun, FlashStepView) {
    (FlashRun { stage, ..run }, FlashStepView { events: Seq::empty(), work })
}

/// The error of this run with `code` and `message`.
pub open spec fn run_error(run: FlashRun, code: Seq<char>, message: Seq<char>) -> FlashErrorView {
    flash_error_view(code, message, Some(run.operation_id))
}

/// Whether the run is a first flash.
pub open spec fn is_start(run: FlashRun) -> bool {
    run.mode is Start
}

/// The running run once a step ends the run `run` (`finished`): a first
/// flash is no longer in progress; otherwise nothing changes.
pub open spec fn running_after(run: FlashRun, running: Option<ActiveOperation>, finished: bool) -> Option<ActiveOperation> {
    if finished && run.mode is Start {
        match running {
            Some(a) if a.operation_id == run.operation_id => None,
            _ => running,
        }
    } else {
        running
    }
}

/// Whether a step ends the run.
pub open spec fn finishes(step: FlashStepView) -> bool {
    step.work is Finish
}

/// A step's effect on the registry: the kept runs never change, and the
/// running run as `running_after` says.
pub open spec fn registry_after<R>(run: FlashRun, old_reg: FlashRegistry<R>, new_reg: FlashRegistry<R>, step: FlashStepView) -> bool {
    &&& new_reg.wf()
    &&& forall|id: OperationId| #[trigger] new_reg.kept(id) == old_reg.kept(id)
    &&& new_reg.running() == running_after(run, old_reg.running(), finishes(step))
}

impl FlashRun {
    fn fail<R>(&mut self, registry: &mut FlashRegistry<R>, error: FirmwareFlashErrorDto, before: Vec<FirmwareFlashEvent>) -> (r: FlashStep)
        requires
            old(registry).wf(),
        ensures
            (*final(self), r@) == failure(*old(self), error@, events_view(before@)),
            registry_after(*old(self), *old(registry), *final(registry), r@),
    {
        let op = self.operation_id;
        let reported = match error.operation_id {
            Some(o) => o,
            None => op,
        };
        self.stage = FlashStage::Finished;
        let mut events = before;
        let ghost before_view = events_view(events@);
        match self.mode {
            FlashMode::Start { .. } => {
                registry.clear_active(op);
                if self.prepared {
                    events.push(event(op, FirmwareFlashPhase::RecoveryRequired, 0, "设备需要人工进入 BSL 后重试或回滚"));
                    proof {
                        assert(events_view(events@) =~= before_view.push(
                            report(op, FirmwareFlashPhase::RecoveryRequired, 0, "设备需要人工进入 BSL 后重试或回滚"@),
                        ));
                    }
                    FlashStep {
                        events,
                        work: FlashWork::Finish {
                            result: Err(
                                FirmwareFlashErrorDto::new(
                                    "recoveryRequired",
                                    "固件升级中断；设备升级锁保持，等待重试或回滚",
                                ).with_operation(reported),
                            ),
                            keep_for_recovery: true,
                        },
                    }
                } else {
                    FlashStep { events, work: FlashWork::Finish { result: Err(error), keep_for_recovery: false } }
                }
            },
            _ => {
                events.push(event(op, FirmwareFlashPhase::RecoveryRequired, 0, "设备仍需人工进入 BSL 后重试或回滚"));
                proof {
                    assert(events_view(events@) =~= before_view.push(
                        report(op, FirmwareFlashPhase::RecoveryRequired, 0, "设备仍需人工进入 BSL 后重试或回滚"@),
                    ));
                }
                FlashStep {
                    events,
                    work: FlashWork::Finish {
                        result: Err(
                            FirmwareFlashErrorDto::new("recoveryRequired", "恢复操作未完成；设备升级锁继续保持").with_operation(
                                reported,
                            ),
                        ),
                        keep_for_recovery: true,
                    },
                }
            },
        }
    }

    fn fail_with<R>(&mut self, registry: &mut FlashRegistry<R>, code: &str, message: &str) -> (r: FlashStep)
        requires
            old(registry).wf(),
        ensures
            (*final(self), r@) == failure(*old(self), run_error(*old(self), code@, message@), Seq::empty()),
            registry_after(*old(self), *old(registry), *final(registry), r@),
    {
        let error = firmware_error(code, message, self.operation_id);
        let none: Vec<FirmwareFlashEvent> = Vec::new();
        proof {
            assert(events_view(none@) =~= Seq::<FlashEventView>::empty());
        }
        self.fail(registry, error, none)
    }

    fn succeed<R>(&mut self, registry: &mut FlashRegistry<R>) -> (r: FlashStep)
        requires
            old(registry).wf(),
        ensures
            (*final(self), r@) == success(*old(self)),
            registry_after(*old(self), *old(registry), *final(registry), r@),
    {
        let op = self.operation_id;
        if let FlashMode::Start { .. } = self.mode {
            registry.clear_active(op);
        }
        self.stage = FlashStage::Finished;
        let message = match self.mode {
            FlashMode::Start { .. } => "固件升级完成并已重新连接",
            FlashMode::Retry => "固件重试成功并已重新连接",
            FlashMode::Rollback => "恢复固件已刷回并重新连接",
        };
        let events = vec![event(op, FirmwareFlashPhase::Succeeded, 100, message)];
        proof {
            assert(events_view(events@) =~= seq![report(op, FirmwareFlashPhase::Succeeded, 100, message@)]);
        }
        let rolled_back = match self.mode {
            FlashMode::Rollback => true,
            _ => false,
        };
        FlashStep {
            events,
            work: FlashWork::Finish {
                result: Ok(
                    FirmwareFlashResult {
                        operation_id: op,
                        device_id_hex: encode_hex(self.device_id.as_slice()),
                        firmware_version: self.target_version,
                        rolled_back,
                    },
                ),
                keep_for_recovery: false,
            },
        }
    }

    fn proceed(&mut self, stage: FlashStage, work: FlashWork) -> (r: FlashStep)
        ensures
            (*final(self), r@) == next(*old(self), stage, work@),
    {
        self.stage = stage;
        let events: Vec<FirmwareFlashEvent> = Vec::new();
        proof {
            assert(events_view(events@) =~= Seq::<FlashEventView>::empty());
        }
        FlashStep { events, work }
    }
}

/// The versions are the same.
fn same_version(a: [u16; 3], b: [u16; 3]) -> (r: bool)
    ensures
        r == (a == b),
{
    let r = a[0] == b[0] && a[1] == b[1] && a[2] == b[2];
    proof {
        if r {
            assert forall|i: int| 0 <= i < 3 implies a[i] == b[i] by {
                vstd::array::lemma_array_index(a, i);
                vstd::array::lemma_array_index(b, i);
            }
            assert(a =~= b);
        }
    }
    r
}

/// A new first flash of run `operation_id`, waiting for a snapshot.
pub open spec fn is_started(run: FlashRun, operation_id: OperationId, allow_downgrade: bool) -> bool {
    &&& run.operation_id == operation_id
    &&& run.mode == FlashMode::Start { allow_downgrade }
    &&& run.stage == FlashStage::Snapshot
    &&& !run.prepared
}

/// A resumed run of `operation_id` on `device_id`, waiting for the trust
/// store; the device was already prepared once.
pub open spec fn is_resumed(run: FlashRun, operation_id: OperationId, rollback: bool, device_id: [u8; 16], serial_link: bool) -> bool {
    &&& run.operation_id == operation_id
    &&& run.mode == if rollback {
        FlashMode::Rollback
    } else {
        FlashMode::Retry
    }
    &&& run.stage == FlashStage::Trust
    &&& run.prepared
    &&& run.device_id == device_id
    &&& run.serial_link == serial_link
}

/// A first flash that passed the checks needing no lease: the caller is to
/// try the device's upgrade lease next and report the outcome to
/// `on_lease`.
#[derive(Clone, Copy, Debug)]
pub struct PendingStart {
    pub operation_id: OperationId,
    pub allow_downgrade: bool,
}

impl PendingStart {
    /// The outcome of the lease attempt: a lease that was not granted, or
    /// another run in progress, is `firmwareUpgradeActive` and registers
    /// nothing; otherwise the run is registered as in progress and waits
    /// for a snapshot.
    pub fn on_lease<R>(self, registry: &mut FlashRegistry<R>, lease_acquired: bool) -> (r: Result<
        FlashRun,
        FirmwareFlashErrorDto,
    >)
        requires
            old(registry).wf(),
        ensures
            final(registry).wf(),
            forall|id: OperationId| #[trigger] final(registry).kept(id) == old(registry).kept(id),
            if !lease_acquired || old(registry).running() is Some {
                (r matches Err(e) && e@ == flash_error_view(
                    "firmwareUpgradeActive"@,
                    "已有固件升级正在进行"@,
                    Some(self.operation_id),
                )) && final(registry).running() == old(registry).running()
            } else {
                (r matches Ok(run) && is_started(run, self.operation_id, self.allow_downgrade))
                    && final(registry).running() == Some(
                    ActiveOperation { operation_id: self.operation_id, cancel_requested: false, prepare_started: false },
                )
            },
    {
        let operation_id = self.operation_id;
        if !lease_acquired {
            return Err(firmware_error("firmwareUpgradeActive", "已有固件升级正在进行", operation_id));
        }
        registry.begin(operation_id)?;
        Ok(
            FlashRun {
                operation_id,
                mode: FlashMode::Start { allow_downgrade: self.allow_downgrade },
                stage: FlashStage::Snapshot,
                prepared: false,
                device_id: [0u8; 16],
                current_version: [0u16; 3],
                target_version: [0u16; 3],
                image_length: 0,
                serial_link: true,
            },
        )
    }
}

impl FlashRun {
    /// Starts a first flash of run `operation_id` on the device reached by
    /// `identity`, before any lease is taken or transport opened. Refused
    /// without a device (`deviceNotReady`), on the simulator
    /// (`realSerialRequired`) and for the nil id
    /// (`invalidFirmwareOperation`); otherwise the upgrade lease is to be
    /// tried next (see `PendingStart::on_lease`).
    pub fn start(identity: Option<FlashLink>, operation_id: OperationId, allow_downgrade: bool) -> (r: Result<
        PendingStart,
        FirmwareFlashErrorDto,
    >)
        ensures
            match identity {
                None => r matches Err(e) && e@ == flash_error_view("deviceNotReady"@, "设备尚未连接并就绪"@, None),
                Some(FlashLink::Simulator) => r matches Err(e) && e@ == flash_error_view(
                    "realSerialRequired"@,
                    "固件升级仅支持真实串口设备"@,
                    None,
                ),
                Some(FlashLink::Serial { .. }) => if is_nil(operation_id) {
                    r matches Err(e) && e@ == flash_error_view(
                        "invalidFirmwareOperation"@,
                        "固件升级操作 ID 无效"@,
                        Some(operation_id),
                    )
                } else {
                    r matches Ok(p) && p.operation_id == operation_id && p.allow_downgrade == allow_downgrade
                },
            },
    {
        match identity {
            None => {
                return Err(FirmwareFlashErrorDto::new("deviceNotReady", "设备尚未连接并就绪"));
            },
            Some(FlashLink::Simulator) => {
                return Err(FirmwareFlashErrorDto::new("realSerialRequired", "固件升级仅支持真实串口设备"));
            },
            Some(FlashLink::Serial { .. }) => {},
        }
        if operation_is_nil(&operation_id) {
            return Err(firmware_error("invalidFirmwareOperation", "固件升级操作 ID 无效", operation_id));
        }
        Ok(PendingStart { operation_id, allow_downgrade })
    }

    /// Takes what is kept for interrupted run `operation_id` so it can be
    /// resumed; an id that is not kept is unknown
    /// (`firmwareOperationNotFound`).
    pub fn take_kept<R>(registry: &mut FlashRegistry<R>, operation_id: OperationId) -> (r: Result<
        R,
        FirmwareFlashErrorDto,
    >)
        requires
            old(registry).wf(),
        ensures
            final(registry).wf(),
            final(registry).running() == old(registry).running(),
            final(registry).kept(operation_id) is None,
            forall|id: OperationId| id != operation_id ==> #[trigger] final(registry).kept(id) == old(registry).kept(id),
            match old(registry).kept(operation_id) {
                Some(k) => r == Ok::<R, FirmwareFlashErrorDto>(k),
                None => r matches Err(e) && e@ == flash_error_view(
                    "firmwareOperationNotFound"@,
                    "固件升级操作不存在"@,
                    Some(operation_id),
                ),
            },
    {
        match registry.take_recovery(&operation_id) {
            Some(k) => Ok(k),
            None => Err(firmware_error("firmwareOperationNotFound", "固件升级操作不存在", operation_id)),
        }
    }

    /// A retry (or, with `rollback`, a rollback) of interrupted run
    /// `operation_id` on `device_id`; see `is_resumed`.
    pub fn resume(operation_id: OperationId, rollback: bool, device_id: [u8; 16], serial_link: bool) -> (r: FlashRun)
        ensures
            is_resumed(r, operation_id, rollback, device_id, serial_link),
    {
        FlashRun {
            operation_id,
            mode: if rollback {
                FlashMode::Rollback
            } else {
                FlashMode::Retry
            },
            stage: FlashStage::Trust,
            prepared: true,
            device_id,
            current_version: [0u16; 3],
            target_version: [0u16; 3],
            image_length: 0,
            serial_link,
        }
    }

    /// The device snapshot of a first flash: the device must be ready and
    /// reached over serial (`deviceNotReady`, `realSerialRequired`), at 9600
    /// baud through an HC-05 or nanoUART-wl (`unsupportedFirmwareLink`),
    /// with its identity loaded and valid (`deviceNotReady`,
    /// `invalidDeviceIdentity`) and its firmware version loaded
    /// (`deviceNotReady`). Then the package is verified for the device.
    pub fn on_snapshot<R>(
        &mut self,
        registry: &mut FlashRegistry<R>,
        ready: bool,
        link: Option<FlashLink>,
        device_id_hex: Option<&str>,
        firmware_version: Option<[u16; 3]>,
    ) -> (r: FlashStep)
        requires
            old(registry).wf(),
            old(self).stage == FlashStage::Snapshot,
        ensures
            registry_after(*old(self), *old(registry), *final(registry), r@),
            ({
                let run = *old(self);
                let not_ready = run_error(run, "deviceNotReady"@, "设备尚未连接并就绪"@);
                if !ready || link is None {
                    (*final(self), r@) == failure(run, not_ready, Seq::empty())
                } else if link == Some(FlashLink::Simulator) {
                    (*final(self), r@) == failure(
                        run,
                        run_error(run, "realSerialRequired"@, "固件升级仅支持真实串口设备"@),
                        Seq::empty(),
                    )
                } else if link->Some_0->baud_rate != 9600 || link->Some_0->profile == SerialProfile::Other {
                    (*final(self), r@) == failure(
                        run,
                        run_error(
                            run,
                            "unsupportedFirmwareLink"@,
                            "首版固件升级要求 HC-05 或 nanoUART-wl 使用 9600 8N1"@,
                        ),
                        Seq::empty(),
                    )
                } else if device_id_hex is None {
                    (*final(self), r@) == failure(run, run_error(run, "deviceNotReady"@, "设备身份尚未加载"@), Seq::empty())
                } else if !is_device_id_hex(str_bytes_of(device_id_hex->Some_0)) {
                    (*final(self), r@) == failure(
                        run,
                        run_error(run, "invalidDeviceIdentity"@, "设备身份格式无效"@),
                        Seq::empty(),
                    )
                } else if firmware_version is None {
                    (*final(self), r@) == failure(
                        run,
                        run_error(run, "deviceNotReady"@, "设备固件版本尚未加载"@),
                        Seq::empty(),
                    )
                } else {
                    &&& final(self).device_id@ == device_id_of(str_bytes_of(device_id_hex->Some_0))
                    &&& (*final(self), r@) == next(
                        FlashRun {
                            device_id: final(self).device_id,
                            current_version: firmware_version->Some_0,
                            ..run
                        },
                        FlashStage::Package,
                        FlashWorkView::VerifyPackage { device_id: final(self).device_id },
                    )
                }
            }),
    {
        if !ready {
            return self.fail_with(registry, "deviceNotReady", "设备尚未连接并就绪");
        }
        match link {
            None => {
                return self.fail_with(registry, "deviceNotReady", "设备尚未连接并就绪");
            },
            Some(FlashLink::Simulator) => {
                return self.fail_with(registry, "realSerialRequired", "固件升级仅支持真实串口设备");
            },
            Some(FlashLink::Serial { baud_rate, profile }) => {
                let supported = match profile {
                    SerialProfile::Other => false,
                    _ => true,
                };
                if baud_rate != 9600 || !supported {
                    return self.fail_with(
                        registry,
                        "unsupportedFirmwareLink",
                        "首版固件升级要求 HC-05 或 nanoUART-wl 使用 9600 8N1",
                    );
                }
            },
        }
        let hex = match device_id_hex {
            Some(h) => h,
            None => {
                return self.fail_with(registry, "deviceNotReady", "设备身份尚未加载");
            },
        };
        let device_id = match parse_device_id(hex) {
            Some(id) => id,
            None => {
                return self.fail_with(registry, "invalidDeviceIdentity", "设备身份格式无效");
            },
        };
        let current = match firmware_version {
            Some(v) => v,
            None => {
                return self.fail_with(registry, "deviceNotReady", "设备固件版本尚未加载");
            },
        };
        self.device_id = device_id;
        self.current_version = current;
        self.proceed(FlashStage::Package, FlashWork::VerifyPackage { device_id })
    }

    /// The package check of a first flash: the device must be provisioned
    /// (`deviceNotProvisioned`) and the package valid
    /// (`invalidFirmwarePackage`), and an older version needs the downgrade
    /// allowed (`downgradeConfirmationRequired`). Then the image is checked
    /// against the target's flash.
    pub fn on_package<R>(&mut self, registry: &mut FlashRegistry<R>, check: PackageCheck) -> (r: FlashStep)
        requires
            old(registry).wf(),
            old(self).stage == FlashStage::Package,
            old(self).mode is Start,
        ensures
            registry_after(*old(self), *old(registry), *final(registry), r@),
            (check matches PackageCheck::Verified { firmware_version, .. } && version_number(firmware_version)
                < version_number(old(self).current_version) && !old(self).mode->allow_downgrade) ==> (
            *final(self), r@) == failure(
                *old(self),
                run_error(*old(self), "downgradeConfirmationRequired"@, "目标版本低于当前版本，需要显式确认降级"@),
                Seq::empty(),
            ),
            ({
                let run = *old(self);
                match check {
                    PackageCheck::NotProvisioned => (*final(self), r@) == failure(
                        run,
                        run_error(run, "deviceNotProvisioned"@, "设备尚未导入可信发布公钥"@),
                        Seq::empty(),
                    ),
                    PackageCheck::Invalid => (*final(self), r@) == failure(
                        run,
                        run_error(run, "invalidFirmwarePackage"@, "固件包验签或格式校验失败"@),
                        Seq::empty(),
                    ),
                    PackageCheck::Verified { firmware_version, image_length } => if version_lt(
                        firmware_version,
                        run.current_version,
                    ) && !run.mode->allow_downgrade {
                        (*final(self), r@) == failure(
                            run,
                            run_error(
                                run,
                                "downgradeConfirmationRequired"@,
                                "目标版本低于当前版本，需要显式确认降级"@,
                            ),
                            Seq::empty(),
                        )
                    } else {
                        (*final(self), r@) == next(
                            FlashRun { target_version: firmware_version, image_length, ..run },
                            FlashStage::ImageCheck,
                            FlashWorkView::ValidateImage { image_length },
                        )
                    },
                }
            }),
    {
        match check {
            PackageCheck::NotProvisioned => self.fail_with(registry, "deviceNotProvisioned", "设备尚未导入可信发布公钥"),
            PackageCheck::Invalid => self.fail_with(registry, "invalidFirmwarePackage", "固件包验签或格式校验失败"),
            PackageCheck::Verified { firmware_version, image_length } => {
                let allow = match self.mode {
                    FlashMode::Start { allow_downgrade } => allow_downgrade,
                    _ => true,
                };
                if version_less(firmware_version, self.current_version) && !allow {
                    return self.fail_with(
                        registry,
                        "downgradeConfirmationRequired",
                        "目标版本低于当前版本，需要显式确认降级",
                    );
                }
                self.target_version = firmware_version;
                self.image_length = image_length;
                self.proceed(FlashStage::ImageCheck, FlashWork::ValidateImage { image_length })
            },
        }
    }

    /// Whether the image fits the target's flash (`targetImageRejected`);
    /// then the device's recovery copy is loaded.
    pub fn on_image_checked<R>(&mut self, registry: &mut FlashRegistry<R>, fits: bool) -> (r: FlashStep)
        requires
            old(registry).wf(),
            old(self).stage == FlashStage::ImageCheck,
        ensures
            registry_after(*old(self), *old(registry), *final(registry), r@),
            fits ==> (*final(self), r@) == next(
                *old(self),
                FlashStage::RecoveryCopy,
                FlashWorkView::LoadRecoveryCopy { device_id: old(self).device_id },
            ),
            !fits ==> (*final(self), r@) == failure(
                *old(self),
                run_error(*old(self), "targetImageRejected"@, "固件镜像不符合目标 Flash 边界"@),
                Seq::empty(),
            ),
    {
        if !fits {
            return self.fail_with(registry, "targetImageRejected", "固件镜像不符合目标 Flash 边界");
        }
        let device_id = self.device_id;
        self.proceed(FlashStage::RecoveryCopy, FlashWork::LoadRecoveryCopy { device_id })
    }

    /// Whether a verified recovery copy exists for the device
    /// (`recoveryPackageRequired`); then the device's credentials are loaded.
    pub fn on_recovery_copy<R>(&mut self, registry: &mut FlashRegistry<R>, loaded: bool) -> (r: FlashStep)
        requires
            old(registry).wf(),
            old(self).stage == FlashStage::RecoveryCopy,
        ensures
            registry_after(*old(self), *old(registry), *final(registry), r@),
            loaded ==> (*final(self), r@) == next(
                *old(self),
                FlashStage::Credentials,
                FlashWorkView::LoadCredentials { device_id: old(self).device_id },
            ),
            !loaded ==> (*final(self), r@) == failure(
                *old(self),
                run_error(*old(self), "recoveryPackageRequired"@, "设备缺少已验证的恢复固件包"@),
                Seq::empty(),
            ),
    {
        if !loaded {
            return self.fail_with(registry, "recoveryPackageRequired", "设备缺少已验证的恢复固件包");
        }
        let device_id = self.device_id;
        self.proceed(FlashStage::Credentials, FlashWork::LoadCredentials { device_id })
    }
}

impl FlashRun {
    fn proceed_reporting(&mut self, stage: FlashStage, work: FlashWork, report_event: FirmwareFlashEvent) -> (r: FlashStep)
        ensures
            *final(self) == (FlashRun { stage, ..*old(self) }),
            r@ == (FlashStepView { events: seq![report_event@], work: work@ }),
    {
        self.stage = stage;
        let events = vec![report_event];
        proof {
            assert(events_view(events@) =~= seq![report_event@]);
        }
        FlashStep { events, work }
    }

    /// The device's credentials (`deviceCredentialMissing`). A first flash
    /// then reports that it asks the device to prepare, and does so unless
    /// the registry refuses (no run in progress, or a cancel came first; see
    /// `mark_prepare_started`). A resumed run needs a serial link
    /// (`realSerialRequired`), reports the retry or rollback, and flashes.
    pub fn on_credentials<R>(&mut self, registry: &mut FlashRegistry<R>, loaded: bool) -> (r: FlashStep)
        requires
            old(registry).wf(),
            old(self).stage == FlashStage::Credentials,
        ensures
            final(registry).wf(),
            forall|id: OperationId| #[trigger] final(registry).kept(id) == old(registry).kept(id),
            ({
                let run = *old(self);
                let op = run.operation_id;
                let preparing = report(op, FirmwareFlashPhase::Preparing, 15, "正在请求设备安全停机并切换到 ROM BSL"@);
                if !loaded {
                    &&& (*final(self), r@) == failure(
                        run,
                        run_error(run, "deviceCredentialMissing"@, "设备固件凭据不可用"@),
                        Seq::empty(),
                    )
                    &&& final(registry).running() == running_after(run, old(registry).running(), true)
                } else if run.mode is Start {
                    match old(registry).running() {
                        None => {
                            &&& (*final(self), r@) == failure(
                                run,
                                run_error(run, "firmwareOperationNotFound"@, "固件升级操作不存在"@),
                                seq![preparing],
                            )
                            &&& final(registry).running() is None
                        },
                        Some(a) => if a.cancel_requested {
                            &&& (*final(self), r@) == failure(
                                run,
                                run_error(run, "firmwareOperationCancelled"@, "固件升级已在安全切换前取消"@),
                                seq![preparing],
                            )
                            &&& final(registry).running() == running_after(run, old(registry).running(), true)
                        } else {
                            &&& *final(self) == (FlashRun { stage: FlashStage::Prepare, ..run })
                            &&& r@ == (FlashStepView { events: seq![preparing], work: FlashWorkView::Prepare })
                            &&& final(registry).running() == Some(ActiveOperation { prepare_started: true, ..a })
                        },
                    }
                } else if !run.serial_link {
                    &&& (*final(self), r@) == failure(
                        run,
                        run_error(run, "realSerialRequired"@, "恢复操作仅支持真实串口设备"@),
                        Seq::empty(),
                    )
                    &&& final(registry).running() == old(registry).running()
                } else {
                    &&& *final(self) == (FlashRun { stage: FlashStage::Flash, ..run })
                    &&& r@ == (FlashStepView {
                        events: seq![
                            if run.mode == FlashMode::Rollback {
                                report(op, FirmwareFlashPhase::RollingBack, 10, "正在刷回已验证的恢复固件"@)
                            } else {
                                report(op, FirmwareFlashPhase::Retrying, 10, "正在重试候选固件"@)
                            },
                        ],
                        work: FlashWorkView::Flash,
                    })
                    &&& final(registry).running() == old(registry).running()
                }
            }),
    {
        if !loaded {
            return self.fail_with(registry, "deviceCredentialMissing", "设备固件凭据不可用");
        }
        let op = self.operation_id;
        match self.mode {
            FlashMode::Start { .. } => {
                let preparing = event(op, FirmwareFlashPhase::Preparing, 15, "正在请求设备安全停机并切换到 ROM BSL");
                match registry.mark_prepare_started(op) {
                    Ok(()) => self.proceed_reporting(FlashStage::Prepare, FlashWork::Prepare, preparing),
                    Err(e) => {
                        let before = vec![preparing];
                        proof {
                            assert(events_view(before@) =~= seq![preparing@]);
                        }
                        self.fail(registry, e, before)
                    },
                }
            },
            _ => {
                if !self.serial_link {
                    return self.fail_with(registry, "realSerialRequired", "恢复操作仅支持真实串口设备");
                }
                let report_event = match self.mode {
                    FlashMode::Rollback => event(op, FirmwareFlashPhase::RollingBack, 10, "正在刷回已验证的恢复固件"),
                    _ => event(op, FirmwareFlashPhase::Retrying, 10, "正在重试候选固件"),
                };
                self.proceed_reporting(FlashStage::Flash, FlashWork::Flash, report_event)
            },
        }
    }

    /// Whether the device accepted to prepare (`preparationRejected`); from
    /// then on a failure keeps the run for recovery. It reports the
    /// transport switch and flashes.
    pub fn on_prepared<R>(&mut self, registry: &mut FlashRegistry<R>, accepted: bool) -> (r: FlashStep)
        requires
            old(registry).wf(),
            old(self).stage == FlashStage::Prepare,
        ensures
            registry_after(*old(self), *old(registry), *final(registry), r@),
            !accepted ==> (*final(self), r@) == failure(
                *old(self),
                run_error(*old(self), "preparationRejected"@, "设备拒绝进入固件升级模式"@),
                Seq::empty(),
            ),
            accepted ==> *final(self) == (FlashRun { stage: FlashStage::Flash, prepared: true, ..*old(self) })
                && r@ == (FlashStepView {
                events: seq![
                    report(
                        old(self).operation_id,
                        FirmwareFlashPhase::SwitchingTransport,
                        25,
                        "正在等待设备完成串口切换"@,
                    ),
                ],
                work: FlashWorkView::Flash,
            }),
    {
        if !accepted {
            return self.fail_with(registry, "preparationRejected", "设备拒绝进入固件升级模式");
        }
        self.prepared = true;
        let op = self.operation_id;
        let switching = event(op, FirmwareFlashPhase::SwitchingTransport, 25, "正在等待设备完成串口切换");
        self.proceed_reporting(FlashStage::Flash, FlashWork::Flash, switching)
    }

    /// Whether the device's trust store loads (`deviceNotProvisioned`);
    /// then the package to resume with is loaded.
    pub fn on_trust<R>(&mut self, registry: &mut FlashRegistry<R>, loaded: bool) -> (r: FlashStep)
        requires
            old(registry).wf(),
            old(self).stage == FlashStage::Trust,
        ensures
            registry_after(*old(self), *old(registry), *final(registry), r@),
            loaded ==> (*final(self), r@) == next(*old(self), FlashStage::ResumePackage, FlashWorkView::LoadResumePackage),
            !loaded ==> (*final(self), r@) == failure(
                *old(self),
                run_error(*old(self), "deviceNotProvisioned"@, "设备尚未导入可信发布公钥"@),
                Seq::empty(),
            ),
    {
        if !loaded {
            return self.fail_with(registry, "deviceNotProvisioned", "设备尚未导入可信发布公钥");
        }
        self.proceed(FlashStage::ResumePackage, FlashWork::LoadResumePackage)
    }

    /// The firmware version of the package to resume with, if it loads: the
    /// recovery copy for a rollback (`recoveryPackageRequired`), the
    /// candidate for a retry (`invalidFirmwarePackage`). Then the
    /// credentials are loaded.
    pub fn on_resume_package<R>(&mut self, registry: &mut FlashRegistry<R>, version: Option<[u16; 3]>) -> (r:
        FlashStep)
        requires
            old(registry).wf(),
            old(self).stage == FlashStage::ResumePackage,
        ensures
            registry_after(*old(self), *old(registry), *final(registry), r@),
            match version {
                Some(v) => (*final(self), r@) == next(
                    FlashRun { target_version: v, ..*old(self) },
                    FlashStage::Credentials,
                    FlashWorkView::LoadCredentials { device_id: old(self).device_id },
                ),
                None => if old(self).mode == FlashMode::Rollback {
                    (*final(self), r@) == failure(
                        *old(self),
                        run_error(*old(self), "recoveryPackageRequired"@, "设备缺少已验证的恢复固件包"@),
                        Seq::empty(),
                    )
                } else {
                    (*final(self), r@) == failure(
                        *old(self),
                        run_error(*old(self), "invalidFirmwarePackage"@, "候选固件包无法重新验证"@),
                        Seq::empty(),
                    )
                },
            },
    {
        match version {
            Some(v) => {
                self.target_version = v;
                let device_id = self.device_id;
                self.proceed(FlashStage::Credentials, FlashWork::LoadCredentials { device_id })
            },
            None => match self.mode {
                FlashMode::Rollback => self.fail_with(registry, "recoveryPackageRequired", "设备缺少已验证的恢复固件包"),
                _ => self.fail_with(registry, "invalidFirmwarePackage", "候选固件包无法重新验证"),
            },
        }
    }

    /// The outcome of opening the bootloader link and flashing: a failure
    /// ends the run with it; otherwise the run reports that it reconnects.
    pub fn on_flashed<R>(&mut self, registry: &mut FlashRegistry<R>, outcome: Result<(), FirmwareFlashErrorDto>) -> (r:
        FlashStep)
        requires
            old(registry).wf(),
            old(self).stage == FlashStage::Flash,
        ensures
            registry_after(*old(self), *old(registry), *final(registry), r@),
            match outcome {
                Err(e) => (*final(self), r@) == failure(*old(self), e@, Seq::empty()),
                Ok(()) => *final(self) == (FlashRun { stage: FlashStage::Reconnect, ..*old(self) }) && r@ == (FlashStepView {
                    events: seq![
                        report(
                            old(self).operation_id,
                            FirmwareFlashPhase::Reconnecting,
                            96,
                            "正在重新连接并核对设备身份"@,
                        ),
                    ],
                    work: FlashWorkView::Reconnect,
                }),
            },
    {
        match outcome {
            Err(e) => {
                let none: Vec<FirmwareFlashEvent> = Vec::new();
                proof {
                    assert(events_view(none@) =~= Seq::<FlashEventView>::empty());
                }
                self.fail(registry, e, none)
            },
            Ok(()) => {
                let op = self.operation_id;
                let reconnecting = event(op, FirmwareFlashPhase::Reconnecting, 96, "正在重新连接并核对设备身份");
                self.proceed_reporting(FlashStage::Reconnect, FlashWork::Reconnect, reconnecting)
            },
        }
    }

    /// The reconnection: it must succeed (`reconnectFailed`) and find the
    /// same device running the expected firmware
    /// (`reconnectIdentityMismatch`). A rollback then succeeds; otherwise the
    /// new firmware is saved as the recovery copy.
    pub fn on_reconnected<R>(
        &mut self,
        registry: &mut FlashRegistry<R>,
        succeeded: bool,
        device_id_hex: Option<&str>,
        firmware_version: Option<[u16; 3]>,
    ) -> (r: FlashStep)
        requires
            old(registry).wf(),
            old(self).stage == FlashStage::Reconnect,
        ensures
            registry_after(*old(self), *old(registry), *final(registry), r@),
            ({
                let run = *old(self);
                if !succeeded {
                    (*final(self), r@) == failure(
                        run,
                        run_error(
                            run,
                            "reconnectFailed"@,
                            if is_start(run) {
                                "新固件启动后无法重新连接设备"@
                            } else {
                                "固件启动后无法重新连接设备"@
                            },
                        ),
                        Seq::empty(),
                    )
                } else if device_id_hex is None || str_bytes_of(device_id_hex->Some_0) != hex_bytes(run.device_id@)
                    || firmware_version != Some(run.target_version) {
                    (*final(self), r@) == failure(
                        run,
                        run_error(run, "reconnectIdentityMismatch"@, "重连后的设备身份或固件版本不匹配"@),
                        Seq::empty(),
                    )
                } else if run.mode == FlashMode::Rollback {
                    (*final(self), r@) == success(run)
                } else {
                    (*final(self), r@) == next(run, FlashStage::SaveRecoveryCopy, FlashWorkView::SaveRecoveryCopy)
                }
            }),
    {
        if !succeeded {
            let message = match self.mode {
                FlashMode::Start { .. } => "新固件启动后无法重新连接设备",
                _ => "固件启动后无法重新连接设备",
            };
            return self.fail_with(registry, "reconnectFailed", message);
        }
        let expected = encode_hex(self.device_id.as_slice());
        let same_device = match device_id_hex {
            Some(h) => crate::bytes::bytes_equal(h.as_bytes(), expected.as_str().as_bytes()),
            None => false,
        };
        let same_firmware = match firmware_version {
            Some(v) => same_version(v, self.target_version),
            None => false,
        };
        if !same_device || !same_firmware {
            return self.fail_with(registry, "reconnectIdentityMismatch", "重连后的设备身份或固件版本不匹配");
        }
        match self.mode {
            FlashMode::Rollback => self.succeed(registry),
            _ => self.proceed(FlashStage::SaveRecoveryCopy, FlashWork::SaveRecoveryCopy),
        }
    }

    /// Whether the new firmware was saved as the device's recovery copy
    /// (`recoveryStoreFailed`); then the run succeeds.
    pub fn on_recovery_saved<R>(&mut self, registry: &mut FlashRegistry<R>, saved: bool) -> (r: FlashStep)
        requires
            old(registry).wf(),
            old(self).stage == FlashStage::SaveRecoveryCopy,
        ensures
            registry_after(*old(self), *old(registry), *final(registry), r@),
            saved ==> (*final(self), r@) == success(*old(self)),
            !saved ==> (*final(self), r@) == failure(
                *old(self),
                run_error(
                    *old(self),
                    "recoveryStoreFailed"@,
                    if is_start(*old(self)) {
                        "新固件已启动，但恢复副本保存失败"@
                    } else {
                        "固件已启动，但恢复副本保存失败"@
                    },
                ),
                Seq::empty(),
            ),
    {
        if !saved {
            let message = match self.mode {
                FlashMode::Start { .. } => "新固件已启动，但恢复副本保存失败",
                _ => "固件已启动，但恢复副本保存失败",
            };
            return self.fail_with(registry, "recoveryStoreFailed", message);
        }
        self.succeed(registry)
    }
}

/// The digits of `hex_bytes` by position.
proof fn lemma_hex_bytes_at(b: Seq<u8>)
    ensures
        hex_bytes(b).len() == 2 * b.len(),
        forall|i: int|
            0 <= i < b.len() ==> #[trigger] hex_bytes(b)[2 * i] == crate::sim::support::hex_digit(b[i] >> 4u8)
                && hex_bytes(b)[2 * i + 1] == crate::sim::support::hex_digit(b[i] & 0x0Fu8),
    decreases b.len(),
{
    if b.len() > 0 {
        let p = b.drop_last();
        lemma_hex_bytes_at(p);
        assert forall|i: int| 0 <= i < b.len() implies #[trigger] hex_bytes(b)[2 * i] == crate::sim::support::hex_digit(
            b[i] >> 4u8,
        ) && hex_bytes(b)[2 * i + 1] == crate::sim::support::hex_digit(b[i] & 0x0Fu8) by {
            if i < b.len() - 1 {
                assert(b[i] == p[i]);
                assert(hex_bytes(p)[2 * i] == crate::sim::support::hex_digit(p[i] >> 4u8));
            }
        }
    }
}

proof fn lemma_byte_nibbles(h: u8, l: u8)
    by (bit_vector)
    requires
        h < 16,
        l < 16,
    ensures
        ((h * 16 + l) as u8) >> 4u8 == h,
        ((h * 16 + l) as u8) & 0x0Fu8 == l,
{
}

proof fn lemma_nibble_digit(c: u8)
    requires
        nibble_of(c) is Some,
    ensures
        nibble_of(c)->Some_0 < 16,
        crate::sim::support::hex_digit(nibble_of(c)->Some_0) == c,
{
}

proof fn lemma_digit_nibble(v: u8)
    requires
        v < 16,
    ensures
        nibble_of(crate::sim::support::hex_digit(v)) == Some(v),
{
}

/// A device identity of 32 lowercase hexadecimal digits prints back, in
/// lowercase hexadecimal, as the same digits.
pub proof fn lemma_device_id_hex_round_trip(text: Seq<u8>)
    requires
        is_device_id_hex(text),
    ensures
        hex_bytes(device_id_of(text)) == text,
{
    let d = device_id_of(text);
    lemma_hex_bytes_at(d);
    assert forall|k: int| 0 <= k < 32 implies #[trigger] hex_bytes(d)[k] == text[k] by {
        let i = k / 2;
        assert(nibble_of(text[2 * i]) is Some);
        assert(nibble_of(text[2 * i + 1]) is Some);
        lemma_nibble_digit(text[2 * i]);
        lemma_nibble_digit(text[2 * i + 1]);
        lemma_byte_nibbles(nibble_of(text[2 * i])->Some_0, nibble_of(text[2 * i + 1])->Some_0);
        assert(hex_bytes(d)[2 * i] == crate::sim::support::hex_digit(d[i] >> 4u8));
        if k % 2 == 0 {
            assert(k == 2 * i);
        } else {
            assert(k == 2 * i + 1);
        }
    }
    assert(hex_bytes(d) =~= text);
}

/// Any 16-byte identity written in lowercase hexadecimal is a valid
/// identity text naming the same bytes.
pub proof fn lemma_device_id_parse_round_trip(id: Seq<u8>)
    requires
        id.len() == 16,
    ensures
        is_device_id_hex(hex_bytes(id)),
        device_id_of(hex_bytes(id)) == id,
{
    let t = hex_bytes(id);
    lemma_hex_bytes_at(id);
    assert forall|k: int| 0 <= k < 32 implies (#[trigger] nibble_of(t[k])) is Some by {
        let i = k / 2;
        assert(t[2 * i] == crate::sim::support::hex_digit(id[i] >> 4u8));
        let b = id[i];
        assert(b >> 4u8 < 16 && b & 0x0Fu8 < 16) by (bit_vector);
        lemma_digit_nibble(id[i] >> 4u8);
        lemma_digit_nibble(id[i] & 0x0Fu8);
        if k % 2 == 0 {
            assert(k == 2 * i);
        } else {
            assert(k == 2 * i + 1);
        }
    }
    assert forall|i: int| 0 <= i < 16 implies #[trigger] device_id_of(t)[i] == id[i] by {
        assert(t[2 * i] == crate::sim::support::hex_digit(id[i] >> 4u8));
        let b = id[i];
        assert(b >> 4u8 < 16 && b & 0x0Fu8 < 16 && (((b >> 4u8) * 16 + (b & 0x0Fu8)) as u8) == b) by (bit_vector);
        lemma_digit_nibble(b >> 4u8);
        lemma_digit_nibble(b & 0x0Fu8);
    }
    assert(device_id_of(t) =~= id);
}

/// The steps of flashing through the TI ROM bootloader, in order.
#[derive(Clone, Copy, Debug, PartialEq, Eq, Structural)]
pub enum BslStep {
    Unlock,
    Erase,
    Program,
    Verify,
    Start,
}

/// The report sent before each bootloader step: its phase, its progress
/// and what it does.
pub open spec fn bsl_step_report(operation_id: OperationId, step: BslStep) -> FlashEventView {
    match step {
        BslStep::Unlock => report(operation_id, FirmwareFlashPhase::Unlocking, 35, "正在连接并解锁 TI ROM BSL"@),
        BslStep::Erase => report(operation_id, FirmwareFlashPhase::Erasing, 45, "正在擦除目标主 Flash 范围"@),
        BslStep::Program => report(operation_id, FirmwareFlashPhase::Programming, 60, "正在分块写入固件镜像"@),
        BslStep::Verify => report(operation_id, FirmwareFlashPhase::Verifying, 85, "正在校验设备端固件 CRC"@),
        BslStep::Start => report(operation_id, FirmwareFlashPhase::Restarting, 92, "正在启动新固件"@),
    }
}

/// The report sent before bootloader step `step`; see `bsl_step_report`.
pub fn bsl_report(operation_id: OperationId, step: BslStep) -> (e: FirmwareFlashEvent)
    ensures
        e@ == bsl_step_report(operation_id, step),
{
    match step {
        BslStep::Unlock => event(operation_id, FirmwareFlashPhase::Unlocking, 35, "正在连接并解锁 TI ROM BSL"),
        BslStep::Erase => event(operation_id, FirmwareFlashPhase::Erasing, 45, "正在擦除目标主 Flash 范围"),
        BslStep::Program => event(operation_id, FirmwareFlashPhase::Programming, 60, "正在分块写入固件镜像"),
        BslStep::Verify => event(operation_id, FirmwareFlashPhase::Verifying, 85, "正在校验设备端固件 CRC"),
        BslStep::Start => event(operation_id, FirmwareFlashPhase::Restarting, 92, "正在启动新固件"),
    }
}

/// A failed bootloader operation of run `operation_id`.
pub fn flash_error(operation_id: OperationId) -> (e: FirmwareFlashErrorDto)
    ensures
        e@ == flash_error_view("bslOperationFailed"@, "TI ROM BSL 固件操作失败"@, Some(operation_id)),
{
    firmware_error("bslOperationFailed", "TI ROM BSL 固件操作失败", operation_id)
}

} // verus!
