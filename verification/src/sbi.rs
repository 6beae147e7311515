//! What the supervisor binary interface (SBI) answers, and how the kernel reads the answers.
//! Making the calls themselves (the `ecall` instruction) is left to the caller.
use vstd::prelude::*;

verus! {

/// Completed successfully.
pub const SBI_SUCCESS: isize = 0;
/// Failed.
pub const SBI_ERR_FAILED: isize = -1;
/// Not supported.
pub const SBI_ERR_NOT_SUPPORTED: isize = -2;
/// Invalid parameter(s).
pub const SBI_ERR_INVALID_PARAM: isize = -3;
/// Denied or not allowed.
pub const SBI_ERR_DENIED: isize = -4;
/// Invalid address(es).
pub const SBI_ERR_INVALID_ADDRESS: isize = -5;
/// Already available.
pub const SBI_ERR_ALREADY_AVAILABLE: isize = -6;
/// Already started.
pub const SBI_ERR_ALREADY_STARTED: isize = -7;
/// Already stopped.
pub const SBI_ERR_ALREADY_STOPPED: isize = -8;
/// Shared memory not available.
pub const SBI_ERR_NO_SHMEM: isize = -9;

/// The two values that an SBI call returns.
#[derive(Clone, Copy, Debug, PartialEq, Eq, Structural)]
pub struct SBIRet {
    pub error: isize,
    pub value: isize,
}

/// The errors of the SBI.
#[derive(Debug, Clone, Copy, PartialEq, Eq, Structural)]
pub enum SBIError {
    Success,
    Failed,
    NotSupported,
    InvalidParam,
    Denied,
    InvalidAddress,
    AlreadyAvailable,
    AlreadyStarted,
    AlreadyStopped,
    NoShmem,
}

/// The error whose code is `value`, for the ten codes from 0 down to -9.
pub open spec fn sbi_error_of(value: int) -> SBIError {
    if value == 0 {
        SBIError::Success
    } else if value == -1 {
        SBIError::Failed
    } else if value == -2 {
        SBIError::NotSupported
    } else if value == -3 {
        SBIError::InvalidParam
    } else if value == -4 {
        SBIError::Denied
    } else if value == -5 {
        SBIError::InvalidAddress
    } else if value == -6 {
        SBIError::AlreadyAvailable
    } else if value == -7 {
        SBIError::AlreadyStarted
    } else if value == -8 {
        SBIError::AlreadyStopped
    } else {
        SBIError::NoShmem
    }
}

impl SBIError {
    /// The error whose code is `value`. It is a fatal error on any other value than 0 to -9.
    pub fn from_code(value: isize) -> (r: SBIError)
        requires
            -9 <= value <= 0,
        ensures
            r == sbi_error_of(value as int),
    {
        match value {
            0 => SBIError::Success,
            -1 => SBIError::Failed,
            -2 => SBIError::NotSupported,
            -3 => SBIError::InvalidParam,
            -4 => SBIError::Denied,
            -5 => SBIError::InvalidAddress,
            -6 => SBIError::AlreadyAvailable,
            -7 => SBIError::AlreadyStarted,
            -8 => SBIError::AlreadyStopped,
            _ => SBIError::NoShmem,
        }
    }

    /// The code of the error.
    pub fn code(&self) -> (r: isize)
        ensures
            -9 <= r <= 0,
            sbi_error_of(r as int) == *self,
    {
        match self {
            SBIError::Success => SBI_SUCCESS,
            SBIError::Failed => SBI_ERR_FAILED,
            SBIError::NotSupported => SBI_ERR_NOT_SUPPORTED,
            SBIError::InvalidParam => SBI_ERR_INVALID_PARAM,
            SBIError::Denied => SBI_ERR_DENIED,
            SBIError::InvalidAddress => SBI_ERR_INVALID_ADDRESS,
            SBIError::AlreadyAvailable => SBI_ERR_ALREADY_AVAILABLE,
            SBIError::AlreadyStarted => SBI_ERR_ALREADY_STARTED,
            SBIError::AlreadyStopped => SBI_ERR_ALREADY_STOPPED,
            SBIError::NoShmem => SBI_ERR_NO_SHMEM,
        }
    }
}

/// Distinct codes name distinct errors, so reading a code and writing the error back gives
/// the code again.
pub proof fn lemma_sbi_error_injective(a: int, b: int)
    requires
        -9 <= a <= 0,
        -9 <= b <= 0,
        sbi_error_of(a) == sbi_error_of(b),
    ensures
        a == b,
{
}

impl SBIRet {
    /// The value the kernel starts from before a call: the lowest error code and value -1.
    pub fn new() -> (r: SBIRet)
        ensures
            r.error == isize::MIN,
            r.value == -1,
    {
        SBIRet { error: isize::MIN, value: -1 }
    }

    /// The error of the answer. It is a fatal error on an error code other than 0 to -9.
    pub fn get_sbi_error(&self) -> (r: SBIError)
        requires
            -9 <= self.error <= 0,
        ensures
            r == sbi_error_of(self.error as int),
    {
        SBIError::from_code(self.error)
    }

    /// The answer as a result: its value on success, else its error.
    pub fn into_result(&self) -> (r: Result<isize, SBIError>)
        requires
            -9 <= self.error <= 0,
        ensures
            self.error == 0 ==> r == Ok::<isize, SBIError>(self.value),
            self.error != 0 ==> r == Err::<isize, SBIError>(sbi_error_of(self.error as int)),
    {
        let error = self.get_sbi_error();
        if error == SBIError::Success {
            Ok(self.value)
        } else {
            Err(error)
        }
    }

    /// The answer to a probe of an extension: a value of 0 means that the extension is not
    /// available (`NotSupported`), another value is the answer; a failed call gives its
    /// error.
    pub fn into_probe_result(&self) -> (r: Result<isize, SBIError>)
        requires
            -9 <= self.error <= 0,
        ensures
            self.error == 0 && self.value == 0 ==> r == Err::<isize, SBIError>(SBIError::NotSupported),
            self.error == 0 && self.value != 0 ==> r == Ok::<isize, SBIError>(self.value),
            self.error != 0 ==> r == Err::<isize, SBIError>(sbi_error_of(self.error as int)),
    {
        let error = self.get_sbi_error();
        proof {
            if error == SBIError::Success {
                lemma_sbi_error_injective(self.error as int, 0);
            }
        }
        if error != SBIError::Success {
            Err(error)
        } else if self.value == 0 {
            Err(SBIError::NotSupported)
        } else {
            Ok(self.value)
        }
    }

    /// The answer to starting or stopping a hart: nothing on success, else the raw error code.
    pub fn into_unit_result(&self) -> (r: Result<(), isize>)
        requires
            -9 <= self.error <= 0,
        ensures
            self.error == 0 ==> r == Ok::<(), isize>(()),
            self.error != 0 ==> r == Err::<(), isize>(self.error),
    {
        if self.get_sbi_error() != SBIError::Success {
            Err(self.error)
        } else {
            Ok(())
        }
    }

    /// The answer to a hart status query: the status on success, else the error. It is a fatal error on a status value other than 0 to 6.
    pub fn into_hart_status(&self) -> (r: Result<HartStatus, SBIError>)
        requires
            -9 <= self.error <= 0,
            self.error == 0 ==> 0 <= self.value <= 6,
        ensures
            self.error == 0 ==> r == Ok::<HartStatus, SBIError>(hart_status_of(self.value as int)),
            self.error != 0 ==> r == Err::<HartStatus, SBIError>(sbi_error_of(self.error as int)),
    {
        let error = self.get_sbi_error();
        if error == SBIError::Success {
            Ok(HartStatus::from_value(self.value))
        } else {
            Err(error)
        }
    }
}

/// The implementations of the SBI.
#[derive(Debug, Clone, Copy, PartialEq, Eq, Structural)]
pub enum SBIImplement {
    BerkeleyBootLoader,
    OpenSBI,
    Xvisor,
    KVM,
    RustSBI,
    Diosix,
    Coffer,
    XenProj,
}

impl SBIImplement {
    /// The implementation whose identifier is `value`. It is a fatal error on any other
    /// value than 0 to 7.
    pub fn from_value(value: isize) -> (r: SBIImplement)
        requires
            0 <= value <= 7,
        ensures
            value == 0 <==> r == SBIImplement::BerkeleyBootLoader,
            value == 1 <==> r == SBIImplement::OpenSBI,
            value == 2 <==> r == SBIImplement::Xvisor,
            value == 3 <==> r == SBIImplement::KVM,
            value == 4 <==> r == SBIImplement::RustSBI,
            value == 5 <==> r == SBIImplement::Diosix,
            value == 6 <==> r == SBIImplement::Coffer,
            value == 7 <==> r == SBIImplement::XenProj,
    {
        match value {
            0 => SBIImplement::BerkeleyBootLoader,
            1 => SBIImplement::OpenSBI,
            2 => SBIImplement::Xvisor,
            3 => SBIImplement::KVM,
            4 => SBIImplement::RustSBI,
            5 => SBIImplement::Diosix,
            6 => SBIImplement::Coffer,
            _ => SBIImplement::XenProj,
        }
    }
}

/// The states of a hart.
#[derive(Debug, Clone, Copy, PartialEq, Eq, Structural)]
pub enum HartStatus {
    Started,
    Stopped,
    StartPending,
    StopPending,
    Suspended,
    SuspendPending,
    ResumePending,
}

/// The state whose value is `value`, for the seven values from 0 to 6.
pub open spec fn hart_status_of(value: int) -> HartStatus {
    if value == 0 {
        HartStatus::Started
    } else if value == 1 {
        HartStatus::Stopped
    } else if value == 2 {
        HartStatus::StartPending
    } else if value == 3 {
        HartStatus::StopPending
    } else if value == 4 {
        HartStatus::Suspended
    } else if value == 5 {
        HartStatus::SuspendPending
    } else {
        HartStatus::ResumePending
    }
}

impl HartStatus {
    /// The state whose value is `value`. It is a fatal error on any other value than 0 to 6.
    pub fn from_value(value: isize) -> (r: HartStatus)
        requires
            0 <= value <= 6,
        ensures
            r == hart_status_of(value as int),
    {
        match value {
            0 => HartStatus::Started,
            1 => HartStatus::Stopped,
            2 => HartStatus::StartPending,
            3 => HartStatus::StopPending,
            4 => HartStatus::Suspended,
            5 => HartStatus::SuspendPending,
            _ => HartStatus::ResumePending,
        }
    }
}

} // verus!
