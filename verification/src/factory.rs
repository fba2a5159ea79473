//! Class-factory dispatch: which requests construct an engine instance, which
//! are rejected, and with which status code.
//!
//! The hosting shell hands every request's raw ingredients (which pointers
//! were present, which identifiers they held) to the decisions here and only
//! performs the pointer writes itself.

use vstd::prelude::*;

use crate::guid::guid_eq;
use crate::guid::Guid;
use crate::latch::TokenLatch;
use crate::refcount::ModuleRefCount;

verus! {

/// Status reported across the hosting boundary.
#[derive(Clone, Copy, Debug, PartialEq, Eq, Structural)]
pub enum ComStatus {
    /// Success.
    Success,
    /// Success with a negative answer (the module must stay loaded).
    False,
    /// Generic failure, the boundary's fatal-error status.
    Fail,
    /// An unrecoverable local failure was downgraded at the boundary.
    Unexpected,
    /// The request is not implemented.
    NotImplemented,
    /// A required output slot was missing.
    PointerRequired,
    /// A required argument was missing or malformed.
    InvalidArgument,
    /// Aggregation was requested but is not supported.
    NoAggregation,
    /// The requested interface is not offered.
    NoInterface,
    /// The requested class is not served by this module.
    ClassNotAvailable,
    /// Memory for the reply could not be allocated.
    OutOfMemory,
    /// Self-registration failed.
    SelfRegistrationFailed,
}

/// The numeric result code for a status.
pub open spec fn spec_hresult(s: ComStatus) -> int {
    match s {
        ComStatus::Success => 0,
        ComStatus::False => 1,
        ComStatus::Fail => -2147467259,
        ComStatus::Unexpected => -2147418113,
        ComStatus::NotImplemented => -2147467263,
        ComStatus::PointerRequired => -2147467261,
        ComStatus::InvalidArgument => -2147024809,
        ComStatus::NoAggregation => -2147221232,
        ComStatus::NoInterface => -2147467262,
        ComStatus::ClassNotAvailable => -2147221231,
        ComStatus::OutOfMemory => -2147024882,
        ComStatus::SelfRegistrationFailed => -2147220991,
    }
}

impl ComStatus {
    /// The status as the boundary's numeric result code.
    pub fn hresult(&self) -> (r: i32)
        ensures
            r == spec_hresult(*self),
    {
        match self {
            ComStatus::Success => 0,
            ComStatus::False => 1,
            ComStatus::Fail => -2147467259,
            ComStatus::Unexpected => -2147418113,
            ComStatus::NotImplemented => -2147467263,
            ComStatus::PointerRequired => -2147467261,
            ComStatus::InvalidArgument => -2147024809,
            ComStatus::NoAggregation => -2147221232,
            ComStatus::NoInterface => -2147467262,
            ComStatus::ClassNotAvailable => -2147221231,
            ComStatus::OutOfMemory => -2147024882,
            ComStatus::SelfRegistrationFailed => -2147220991,
        }
    }
}

/// The identifier of the base-unknown interface that every class serves.
pub fn base_unknown_iid() -> (r: Guid)
    ensures
        r == spec_base_unknown_iid(),
{
    Guid { data1: 0, data2: 0, data3: 0, data4: [0xC0u8, 0u8, 0u8, 0u8, 0u8, 0u8, 0u8, 0x46u8] }
}

/// Field-wise value of the base-unknown interface identifier.
pub open spec fn spec_base_unknown_iid() -> Guid {
    Guid {
        data1: 0,
        data2: 0,
        data3: 0,
        data4: [0xC0u8, 0u8, 0u8, 0u8, 0u8, 0u8, 0u8, 0x46u8],
    }
}

/// The identifier of the class-factory interface requested at module level.
pub fn class_factory_iid() -> (r: Guid)
    ensures
        r == spec_class_factory_iid(),
{
    Guid { data1: 1, data2: 0, data3: 0, data4: [0xC0u8, 0u8, 0u8, 0u8, 0u8, 0u8, 0u8, 0x46u8] }
}

/// Field-wise value of the class-factory interface identifier.
pub open spec fn spec_class_factory_iid() -> Guid {
    Guid {
        data1: 1,
        data2: 0,
        data3: 0,
        data4: [0xC0u8, 0u8, 0u8, 0u8, 0u8, 0u8, 0u8, 0x46u8],
    }
}

/// The identifiers under which one engine class answers: its own class
/// identifier and the synthesis and token interfaces it implements. The
/// interface identifiers are fixed by the host's interface definitions and
/// handed in by the shell.
pub struct FactoryConfig {
    /// The engine's declared class identifier.
    pub class_id: Guid,
    /// The synthesis-engine interface identifier.
    pub tts_engine_iid: Guid,
    /// The object-with-token interface identifier.
    pub object_with_token_iid: Guid,
}

/// Which of the supported interfaces a create request asked for.
#[derive(Clone, Copy, Debug, PartialEq, Eq, Structural)]
pub enum RequestedInterface {
    /// The engine class itself or its synthesis interface.
    TtsEngine,
    /// The base-unknown interface.
    BaseUnknown,
    /// The object-with-token interface.
    ObjectWithToken,
}

/// What a create-instance request must answer: construct under one of the
/// supported interfaces, or reject with a specific status.
pub open spec fn spec_create_instance(
    cfg: FactoryConfig,
    out_slot_present: bool,
    riid: Option<Guid>,
    aggregation_requested: bool,
) -> Result<RequestedInterface, ComStatus> {
    if !out_slot_present {
        Result::Err(ComStatus::PointerRequired)
    } else if riid is None {
        Result::Err(ComStatus::InvalidArgument)
    } else if aggregation_requested {
        Result::Err(ComStatus::NoAggregation)
    } else {
        let id = riid->0;
        if id == cfg.class_id || id == cfg.tts_engine_iid {
            Result::Ok(RequestedInterface::TtsEngine)
        } else if id == spec_base_unknown_iid() {
            Result::Ok(RequestedInterface::BaseUnknown)
        } else if id == cfg.object_with_token_iid {
            Result::Ok(RequestedInterface::ObjectWithToken)
        } else {
            Result::Err(ComStatus::NoInterface)
        }
    }
}

/// Decides a create-instance request. A missing output slot is rejected
/// first (the shell zeroes the slot before reporting any error), a missing
/// interface identifier next, then an aggregation request; an identifier
/// outside the supported set gets the no-interface status.
pub fn create_instance_decision(
    cfg: &FactoryConfig,
    out_slot_present: bool,
    riid: Option<&Guid>,
    aggregation_requested: bool,
) -> (r: Result<RequestedInterface, ComStatus>)
    ensures
        r == spec_create_instance(
            *cfg,
            out_slot_present,
            match riid {
                Option::Some(g) => Option::Some(*g),
                Option::None => Option::None,
            },
            aggregation_requested,
        ),
{
    if !out_slot_present {
        return Err(ComStatus::PointerRequired);
    }
    let id = match riid {
        Some(g) => g,
        None => {
            return Err(ComStatus::InvalidArgument);
        },
    };
    if aggregation_requested {
        return Err(ComStatus::NoAggregation);
    }
    if guid_eq(id, &cfg.class_id) || guid_eq(id, &cfg.tts_engine_iid) {
        Ok(RequestedInterface::TtsEngine)
    } else if guid_eq(id, &base_unknown_iid()) {
        Ok(RequestedInterface::BaseUnknown)
    } else if guid_eq(id, &cfg.object_with_token_iid) {
        Ok(RequestedInterface::ObjectWithToken)
    } else {
        Err(ComStatus::NoInterface)
    }
}

/// What a module-level class-object request must answer.
pub open spec fn spec_class_object(
    expected_class: Guid,
    out_slot_present: bool,
    rclsid: Option<Guid>,
    riid: Option<Guid>,
) -> Result<(), ComStatus> {
    if !out_slot_present {
        Result::Err(ComStatus::PointerRequired)
    } else if rclsid is None || riid is None {
        Result::Err(ComStatus::InvalidArgument)
    } else if rclsid->0 != expected_class || riid->0 != spec_class_factory_iid() {
        Result::Err(ComStatus::ClassNotAvailable)
    } else {
        Result::Ok(())
    }
}

/// Decides a module-level class-object request: only this module's class
/// identifier, asked for through the class-factory interface, yields a
/// factory.
pub fn class_object_decision(
    expected_class: &Guid,
    out_slot_present: bool,
    rclsid: Option<&Guid>,
    riid: Option<&Guid>,
) -> (r: Result<(), ComStatus>)
    ensures
        r == spec_class_object(
            *expected_class,
            out_slot_present,
            match rclsid {
                Option::Some(g) => Option::Some(*g),
                Option::None => Option::None,
            },
            match riid {
                Option::Some(g) => Option::Some(*g),
                Option::None => Option::None,
            },
        ),
{
    if !out_slot_present {
        return Err(ComStatus::PointerRequired);
    }
    let (class, iface) = match (rclsid, riid) {
        (Some(c), Some(i)) => (c, i),
        _ => {
            return Err(ComStatus::InvalidArgument);
        },
    };
    if !guid_eq(class, expected_class) || !guid_eq(iface, &class_factory_iid()) {
        Err(ComStatus::ClassNotAvailable)
    } else {
        Ok(())
    }
}

/// Status for the module-unload query: the positive status exactly when only
/// the baseline keep-alive holder remains.
pub fn can_unload_status(refs: &ModuleRefCount) -> (r: ComStatus)
    ensures
        r == (if refs.count() == 1 {
            ComStatus::Success
        } else {
            ComStatus::False
        }),
{
    if refs.module_can_unload() {
        ComStatus::Success
    } else {
        ComStatus::False
    }
}

/// One live engine instance: its assign-once voice token, plus the keep-alive
/// reference it holds from construction to destruction.
pub struct EngineInstance<T> {
    /// The instance's bound voice token, set at most once.
    pub token: TokenLatch<T>,
}

impl<T> EngineInstance<T> {
    /// Constructs an instance and records its keep-alive reference.
    pub fn new(refs: &mut ModuleRefCount) -> (r: EngineInstance<T>)
        requires
            old(refs).count() < u64::MAX,
        ensures
            final(refs).count() == old(refs).count() + 1,
            r.token.token() is None,
    {
        refs.acquire();
        EngineInstance { token: TokenLatch::new() }
    }

    /// Destroys the instance, releasing its keep-alive reference.
    pub fn destroy(self, refs: &mut ModuleRefCount)
        requires
            old(refs).count() > 1,
        ensures
            final(refs).count() == old(refs).count() - 1,
    {
        refs.release();
    }
}

} // verus!
