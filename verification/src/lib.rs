//! A gas-metered batch-call dispatcher for an account-based virtual machine.
//!
//! Given parallel lists of target addresses, value transfers, call payloads
//! and gas limits, the dispatcher executes each sub-call in sequence against
//! a host that meters gas, deciding after every sub-call whether to continue,
//! stop, or abort the whole batch according to a caller-selected policy.
//!
//! The host capabilities — gas accountant, call executor, event emitter and
//! account-code inspector — live in [`host`]; the dispatcher itself in
//! [`batch`]; its mathematical model in [`model`]; general properties proved
//! of the model in [`laws`]; and a deterministic test harness in [`mock`].

pub mod batch;
pub mod encoding;
pub mod host;
pub mod laws;
pub mod mock;
pub mod model;
pub mod types;

pub use batch::ARRAY_LIMIT;
pub use batch::BatchInput;
pub use batch::BatchPrecompile;
pub use batch::CALL_DATA_LIMIT;
pub use batch::log_subcall_failed;
pub use batch::log_subcall_succeeded;
pub use host::CallRecord;
pub use host::Host;
pub use host::SubcallBehavior;
pub use model::Action;
pub use model::LOG_SUBCALL_FAILED;
pub use model::LOG_SUBCALL_SUCCEEDED;
pub use model::NOT_CALLABLE_MESSAGE;
pub use model::RECOGNIZED_MARKER_CODE;
pub use types::Address;
pub use types::CostSchedule;
pub use types::ExitErrorKind;
pub use types::Log;
pub use types::PrecompileResult;
pub use types::SubcallExit;
pub use types::Word256;
