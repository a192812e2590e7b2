//! InputShare: one keyboard and mouse over several computers that form a
//! workspace.
//!
//! The library holds what has to be right for the product's promise, a workspace
//! that survives a full reboot of every machine and converges to the same state
//! on all of them, and it is proved rather than tested to be so.

pub mod addr;
pub mod agent;
pub mod autostart;
pub mod bytes;
pub mod cli;
pub mod clock;
pub mod convergence;
pub mod crypto;
pub mod demo;
pub mod discovery;
pub mod displays;
pub mod document;
pub mod error;
pub mod geometry;
pub mod identity;
pub mod ids;
pub mod input;
pub mod keys;
pub mod layout;
pub mod macos;
pub mod model;
pub mod net_error;
pub mod order;
pub mod peers;
pub mod router;
pub mod session;
pub mod stamp;
pub mod store;
pub mod text;
pub mod ui;
pub mod unsupported;
pub mod watchdog;
pub mod windows;
pub mod wire;

pub use agent::{Agent, AgentError, AgentEvent, AgentResult};
pub use clock::now_ms;
pub use error::{Error, Result};
pub use geometry::{Point, Rect};
pub use identity::{Identity, PubKey};
pub use ids::{MachineId, WorkspaceId};
pub use input::{InputEvent, MouseButton};
pub use layout::{fallback_owner, resolve_cursor, Resolution};
pub use model::{
    DisplayInfo, InputAssignment, MachineRecord, MachineSlot, OfflineEdgeBehavior, Op, Platform,
    Scale, SlotState, WorkspaceDoc, WorkspaceSettings, WorkspaceUpdate,
};
pub use net_error::{NetError, NetResult};
pub use stamp::{Lww, Stamp};
pub use store::{Backup, LocalPrefs, PeerHint, PeerHints, Store};
