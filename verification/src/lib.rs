mod cancel;
mod co_pool;
pub mod chan;
pub mod channel;
mod config;
mod coroutine_impl;
mod errors;
mod io_wait;
pub mod map_btree;
pub mod map_hash;
mod once;
mod park;
pub mod pool;
mod reg_context;
pub mod scheduler;
pub mod select;
mod stack;
mod strings;
mod sync_hash_map;
mod sync_vec;
mod tick;
pub mod time;
mod timer;
mod wrapper;
mod yield_now;

pub use cancel::{Cancel, CancelIoData};
pub use co_pool::CoroutinePool;
pub use chan::{ChanModel, SendPoll};
pub use channel::{
    bounded, channel, channel_buf, unbounded, BoundedSender, ChanStream, Receiver, Sender,
    TryRecvError, TrySendError,
};
pub use config::{config, Config, DEFAULT_STACK_SIZE};
pub use io_wait::{io_wait_step, IoWaitStep};
pub use coroutine_impl::{
    Builder, CoStatus, Coroutine, CoroutineImpl, Done, DropVerdict, JoinError, Step, TaskEnd,
    TaskSpec,
};
pub use park::{Park, ParkDecision, ParkError, ParkState};
pub use pool::{Pool, Task};
pub use reg_context::RegContext;
pub use scheduler::{
    is_coroutine, park, park_timeout, spawn, JoinHandle, RunEvent, Scheduler, Spawn,
};
pub use select::{select_first, CQueue};
pub use tick::Ticker;
pub use stack::Stack;
pub use timer::{TimerEntry, TimerWheel};
pub use errors::{new, Error, FromError};
pub use once::Once;
pub use strings::{index, index_func};
pub use sync_hash_map::SyncHashMapImpl;
pub use sync_vec::SyncVecImpl;
pub use wrapper::SyncWrapper;
pub use yield_now::{get_co_para, yield_now};

/// The ordered map under its conventional name.
pub use map_btree::SyncMapImpl as SyncBtreeMap;
/// The hashed map under its conventional name.
pub use map_hash::SyncMapImpl as SyncHashMap;
/// The growable sequence under its conventional name.
pub use sync_vec::SyncVecImpl as SyncVec;
pub use time::{Span, Time};
