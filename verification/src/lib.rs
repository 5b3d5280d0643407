//! Session registry and buzz lock for a live, multi-team buzzer quiz.
//!
//! A [`SessionRegistry`] owns every live [`Session`]. Each session has a fixed
//! roster of three [`Team`]s and one session-wide buzz lock: the first team to
//! buzz holds it until it is released. Sessions expire once they are older
//! than a time-to-live.
//!
//! All state is plain data, and every operation is a function from the state
//! and its arguments to the new state and an outcome. The hosting process
//! decides how the registry is shared between its tasks.

pub mod clock;
pub mod ids;
pub mod laws;
pub mod models;
pub mod registry;
pub mod routes;
pub mod session;
pub mod utils;

pub use models::{Question, Session, SessionView, Team, TeamView, Timestamp};
pub use registry::SessionRegistry;
pub use routes::{
    close_session, get_session_id, get_session_team_info, modify_session_team_info,
    release_buzz_lock, set_buzz_lock_owned, start_session,
};
pub use session::{BuzzOutcome, NotFound};
pub use utils::cleanup_sessions;
