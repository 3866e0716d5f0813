//! Frame orchestration core: a fixed-timestep clock, an entangled mailbox
//! pair, and the decision logic of the frame driver, the render loop and the
//! thread that hosts it.
pub mod clock;
pub mod mailbox;
pub mod render_loop;
pub mod stage;
pub mod thread;
