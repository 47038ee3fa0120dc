//! The logic of MindBell, a wearable bell that vibrates on a schedule.
//!
//! The device sleeps almost all the time. It wakes for a signal of its schedule,
//! vibrates, corrects its clock and sleeps until the next one. A phone sets the
//! time and the schedule.

pub mod button;
pub mod bytes;
pub mod calibration;
pub mod clock_laws;
pub mod clock_promises;
pub mod cycle_laws;
pub mod device_promises;
pub mod drift;
pub mod message;
pub mod motor;
pub mod schedule;
pub mod schedule_laws;
pub mod schedule_promises;
pub mod sleep;
pub mod wake;
pub mod window;
