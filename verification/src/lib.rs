//! The engine of a live looper: everything that decides when a sound is recorded, where it is stored
//! and when it is heard again.
//!
//! The library holds no sample arithmetic and opens no device. It counts frames, places commands on
//! the musical grid, moves layer buffers between two threads and words what the musician reads. A
//! sample, a gain and a tempo pass through it as the bits of their floating-point number.
//!
//! * The grid: `timeline`, `rounding`, `schedule`, `limits`, `click`, `metro`.
//! * The audio thread: `model` states what the engine is, `process` runs it over `track`, `waiting`,
//!   `fx`, `delay`, `bus`, `frame` and `room`.
//! * Between the threads: `queue`, `command`, `fifo`, `duplex`, `pool`.
//! * The control thread: `host`, `start`, `requests`, `action`, `proto` for the window; `console`,
//!   `live`, `display` for the terminal; `desk`, `bridge`, `mapping`, `midi` for a controller.
//! * The devices: `audio`, `survey`, `listing`; what they measure: `measurement`, `calibrate`,
//!   `reading`, `bench`.
//! * Words and numbers: `text`, `single`, `logfile`.
#![allow(unused_imports)]
pub mod action;
pub mod audio;
pub mod bench;
pub mod bridge;
pub mod bus;
pub mod calibrate;
pub mod click;
pub mod command;
pub mod console;
pub mod delay;
pub mod desk;
pub mod display;
pub mod duplex;
pub mod fifo;
pub mod frame;
pub mod fx;
pub mod host;
pub mod limits;
pub mod listing;
pub mod live;
pub mod logfile;
pub mod mapping;
pub mod measurement;
pub mod metro;
pub mod midi;
pub mod model;
pub mod pool;
pub mod process;
pub mod proto;
pub mod queue;
pub mod reading;
pub mod requests;
pub mod room;
pub mod rounding;
pub mod schedule;
pub mod single;
pub mod start;
pub mod survey;
pub mod text;
pub mod timeline;
pub mod track;
pub mod waiting;
