//! Resumable export jobs that turn the downloaded chapters of a work into
//! one archive file.
//!
//! A job passes through a fixed sequence of steps ([`step`]). What it does
//! next is decided by the step executor ([`executor`]), which performs
//! nothing itself: it is told what happened and answers what is to be done,
//! so that a run can be taken up again after the process has stopped
//! ([`resume`]). What holds of every run is stated and proved in
//! [`guarantees`].
//!
//! The download step decides which chapters the remote service still has to
//! download ([`download`]); the fetch step decides where each page image is
//! kept ([`fetch`]); the last step packs the chapters into a document
//! archive ([`epub`], [`chapter_plan`], [`pages`]) or an image archive
//! ([`cbz`]) from the listing of their directories ([`assets`]).
//!
//! The records of the store are in [`job`], [`event_log`], [`book`] and
//! [`compile_task`]; what a user is shown and sends is in [`forms`]. How
//! moments are written out is in [`moment`], and how the addresses of the
//! remote service are made is in [`address`].

pub mod address;
pub mod assets;
pub mod book;
pub mod cbz;
pub mod chapter_plan;
pub mod compile_task;
pub mod download;
pub mod epub;
pub mod error;
pub mod event_log;
pub mod executor;
pub mod fetch;
pub mod format;
pub mod forms;
pub mod guarantees;
pub mod job;
pub mod moment;
pub mod pages;
pub mod resume;
pub mod step;
pub mod text;
