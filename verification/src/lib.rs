//! Ingestion pipeline for a university course catalog.
//!
//! The pipeline crawls the catalog's listing in batches of pages, reads each
//! course from its listing row and its own page, collapses what a crawl saw
//! twice, merges the result into what earlier crawls left, derives for each
//! course the courses it leads to, and seeds a store with the records.
//!
//! Everything here computes on values: fetching pages, selecting from markup
//! and talking to a database are the caller's part. The functions say what
//! is to be fetched next and take what came back.
//!
//! - [`course`], [`schedule`], [`requirement`], [`listing`], [`review`]: the
//!   records, each with its mathematical value (`deep_view`).
//! - [`value`]: comparison and copying by content; the union of lists.
//! - [`retry`], [`crawl`], [`loader`]: the fetch policy and the crawl as
//!   state machines, page addresses, the assembly of a course.
//! - [`extract`], [`parse`], [`timestamp`]: reading schedules, course pages,
//!   requirement statements and timestamps.
//! - [`corpus`], [`graph`]: duplicates, order, merge against a prior corpus,
//!   and the derived `leading_to` lists.
//! - [`db`], [`idempotence`]: the store, seeding, and the proof that seeding
//!   twice is seeding once.

pub mod corpus;
pub mod course;
pub mod crawl;
pub mod db;
pub mod error;
pub mod extract;
pub mod graph;
pub mod idempotence;
pub mod listing;
pub mod loader;
pub mod parse;
pub mod requirement;
pub mod retry;
pub mod review;
pub mod schedule;
pub mod text;
pub mod timestamp;
pub mod value;
