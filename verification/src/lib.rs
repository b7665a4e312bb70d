//! Score keeping for two-player matchups.
//!
//! Results arrive as text: one line per game, or the fields of a form.
//! [`entry`] reads a single result and [`batch`] a block of lines, all of it
//! or nothing; [`batch`] also checks the entries against the two players of
//! the matchup. [`submission`] puts reading and checking together and says
//! what is to be done with a submission at each step, [`persist`] lays an
//! accepted batch out for storing. From the recorded games [`series`]
//! derives each player's win series and [`chart`] what the win chart shows.
//!
//! [`date`], [`score`] and [`text`] hold the parts that results are made of,
//! [`error`] what can be wrong with them. [`html_base`], [`pages`] and
//! [`routing_utils`] write the pages of the site, [`configuration`] names
//! the environments it runs in, and [`ids`] declares the identifiers.

pub mod batch;
pub mod chart;
pub mod configuration;
pub mod date;
pub mod entry;
pub mod error;
pub mod html_base;
pub mod ids;
pub mod pages;
pub mod persist;
pub mod routing_utils;
pub mod score;
pub mod series;
pub mod submission;
pub mod text;
