//! Decision core of a public-stage `SeaDrop` sniper.
//!
//! A snipe mints from a public stage the moment it opens: every transaction is built from on-chain
//! data and signed beforehand, and at that moment the same bytes go to every endpoint at once. This
//! crate settles what to do; reading, signing, sleeping and sending are the caller's.
//!
//! - [`run`] leads through a snipe; [`locate`], [`endpoints`], [`seadrop`], [`funding`], [`arming`],
//!   [`timing`], [`blast`] and [`outcome`] settle its parts.
//! - [`bot`] leads through the chats from which snipes are started; [`config`], [`wizard`],
//!   [`confirm`], [`manifest`], [`telegram`] and [`actions`] settle its parts.
//! - [`text`], [`uint`], [`hexdata`], [`json`], [`rpc_url`], [`chain`], [`chains`], [`clock`] and
//!   [`snipe`] hold what both need.

pub mod actions;
pub mod arming;
pub mod blast;
pub mod bot;
pub mod chain;
pub mod chains;
pub mod clock;
pub mod config;
pub mod confirm;
pub mod endpoints;
pub mod funding;
pub mod hexdata;
pub mod json;
pub mod locate;
pub mod manifest;
pub mod outcome;
pub mod rpc_url;
pub mod run;
pub mod seadrop;
pub mod snipe;
pub mod telegram;
pub mod text;
pub mod timing;
pub mod uint;
pub mod wizard;
