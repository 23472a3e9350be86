//! Routing of one client over several Kimi subscriptions: the rules, without the input and output.

pub mod account_laws;
pub mod accounts;
pub mod clock;
pub mod control;
pub mod control_laws;
pub mod gui;
pub mod icon;
pub mod json;
pub mod kimi_user;
pub mod laws;
pub mod message_laws;
pub mod model;
pub mod private_fs;
pub mod protocol;
pub mod router;
pub mod router_status;
pub mod routing_laws;
pub mod state;
pub mod state_laws;
pub mod table;
pub mod text;
pub mod text_laws;
pub mod window_laws;
