pub mod allow_from_ref;
pub mod identifier;
pub mod schema_helpers;
pub mod wan_via_target;
pub mod zone_ref;
pub mod config_location;
pub mod port;
pub mod mac;
pub mod ip;
