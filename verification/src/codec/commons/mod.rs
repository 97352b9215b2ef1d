pub mod var_uint;
pub mod var_str;
pub mod inventory;
pub mod net_addr;
pub mod net_addr_time;
pub mod clock;
