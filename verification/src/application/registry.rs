use vstd::prelude::*;

pub mod client;
pub mod utils;

verus! {

/// The port an instance serves on, and whether it is open.
#[derive(Clone, Copy, Debug, PartialEq, Eq, Structural)]
pub struct Port {
    pub port: u16,
    pub enabled: bool,
}

/// The data center an instance runs in.
#[derive(Debug)]
pub struct DataCenterInfo {
    pub class: String,
    pub name: String,
}

/// How an instance describes itself to the directory service.
#[derive(Debug)]
pub struct Instance {
    pub host_name: String,
    pub app: String,
    pub ip_addr: String,
    pub status: String,
    pub port: Port,
    pub vip_address: String,
    pub data_center_info: DataCenterInfo,
    pub instance_id: String,
}

} // verus!
