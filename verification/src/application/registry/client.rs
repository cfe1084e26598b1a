use crate::application::env::AppEnv;
use crate::application::registry::{DataCenterInfo, Instance, Port};
use crate::text::{decimal, lowercase_of, push_decimal, to_lowercase, to_uppercase, uppercase_of};
use vstd::prelude::*;
use vstd::string::*;

verus! {

/// Draws a random identifier with `Uuid::new_v4` of the `uuid` crate and
/// writes it out. Nothing is claimed of the identifier drawn.
#[verifier::external_body]
fn fresh_instance_id() -> (id: String) {
    uuid::Uuid::new_v4().to_string()
}

/// What this instance needs to announce itself to the directory service
/// and to keep the announcement alive.
#[derive(Debug)]
pub struct EurekaRegisteryClient {
    pub instance_id: String,
    pub hostname: String,
    pub ip_address: String,
    pub eureka_port: u16,
    pub grpc_port: u16,
    pub app_name: String,
    pub data_center_info_name: String,
    pub retry_attempts: u16,
}

impl EurekaRegisteryClient {
    /// The client that `env` configures, under a newly drawn instance
    /// identifier.
    pub fn new(env: &AppEnv) -> (client: Self)
        ensures
            client.hostname == env.registry.hostname,
            client.ip_address == env.registry.ip_address,
            client.eureka_port == env.registry.port,
            client.retry_attempts == env.registry.retry_attempts,
            client.grpc_port == env.grpc.port,
            client.data_center_info_name == env.registry.data_center_info_name,
            client.app_name == env.app_name,
    {
        EurekaRegisteryClient {
            instance_id: fresh_instance_id(),
            hostname: env.registry.hostname.clone(),
            ip_address: env.registry.ip_address.clone(),
            eureka_port: env.registry.port,
            retry_attempts: env.registry.retry_attempts,
            grpc_port: env.grpc.port,
            data_center_info_name: env.registry.data_center_info_name.clone(),
            app_name: env.app_name.clone(),
        }
    }

    /// The description this instance registers with: it is up, serves on
    /// its RPC port, goes by the application's name in upper case and is
    /// reached at that name in lower case.
    pub fn get_instance(&self) -> (instance: Instance)
        ensures
            instance.instance_id@ == self.instance_id@,
            instance.host_name@ == self.hostname@,
            instance.app@ == uppercase_of(self.app_name@),
            instance.ip_addr@ == self.ip_address@,
            instance.vip_address@ == lowercase_of(self.app_name@),
            instance.status@ == "UP"@,
            instance.port == (Port { port: self.grpc_port, enabled: true }),
            instance.data_center_info.class@
                == "com.netflix.appinfo.InstanceInfo$DefaultDataCenterInfo"@,
            instance.data_center_info.name@ == self.data_center_info_name@,
    {
        Instance {
            instance_id: self.instance_id.clone(),
            host_name: self.hostname.clone(),
            app: to_uppercase(self.app_name.as_str()),
            ip_addr: self.ip_address.clone(),
            vip_address: to_lowercase(self.app_name.as_str()),
            status: String::from_str("UP"),
            port: Port { port: self.grpc_port, enabled: true },
            data_center_info: DataCenterInfo {
                class: String::from_str("com.netflix.appinfo.InstanceInfo$DefaultDataCenterInfo"),
                name: self.data_center_info_name.clone(),
            },
        }
    }

    /// The directory service's address.
    pub open spec fn base_url(hostname: Seq<char>, port: u16) -> Seq<char> {
        "http://"@ + hostname + ":"@ + decimal(port as int) + "/eureka"@
    }

    /// Writes the directory service's address.
    pub fn eureka_base(&self) -> (base: String)
        ensures
            base@ == Self::base_url(self.hostname@, self.eureka_port),
    {
        let mut base = String::from_str("http://");
        base.append(self.hostname.as_str());
        base.append(":");
        push_decimal(&mut base, self.eureka_port as i64);
        base.append("/eureka");
        base
    }
}

} // verus!
