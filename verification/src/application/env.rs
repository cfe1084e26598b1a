use crate::cipher::Algorithm;
use vstd::prelude::*;

verus! {

/// The algorithm a configuration selects when it names none.
pub fn def_alg() -> (alg: Algorithm)
    ensures
        alg == Algorithm::Aes256Gcm,
{
    Algorithm::Aes256Gcm
}

/// The cipher's secret and the algorithm it is used with.
#[derive(Debug)]
pub struct CipherConf {
    pub key: String,
    pub alg: Algorithm,
    pub alg_str: String,
}

/// Where the RPC interface listens.
#[derive(Clone, Copy, Debug, PartialEq, Eq, Structural)]
pub struct GrpcConf {
    pub port: u16,
}

/// How this instance announces itself to the directory service.
#[derive(Debug)]
pub struct RegistryConf {
    pub hostname: String,
    pub ip_address: String,
    pub port: u16,
    pub retry_attempts: u16,
    pub data_center_info_name: String,
}

/// Where the document store is and how its connection pool is sized.
#[derive(Debug)]
pub struct DatasourceConf {
    pub hostname: String,
    pub port: u16,
    pub username: Option<String>,
    pub password: Option<String>,
    pub database_name: String,
    pub min_pool_size: Option<u32>,
    pub max_pool_size: Option<u32>,
    pub max_idle_time: Option<u64>,
}

/// The whole configuration, loaded once at startup.
#[derive(Debug)]
pub struct AppEnv {
    pub cipher: CipherConf,
    pub grpc: GrpcConf,
    pub registry: RegistryConf,
    pub app_name: String,
    pub datasource: DatasourceConf,
}

/// A copy of an optional string.
pub fn clone_optional_text(text: &Option<String>) -> (copy: Option<String>)
    ensures
        copy == *text,
{
    match text {
        Some(s) => Some(s.clone()),
        None => None,
    }
}

impl Clone for CipherConf {
    fn clone(&self) -> (copy: Self)
        ensures
            copy == *self,
    {
        CipherConf { key: self.key.clone(), alg: self.alg, alg_str: self.alg_str.clone() }
    }
}

impl Clone for RegistryConf {
    fn clone(&self) -> (copy: Self)
        ensures
            copy == *self,
    {
        RegistryConf {
            hostname: self.hostname.clone(),
            ip_address: self.ip_address.clone(),
            port: self.port,
            retry_attempts: self.retry_attempts,
            data_center_info_name: self.data_center_info_name.clone(),
        }
    }
}

impl Clone for DatasourceConf {
    fn clone(&self) -> (copy: Self)
        ensures
            copy == *self,
    {
        DatasourceConf {
            hostname: self.hostname.clone(),
            port: self.port,
            username: clone_optional_text(&self.username),
            password: clone_optional_text(&self.password),
            database_name: self.database_name.clone(),
            min_pool_size: self.min_pool_size,
            max_pool_size: self.max_pool_size,
            max_idle_time: self.max_idle_time,
        }
    }
}

impl Clone for AppEnv {
    fn clone(&self) -> (copy: Self)
        ensures
            copy == *self,
    {
        AppEnv {
            cipher: self.cipher.clone(),
            grpc: self.grpc,
            registry: self.registry.clone(),
            app_name: self.app_name.clone(),
            datasource: self.datasource.clone(),
        }
    }
}

} // verus!
