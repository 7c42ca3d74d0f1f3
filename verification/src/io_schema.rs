//! Request and response shapes of the plain JSON API surface, kept as
//! bare data alongside the OpenAPI shapes they parallel.

use vstd::prelude::*;

verus! {

#[derive(Debug, Clone, PartialEq, Eq)]
pub struct Login {
    pub email: String,
    pub password: String,
}

#[derive(Debug, Clone, PartialEq, Eq)]
pub struct LoginResp {
    pub token: String,
}

/// A request to provision a device.
#[derive(Debug, Clone, PartialEq, Eq)]
pub struct DeviceCreateReq {
    pub name: String,
    pub schema_id: String,
    pub labels: Vec<String>,
    pub mqtt_password: String,
}

/// A partial update of a device record.
#[derive(Debug, Clone, PartialEq, Eq)]
pub struct DeviceUpdateReq {
    pub name: Option<String>,
    pub is_active: Option<bool>,
    pub labels: Option<Vec<String>>,
    pub schema_id: Option<String>,
}

#[derive(Debug, Clone, PartialEq, Eq)]
pub struct SchemaCreateReq {
    pub name: String,
}

#[derive(Debug, Clone, PartialEq, Eq)]
pub struct SchemaUpdateReq {
    pub name: Option<String>,
}

} // verus!
