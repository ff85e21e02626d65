//! Process configuration: the store connection, the credential and session
//! file paths, and the optional settings for delivering the login QR code
//! over mail. Loading it from the environment is the caller's business.

use vstd::prelude::*;

verus! {

/// The whole process configuration.
#[derive(Debug, Clone)]
pub struct Config {
    pub qrcode: Option<QRCodeConfig>,
    pub mongodb: MongoDBConfig,
    pub session_file: String,
    pub device_file: String,
}

impl Default for Config {
    /// The defaults: no QR-code mailing, the local store, the conventional
    /// session and device file names.
    fn default() -> (r: Self)
        ensures
            r.qrcode is None,
            r.mongodb.uri@ == "mongodb://localhost:27017"@,
            r.mongodb.database@ == "im-bridging"@,
            r.session_file@ == "session.token"@,
            r.device_file@ == "device.json"@,
    {
        Config {
            qrcode: None,
            mongodb: MongoDBConfig::default(),
            session_file: "session.token".to_owned(),
            device_file: "device.json".to_owned(),
        }
    }
}

/// Where the document store lives.
#[derive(Debug, Clone)]
pub struct MongoDBConfig {
    pub uri: String,
    pub database: String,
}

impl Default for MongoDBConfig {
    fn default() -> (r: Self)
        ensures
            r.uri@ == "mongodb://localhost:27017"@,
            r.database@ == "im-bridging"@,
    {
        MongoDBConfig {
            uri: "mongodb://localhost:27017".to_owned(),
            database: "im-bridging".to_owned(),
        }
    }
}

/// How to mail the login QR code out.
#[derive(Debug, Clone)]
pub struct QRCodeConfig {
    pub apikey: String,
    pub domain: String,
    pub to: String,
}

} // verus!
