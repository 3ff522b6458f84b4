//! Process configuration: the transport credentials, the notification
//! gateway identity and recipients, and the optional telemetry database
//! settings. Reading the values from the environment is the surrounding
//! program's business; assembling them is checked here.

use vstd::prelude::*;

verus! {

/// Everything the process needs at start-up. Missing required values are
/// a start-up failure; the telemetry settings are optional as a group.
#[derive(Debug)]
pub struct Config {
    pub ttn_app_id: String,
    pub ttn_access_key: String,
    pub threema_from: String,
    pub threema_to: Vec<String>,
    pub threema_secret: String,
    pub threema_private_key: String,
    pub influxdb: Option<InfluxConfig>,
}

/// Connection settings of the time-series database.
#[derive(Debug)]
pub struct InfluxConfig {
    pub user: String,
    pub pass: String,
    pub db: String,
    pub url: String,
}

impl InfluxConfig {
    /// Assembles the telemetry settings from their individually optional
    /// parts: the group is present exactly when every part is.
    pub fn from_parts(
        user: Option<String>,
        pass: Option<String>,
        db: Option<String>,
        url: Option<String>,
    ) -> (r: Option<InfluxConfig>)
        ensures
            match r {
                Some(c) => user == Some(c.user) && pass == Some(c.pass) && db == Some(c.db) && url
                    == Some(c.url),
                None => user is None || pass is None || db is None || url is None,
            },
    {
        match (user, pass, db, url) {
            (Some(user), Some(pass), Some(db), Some(url)) => Some(
                InfluxConfig { user, pass, db, url },
            ),
            _ => None,
        }
    }
}

} // verus!
