//! minipot.yml: the project configuration.

use vstd::prelude::*;
use vstd::string::StringExecFns;
use crate::downloadable::Downloadable;
use crate::text::{trim, trim_str};

verus! {

pub const CONFIG_FILE: &'static str = "minipot.yml";

pub struct MinipotConfig {
    pub server: ServerConfig,
    pub bots: Vec<BotConfig>,
}

pub struct ServerConfig {
    pub version: String,
    pub server_type: String,
    pub port: u16,
    pub plugins: Vec<Downloadable>,
    pub jvm_flags: Vec<String>,
    /// Commands sent to the Paper console as soon as the server is ready.
    pub startup_commands: Vec<String>,
}

pub struct BotConfig {
    pub name: String,
    pub script: Option<String>,
}

impl MinipotConfig {
    /// A configuration for Paper 1.21.4 on port 25565 with the usual heap
    /// and garbage-collector flags, no plugins, no startup commands, no bots.
    pub fn default() -> (r: Self)
        ensures
            r.server.version@ == "1.21.4"@,
            r.server.server_type@ == "paper"@,
            r.server.port == 25565,
            r.server.plugins@.len() == 0,
            r.server.jvm_flags@.len() == 3,
            r.server.jvm_flags@[0]@ == "-Xms512M"@,
            r.server.jvm_flags@[1]@ == "-Xmx2G"@,
            r.server.jvm_flags@[2]@ == "-XX:+UseG1GC"@,
            r.server.startup_commands@.len() == 0,
            r.bots@.len() == 0,
    {
        let mut jvm_flags: Vec<String> = Vec::new();
        jvm_flags.push(String::from_str("-Xms512M"));
        jvm_flags.push(String::from_str("-Xmx2G"));
        jvm_flags.push(String::from_str("-XX:+UseG1GC"));
        MinipotConfig {
            server: ServerConfig {
                version: String::from_str("1.21.4"),
                server_type: String::from_str("paper"),
                port: 25565,
                plugins: Vec::new(),
                jvm_flags,
                startup_commands: Vec::new(),
            },
            bots: Vec::new(),
        }
    }

    /// The server directory, relative to the project directory.
    pub fn server_dir(&self) -> (r: String)
        ensures
            r@ == "minipot-server"@,
    {
        String::from_str("minipot-server")
    }

    /// Whether minipot.yml sets a Paper version (anything but white space).
    pub fn has_server_version(&self) -> (r: bool)
        ensures
            r == (trim(self.server.version@).len() > 0),
    {
        let t = trim_str(self.server.version.as_str());
        !t.as_str().is_empty()
    }
}

} // verus!
