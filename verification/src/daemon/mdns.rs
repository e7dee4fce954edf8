//! How the daemon advertises its service on the local network.

use vstd::prelude::*;
use vstd::string::*;

use crate::text::{decimal, decimal_string, text_option};

verus! {

/// The type of the service.
pub const SERVICE_TYPE: &'static str = "_usbip._tcp.local.";

/// What is advertised.
#[derive(Debug)]
pub struct Advertisement {
    /// The name of the service.
    pub instance_name: String,
    /// The name of the host.
    pub host: String,
    pub port: u16,
    /// Names and values.
    pub properties: Vec<(String, String)>,
}

/// The name of this host, or another where it has none.
pub fn hostname_or_default(hostname: Option<String>) -> (s: String)
    ensures
        s@ == match text_option(hostname) {
            Some(h) => h,
            None => "extender"@,
        },
{
    match hostname {
        Some(h) => h,
        None => "extender".to_owned(),
    }
}

/// What is advertised for a host, a version of the daemon and a number of
/// devices on offer.
pub fn advertisement(hostname: &str, port: u16, version: &str, devices: u64) -> (a: Advertisement)
    ensures
        a.instance_name@ == "Extender on "@ + hostname@,
        a.host@ == hostname@ + ".local."@,
        a.port == port,
        a.properties@.len() == 2,
        a.properties@[0].0@ == "version"@,
        a.properties@[0].1@ == version@,
        a.properties@[1].0@ == "devices"@,
        a.properties@[1].1@ == decimal(devices as nat),
{
    let mut properties: Vec<(String, String)> = Vec::new();
    properties.push(("version".to_owned(), version.to_owned()));
    properties.push(("devices".to_owned(), decimal_string(devices)));
    Advertisement {
        instance_name: "Extender on ".to_owned().concat(hostname),
        host: hostname.to_owned().concat(".local."),
        port,
        properties,
    }
}

/// The advertisement names the host in the name of the service and, in the local
/// domain, as the host, and gives the port that was given.
pub proof fn law_advertised(
    hostname: &str,
    port: u16,
    version: &str,
    devices: u64,
    a: Advertisement,
)
    requires
        call_ensures(advertisement, (hostname, port, version, devices), a),
    ensures
        a.port == port,
        a.host@.len() == hostname@.len() + 7,
        a.host@.take(hostname@.len() as int) == hostname@,
        a.instance_name@.len() == 12 + hostname@.len(),
        a.instance_name@.skip(12) == hostname@,
        a.properties@.len() == 2,
        a.properties@[0].1@ == version@,
        a.properties@[1].1@ == decimal(devices as nat),
{
    reveal_strlit(".local.");
    reveal_strlit("Extender on ");
    assert(a.host@.take(hostname@.len() as int) =~= hostname@);
    assert(a.instance_name@.skip(12) =~= hostname@);
}

} // verus!
