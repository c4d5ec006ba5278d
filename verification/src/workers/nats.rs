//! The NATS server: its configuration file and client URL.
use vstd::prelude::*;

use crate::text::{owned, push_str};

verus! {

/// The server binary.
pub const NATS_BIN: &'static str = "/usr/local/bin/nats-server";

/// The systemd unit.
pub const NATS_UNIT: &'static str = "mackes-nats";

/// The JetStream key-value bucket for mesh events.
pub const DEFAULT_BUCKET: &'static str = "mackes-events";

/// The server configuration bound to `control_ip`: client port 4222,
/// monitoring port 8222, JetStream with its store and limits.
pub open spec fn server_config(control_ip: Seq<char>) -> Seq<char> {
    "# Mackes NATS server (Phase B.11 port). Bind control IP\n# set by the install flow.\nhost: \""@
        + control_ip
        + "\"\nport: 4222\nhttp_port: 8222\njetstream {\n    store_dir: \"/var/lib/mackes-nats/jetstream\"\n    max_mem: 64MB\n    max_file: 512MB\n}\n"@
}

/// Renders the server configuration for `control_ip`.
pub fn render_server_config(control_ip: &str) -> (s: String)
    ensures
        s@ == server_config(control_ip@),
{
    let mut s = owned(
        "# Mackes NATS server (Phase B.11 port). Bind control IP\n# set by the install flow.\nhost: \"",
    );
    push_str(&mut s, control_ip);
    push_str(
        &mut s,
        "\"\nport: 4222\nhttp_port: 8222\njetstream {\n    store_dir: \"/var/lib/mackes-nats/jetstream\"\n    max_mem: 64MB\n    max_file: 512MB\n}\n",
    );
    s
}

/// `nats://<host>:4222`.
pub fn control_url(host: &str) -> (s: String)
    ensures
        s@ == "nats://"@ + host@ + ":4222"@,
{
    let mut s = owned("nats://");
    push_str(&mut s, host);
    push_str(&mut s, ":4222");
    s
}

} // verus!
