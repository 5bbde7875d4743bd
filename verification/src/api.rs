//! What the control interface answers.
use vstd::prelude::*;

use crate::config::ApiResponse;
use crate::config::ConfigError;
use crate::config::ConfigUpdate;
use crate::config::ServerConfig;
use crate::config::ServerStatus;
use crate::forward::stream::StatHandle;
use crate::net_text::ip_of;

verus! {

/// The answer to `GET /api/status`.
pub fn status(config: &ServerConfig, stat: &StatHandle) -> (r: ApiResponse<ServerStatus>)
    ensures
        r.success,
        r.message@ == "OK"@,
        r.data matches Some(s) && s.server_address@ == config.address() && s.connections
            == stat.tcp_connection_count && s.uplink_bytes == stat.uplink_written
            && s.downlink_bytes == stat.downlink_written,
{
    ApiResponse {
        success: true,
        message: "OK".to_string(),
        data: Some(
            ServerStatus {
                server_address: config.get_address(),
                connections: stat.tcp_connection_count,
                uplink_bytes: stat.uplink_written,
                downlink_bytes: stat.downlink_written,
            },
        ),
    }
}

/// The answer to `POST /api/config`. The new address has to spell an IP address; a refused update
/// changes nothing.
pub fn update_config(config: &mut ServerConfig, update: ConfigUpdate) -> (r: ApiResponse<()>)
    requires
        old(config).wf(),
    ensures
        r.success == (ip_of(update.server_address@) is Some),
        r.message@ == (if r.success {
            "配置已更新"@
        } else {
            ConfigError::InvalidAddress.text()
        }),
        r.data is None,
        final(config).list() == (if r.success && !old(config).list().contains(
            update.server_address@,
        ) {
            old(config).list().push(update.server_address@)
        } else {
            old(config).list()
        }),
        final(config).current_index == old(config).current_index,
        final(config).wf(),
{
    match config.update_address(update.server_address) {
        Ok(()) => ApiResponse { success: true, message: "配置已更新".to_string(), data: None },
        Err(e) => ApiResponse { success: false, message: e.message(), data: None },
    }
}

/// A client that asks for the status is told the server in use and the counts as they are.
pub proof fn status_is_told(
    config: &ServerConfig,
    address: String,
    stat: &StatHandle,
    r: ApiResponse<ServerStatus>,
)
    requires
        call_ensures(ServerConfig::get_address, (config,), address),
        call_ensures(status, (config, stat), r),
    ensures
        r.success,
        r.data matches Some(s) && s.server_address@ == address@ && s.connections
            == stat.tcp_connection_count && s.uplink_bytes == stat.uplink_written
            && s.downlink_bytes == stat.downlink_written,
{
}

/// An update succeeds exactly with an IP address. Then the address is listed, once; else nothing changes.
/// The server in use stays.
pub proof fn updates_list_addresses(
    config: &mut ServerConfig,
    update: ConfigUpdate,
    r: ApiResponse<()>,
    before: String,
    after: String,
)
    requires
        config.wf(),
        config.addresses@.len() > 0,
        call_ensures(ServerConfig::get_address, (&*old(config),), before),
        call_ensures(update_config, (config, update), r),
        call_ensures(ServerConfig::get_address, (&*final(config),), after),
    ensures
        r.success <==> ip_of(update.server_address@) is Some,
        r.success ==> final(config).list().contains(update.server_address@),
        !r.success ==> final(config).list() == old(config).list() && r.message@
            == "Invalid IP address format"@,
        old(config).list().contains(update.server_address@) ==> final(config).list() == old(config).list(),
        old(config).list().is_prefix_of(final(config).list()),
        final(config).list().len() <= old(config).list().len() + 1,
        after@ == before@,
{
    let a = old(config).list();
    if r.success && !a.contains(update.server_address@) {
        assert(a.push(update.server_address@).last() == update.server_address@);
    }
}

} // verus!
