//! A server and what it is made of.

use crate::acl::AclRouter;
use crate::config::ConnConfig;
use crate::proxy_core::address::Address;
use crate::proxy_core::connection::ConnectionManager;
use crate::proxy_core::dns::DnsError;
use crate::proxy_core::hooks::{DirectRouter, OutboundType};
use crate::proxy_core::ip::IpAddr;
use vstd::prelude::*;

verus! {

/// Routes destinations by rules, or all of them directly.
pub enum Router {
    Direct(DirectRouter),
    Acl(AclRouter),
}

impl Router {
    /// Whether private addresses are blocked, so that domains must be looked up first.
    pub fn checks_addresses(&self) -> (r: bool)
        ensures
            r == (match self {
                Router::Direct(d) => d.block_private_ip,
                Router::Acl(a) => a.block_private_ip,
            }),
    {
        match self {
            Router::Direct(d) => d.block_private_ip,
            Router::Acl(a) => a.block_private_ip,
        }
    }

    /// Where a destination is routed to, given its lookup and the outbound that its rule names.
    pub fn route(
        &self,
        addr: &Address,
        lookup: &Result<Vec<IpAddr>, DnsError>,
        matched: Option<&str>,
    ) -> (r: OutboundType)
        ensures
            r@ == (match self {
                Router::Direct(d) => crate::proxy_core::hooks::plain_route(
                    d.block_private_ip,
                    *addr,
                    *lookup,
                ),
                Router::Acl(a) => crate::acl::acl_route(
                    a.engine.outbounds@,
                    a.block_private_ip,
                    *addr,
                    *lookup,
                    crate::acl::picked(matched),
                ),
            }),
    {
        match self {
            Router::Direct(d) => d.route(addr, lookup),
            Router::Acl(a) => a.route(addr, lookup, matched),
        }
    }
}

/// A server: who authenticates, who counts, who routes, and the connections.
pub struct Server<A, S, D> {
    pub authenticator: A,
    pub stats: S,
    pub router: Router,
    pub conn_manager: ConnectionManager,
    pub conn_config: ConnConfig,
    pub dns_cache: D,
}

/// A server that is being put together.
pub struct ServerBuilder<A, S, D> {
    pub authenticator: Option<A>,
    pub stats: Option<S>,
    pub router: Option<Router>,
    pub conn_manager: Option<ConnectionManager>,
    pub conn_config: Option<ConnConfig>,
    pub dns_cache: Option<D>,
}

impl<A, S, D> Server<A, S, D> {
    /// Starts to put a server together.
    pub fn builder() -> (r: ServerBuilder<A, S, D>)
        ensures
            r == empty_builder::<A, S, D>(),
    {
        ServerBuilder::new()
    }
}

/// A builder with nothing set.
pub open spec fn empty_builder<A, S, D>() -> ServerBuilder<A, S, D> {
    ServerBuilder {
        authenticator: None,
        stats: None,
        router: None,
        conn_manager: None,
        conn_config: None,
        dns_cache: None,
    }
}

impl<A, S, D> Default for ServerBuilder<A, S, D> {
    fn default() -> (r: Self)
        ensures
            r == empty_builder::<A, S, D>(),
    {
        ServerBuilder::new()
    }
}

impl<A, S, D> ServerBuilder<A, S, D> {
    /// A builder with nothing set.
    pub fn new() -> (r: Self)
        ensures
            r == empty_builder::<A, S, D>(),
    {
        ServerBuilder {
            authenticator: None,
            stats: None,
            router: None,
            conn_manager: None,
            conn_config: None,
            dns_cache: None,
        }
    }

    /// Sets who authenticates.
    pub fn authenticator(self, auth: A) -> (r: Self)
        ensures
            r == (ServerBuilder { authenticator: Some(auth), ..self }),
    {
        ServerBuilder { authenticator: Some(auth), ..self }
    }

    /// Sets who counts.
    pub fn stats(self, stats: S) -> (r: Self)
        ensures
            r == (ServerBuilder { stats: Some(stats), ..self }),
    {
        ServerBuilder { stats: Some(stats), ..self }
    }

    /// Sets who routes.
    pub fn router(self, router: Router) -> (r: Self)
        ensures
            r == (ServerBuilder { router: Some(router), ..self }),
    {
        ServerBuilder { router: Some(router), ..self }
    }

    /// Sets the connections.
    pub fn conn_manager(self, manager: ConnectionManager) -> (r: Self)
        ensures
            r == (ServerBuilder { conn_manager: Some(manager), ..self }),
    {
        ServerBuilder { conn_manager: Some(manager), ..self }
    }

    /// Sets the settings of connections.
    pub fn conn_config(self, config: ConnConfig) -> (r: Self)
        ensures
            r == (ServerBuilder { conn_config: Some(config), ..self }),
    {
        ServerBuilder { conn_config: Some(config), ..self }
    }

    /// Sets the DNS cache.
    pub fn dns_cache(self, cache: D) -> (r: Self)
        ensures
            r == (ServerBuilder { dns_cache: Some(cache), ..self }),
    {
        ServerBuilder { dns_cache: Some(cache), ..self }
    }

    /// Puts the server together. Without a router everything is routed directly and private
    /// addresses are blocked; without connections there are none yet.
    pub fn build(self) -> (r: Server<A, S, D>)
        requires
            self.dns_cache is Some,
            self.authenticator is Some,
            self.stats is Some,
            self.conn_config is Some,
        ensures
            r.authenticator == self.authenticator->0,
            r.stats == self.stats->0,
            r.conn_config == self.conn_config->0,
            r.dns_cache == self.dns_cache->0,
            match self.router {
                Some(router) => r.router == router,
                None => r.router == Router::Direct(DirectRouter { block_private_ip: true }),
            },
            match self.conn_manager {
                Some(manager) => r.conn_manager == manager,
                None => r.conn_manager.wf() && r.conn_manager@.dom().len() == 0,
            },
    {
        Server {
            authenticator: self.authenticator.unwrap(),
            stats: self.stats.unwrap(),
            router: match self.router {
                Some(router) => router,
                None => Router::Direct(DirectRouter::new(true)),
            },
            conn_manager: match self.conn_manager {
                Some(manager) => manager,
                None => ConnectionManager::new(),
            },
            conn_config: self.conn_config.unwrap(),
            dns_cache: self.dns_cache.unwrap(),
        }
    }
}

} // verus!
