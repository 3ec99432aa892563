//! The server's configuration and its per-connection routing decision.
use vstd::prelude::*;
use vstd::utf8::encode_utf8;

use crate::auth::{derive_key_spec, kdf};
use crate::dispatch::{resolve_spec, TlsAddrs};
use crate::mode::{authenticate, authenticate_spec, route_spec, Route, V3Mode};
use crate::text::lower_of;

verus! {

/// Where the server sends one inbound connection.
#[derive(Clone, Debug, PartialEq, Eq)]
pub enum ConnectionPlan {
    /// An authenticated tunnel: splice to this backend address.
    Backend(String),
    /// Not authenticated: splice to this real TLS server.
    Fallback(String),
    /// Close the connection.
    Close,
}

/// The server's configuration, shared read-only by all connections.
#[derive(Clone, Debug)]
pub struct ShadowTlsServer {
    listen_addr: String,
    target_addr: String,
    tls_addr: TlsAddrs,
    password: String,
    nodelay: bool,
    fastopen: bool,
    v3: V3Mode,
}

impl ShadowTlsServer {
    pub closed spec fn listen_addr_view(&self) -> Seq<char> {
        self.listen_addr@
    }

    pub closed spec fn target_addr_view(&self) -> Seq<char> {
        self.target_addr@
    }

    pub closed spec fn tls_addr_view(&self) -> TlsAddrs {
        self.tls_addr
    }

    pub closed spec fn password_view(&self) -> Seq<char> {
        self.password@
    }

    pub closed spec fn nodelay_view(&self) -> bool {
        self.nodelay
    }

    pub closed spec fn fastopen_view(&self) -> bool {
        self.fastopen
    }

    pub closed spec fn mode_view(&self) -> V3Mode {
        self.v3
    }

    /// Gathers the server's settings.
    pub fn new(
        listen_addr: String,
        target_addr: String,
        tls_addr: TlsAddrs,
        password: String,
        nodelay: bool,
        fastopen: bool,
        v3: V3Mode,
    ) -> (r: ShadowTlsServer)
        ensures
            r.listen_addr_view() == listen_addr@,
            r.target_addr_view() == target_addr@,
            r.tls_addr_view() == tls_addr,
            r.password_view() == password@,
            r.nodelay_view() == nodelay,
            r.fastopen_view() == fastopen,
            r.mode_view() == v3,
    {
        ShadowTlsServer { listen_addr, target_addr, tls_addr, password, nodelay, fastopen, v3 }
    }

    pub fn listen_addr(&self) -> (r: &String)
        ensures
            r@ == self.listen_addr_view(),
    {
        &self.listen_addr
    }

    pub fn target_addr(&self) -> (r: &String)
        ensures
            r@ == self.target_addr_view(),
    {
        &self.target_addr
    }

    pub fn tls_addr(&self) -> (r: &TlsAddrs)
        ensures
            *r == self.tls_addr_view(),
    {
        &self.tls_addr
    }

    pub fn nodelay(&self) -> (r: bool)
        ensures
            r == self.nodelay_view(),
    {
        self.nodelay
    }

    pub fn fastopen(&self) -> (r: bool)
        ensures
            r == self.fastopen_view(),
    {
        self.fastopen
    }

    pub fn mode(&self) -> (r: V3Mode)
        ensures
            r == self.mode_view(),
    {
        self.v3
    }

    /// Decides one connection from its observed SNI, the connection's salt,
    /// and the first bytes it sent (a full tag window, or fewer if it closed
    /// first). The session key is derived from the password and the salt, and
    /// the tag covers the salt.
    pub fn plan(&self, sni: Option<&str>, salt: &[u8], received: &[u8]) -> (r: ConnectionPlan)
        ensures
            ({
                let key = derive_key_spec(encode_utf8(self.password_view()), salt@);
                let outcome = authenticate_spec(self.mode_view(), key, salt@, received@);
                let t = self.tls_addr_view();
                match route_spec(outcome) {
                    Route::Backend => r is Backend && r->Backend_0@ == self.target_addr_view(),
                    Route::Fallback => r is Fallback && r->Fallback_0@ == resolve_spec(
                        t.entries(),
                        t.fallback_view(),
                        t.policy(),
                        match sni {
                            Some(s) => Some(lower_of(s@)),
                            None => None,
                        },
                    ),
                    Route::Close => r == ConnectionPlan::Close,
                }
            }),
    {
        let key = kdf(self.password.as_str().as_bytes(), salt);
        let outcome = authenticate(self.v3, &key, salt, received);
        match crate::mode::route(outcome) {
            Route::Backend => ConnectionPlan::Backend(self.target_addr.clone()),
            Route::Fallback => ConnectionPlan::Fallback(self.tls_addr.resolve(sni)),
            Route::Close => ConnectionPlan::Close,
        }
    }
}

} // verus!
