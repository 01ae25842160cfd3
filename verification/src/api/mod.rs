//! The control API.
pub mod auth;
pub mod endpoints;
pub mod routes;
pub mod types;

use vstd::prelude::*;
use vstd::string::*;
use crate::api::auth::TokenError;
use crate::api::auth::token_error_text;
use crate::net::{socket_string, SocketAddr};
use crate::net::socket_text;

verus! {

/// The file that holds the address of the API, inside the state directory.
pub const ADDR_FILE: &'static str = "api.addr";

/// The file that holds the token, inside the state directory.
pub const TOKEN_FILE: &'static str = "api.token";

/// Errors of starting the API.
#[derive(Debug)]
pub enum ApiStartError {
    /// The address is not one of this machine alone.
    NonLoopback(SocketAddr),
    /// The token could not be read or made.
    Token(TokenError),
    /// The address could not be bound.
    Bind(String),
}

/// The message shown for an error.
pub open spec fn api_start_error_text(e: ApiStartError) -> Seq<char> {
    match e {
        ApiStartError::NonLoopback(a) =>
            "api.listen must be a loopback address (e.g. 127.0.0.1); got "@ + socket_text(a),
        ApiStartError::Token(t) => "token file error: "@ + token_error_text(t),
        ApiStartError::Bind(s) => "API listener bind error: "@ + s@,
    }
}

impl ApiStartError {
    /// The message shown for the error.
    pub fn message(&self) -> (r: String)
        ensures
            r@ == api_start_error_text(*self),
    {
        match self {
            ApiStartError::NonLoopback(a) => {
                let t = socket_string(*a);
                "api.listen must be a loopback address (e.g. 127.0.0.1); got ".to_owned().concat(
                    t.as_str(),
                )
            },
            ApiStartError::Token(e) => {
                let t = e.message();
                "token file error: ".to_owned().concat(t.as_str())
            },
            ApiStartError::Bind(s) => "API listener bind error: ".to_owned().concat(s.as_str()),
        }
    }
}

/// The API is served to this machine alone.
pub fn check_listen_addr(listen_addr: SocketAddr) -> (r: Result<(), ApiStartError>)
    ensures
        (match r {
            Ok(()) => listen_addr.ip.loopback(),
            Err(e) => !listen_addr.ip.loopback() && e == ApiStartError::NonLoopback(listen_addr),
        }),
{
    if listen_addr.ip.is_loopback() {
        Ok(())
    } else {
        Err(ApiStartError::NonLoopback(listen_addr))
    }
}

/// A step of starting the API.
#[derive(Debug, Clone, Copy, PartialEq, Eq, Structural)]
pub enum ApiStep {
    /// Read the token, or make one.
    Token,
    /// Read the domains that the user allowed.
    Allowlist,
    /// Bind the address.
    Bind,
    /// Write down the address that was bound.
    Publish,
    /// Serve requests.
    Serve,
}

/// The step after another.
pub open spec fn step_after(s: ApiStep) -> ApiStep {
    match s {
        ApiStep::Token => ApiStep::Allowlist,
        ApiStep::Allowlist => ApiStep::Bind,
        ApiStep::Bind => ApiStep::Publish,
        ApiStep::Publish => ApiStep::Serve,
        ApiStep::Serve => ApiStep::Serve,
    }
}

/// The start of the API, step by step.  A step that fails ends it.
#[derive(Debug)]
pub struct ApiStart {
    listen_addr: SocketAddr,
    step: ApiStep,
}

impl ApiStart {
    /// The address is one of this machine alone.
    #[verifier::type_invariant]
    spec fn is_local(self) -> bool {
        self.listen_addr.ip.loopback()
    }

    /// The step that has to be taken.
    pub closed spec fn at(&self) -> ApiStep {
        self.step
    }

    /// The address to bind.
    pub closed spec fn addr(&self) -> SocketAddr {
        self.listen_addr
    }

    /// A start on an address.  An address that is not one of this machine alone is refused
    /// before anything is read, written or bound.
    pub fn begin(listen_addr: SocketAddr) -> (r: Result<ApiStart, ApiStartError>)
        ensures
            (match r {
                Ok(s) => listen_addr.ip.loopback() && s.addr() == listen_addr && s.at()
                    == ApiStep::Token,
                Err(e) => !listen_addr.ip.loopback() && e == ApiStartError::NonLoopback(listen_addr),
            }),
    {
        match check_listen_addr(listen_addr) {
            Ok(()) => Ok(ApiStart { listen_addr, step: ApiStep::Token }),
            Err(e) => Err(e),
        }
    }

    /// The step that has to be taken.
    pub fn step(&self) -> (r: ApiStep)
        ensures
            r == self.at(),
    {
        self.step
    }

    /// The address to bind: one of this machine alone.
    pub fn listen_addr(&self) -> (r: SocketAddr)
        ensures
            r == self.addr(),
            r.ip.loopback(),
    {
        proof {
            use_type_invariant(self);
        }
        self.listen_addr
    }

    /// Goes on after a step was taken.
    pub fn taken(&mut self)
        ensures
            final(self).at() == step_after(old(self).at()),
            final(self).addr() == old(self).addr(),
    {
        proof {
            use_type_invariant(&*self);
        }
        self.step = match self.step {
            ApiStep::Token => ApiStep::Allowlist,
            ApiStep::Allowlist => ApiStep::Bind,
            ApiStep::Bind => ApiStep::Publish,
            ApiStep::Publish => ApiStep::Serve,
            ApiStep::Serve => ApiStep::Serve,
        };
    }
}

/// What the file with the address of the API holds.
pub fn write_addr_file(addr: SocketAddr) -> (r: String)
    ensures
        r@ == socket_text(addr),
{
    socket_string(addr)
}

/// The API is started just on an address that starts with 127, or on `::1`; a start on another
/// address is refused with that address, before any step.
pub proof fn law_the_api_is_for_this_machine(a: SocketAddr, r: Result<(), ApiStartError>, s: Result<ApiStart, ApiStartError>)
    requires
        call_ensures(check_listen_addr, (a,), r),
        call_ensures(ApiStart::begin, (a,), s),
    ensures
        ({
            let own = match a.ip {
                crate::net::IpAddr::V4(n) => 0x7f00_0000 <= n <= 0x7fff_ffff,
                crate::net::IpAddr::V6(n) => n == 1,
            };
            &&& r is Ok <==> own
            &&& s is Ok <==> own
            &&& r matches Err(e) ==> e == ApiStartError::NonLoopback(a)
            &&& s matches Err(e) ==> e == ApiStartError::NonLoopback(a)
            &&& s matches Ok(x) ==> x.addr() == a && x.at() == ApiStep::Token
        }),
{
}

/// The steps come in order: the token, the allowlist, the address, writing it down, serving; the
/// address stays the one that was checked.
pub proof fn law_the_steps_of_the_api(s: &mut ApiStart, at: ApiStep, addr: SocketAddr)
    requires
        call_ensures(ApiStart::taken, (s,), ()),
        call_ensures(ApiStart::step, (final(s),), at),
        call_ensures(ApiStart::listen_addr, (final(s),), addr),
    ensures
        old(s).at() == ApiStep::Token ==> at == ApiStep::Allowlist,
        old(s).at() == ApiStep::Allowlist ==> at == ApiStep::Bind,
        old(s).at() == ApiStep::Bind ==> at == ApiStep::Publish,
        old(s).at() == ApiStep::Publish || old(s).at() == ApiStep::Serve ==> at == ApiStep::Serve,
        addr == old(s).addr(),
{
}

/// The address that is written down is the text of the address.
pub proof fn law_the_address_is_written_down(a: SocketAddr, r: String, text: String)
    requires
        call_ensures(write_addr_file, (a,), r),
        call_ensures(socket_string, (a,), text),
    ensures
        r@ == text@,
{
}

}
