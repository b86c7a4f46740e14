//! The proxy's configuration and how it resolves into a launch plan: which
//! port to listen on, which handler to start, and the control-API address
//! that the handler is given.

use vstd::prelude::*;

use crate::command::{HandlerCommand, StdioMode};
use crate::port_text::{decimal_text, parse_port, port_from_text, push_decimal};

verus! {

/// The environment variable that holds the control API's address. The proxy
/// reads it to reach the real API and sets it for the handler to reach the
/// proxy.
pub const RUNTIME_API_VAR: &'static str = "AWS_LAMBDA_RUNTIME_API";

/// The environment variable that may choose the proxy's port.
pub const PROXY_PORT_VAR: &'static str = "AWS_LAMBDA_RUNTIME_PROXY_PORT";

/// The port used when neither the configuration nor the environment names one.
pub const DEFAULT_PORT: u16 = 3000;

/// The host part of the address the proxy listens on.
pub const LOOPBACK_HOST: &'static str = "127.0.0.1";

/// The address, `127.0.0.1:<port>`, at which the proxy serves the control API.
pub open spec fn proxy_address(port: u16) -> Seq<char> {
    LOOPBACK_HOST@ + seq![':'] + decimal_text(port as nat)
}

/// The port the proxy listens on: the configured one, else the one the
/// environment value reads as, else the default.
pub open spec fn resolved_port(configured: Option<u16>, env_port: Option<&str>) -> u16 {
    match configured {
        Some(p) => p,
        None => match env_port {
            Some(s) => match port_from_text(s@) {
                Some(p) => p,
                None => DEFAULT_PORT,
            },
            None => DEFAULT_PORT,
        },
    }
}

/// `c` runs `argv[1]` with the arguments `argv[2..]`, with no environment
/// overrides and inherited streams.
pub open spec fn runs_argv(c: HandlerCommand, argv: Seq<String>) -> bool {
    &&& argv.len() >= 2
    &&& c.program@ == argv[1]@
    &&& c.args@.len() == argv.len() - 2
    &&& forall|i: int| 0 <= i < c.args@.len() ==> #[trigger] c.args@[i]@ == argv[i + 2]@
    &&& c.envs@.len() == 0
    &&& c.stdin == StdioMode::Inherit
    &&& c.stdout == StdioMode::Inherit
    &&& c.stderr == StdioMode::Inherit
}

/// `after` is `before` with the control-API variable set to the proxy's
/// address on `port`, as its last override.
pub open spec fn points_at_proxy(before: HandlerCommand, after: HandlerCommand, port: u16) -> bool {
    &&& after.program == before.program
    &&& after.args == before.args
    &&& after.stdin == before.stdin
    &&& after.stdout == before.stdout
    &&& after.stderr == before.stderr
    &&& after.envs@.len() == before.envs@.len() + 1
    &&& after.envs@.drop_last() == before.envs@
    &&& after.envs@.last().0@ == RUNTIME_API_VAR@
    &&& after.envs@.last().1@ == proxy_address(port)
    &&& after.env_map() == before.env_map().insert(RUNTIME_API_VAR@, proxy_address(port))
}

/// Why a configuration cannot be launched.
#[derive(Clone, Copy, Debug, PartialEq, Eq, Structural)]
pub enum ProxyError {
    /// No handler command was configured and the proxy's own arguments name
    /// no program.
    MissingCommand,
}

/// What a launch needs, fully resolved.
#[derive(Debug, PartialEq, Eq)]
pub struct LaunchPlan {
    /// The port to listen on.
    pub port: u16,
    /// The handler to start once the proxy listens, already pointed at it.
    pub command: HandlerCommand,
}

/// The proxy's configuration; fields left unset are resolved at launch.
#[derive(Debug, PartialEq, Eq)]
pub struct Proxy {
    /// The port to listen on; see [`Proxy::resolve_port`].
    pub port: Option<u16>,
    /// The handler to start; see [`Proxy::default_command`].
    pub command: Option<HandlerCommand>,
}

impl Default for Proxy {
    fn default() -> (r: Self)
        ensures
            r.port is None,
            r.command is None,
    {
        Proxy { port: None, command: None }
    }
}

impl Proxy {
    /// The handler command that the proxy's own arguments name: with the
    /// proxy started as `proxy node --help`, it is `node --help`.
    pub fn default_command(argv: &Vec<String>) -> (r: Option<HandlerCommand>)
        ensures
            argv@.len() < 2 ==> r is None,
            argv@.len() >= 2 ==> (r matches Some(c) && runs_argv(c, argv@)),
    {
        if argv.len() < 2 {
            return None;
        }
        let mut cmd = HandlerCommand::new(argv[1].clone());
        let mut i: usize = 2;
        while i < argv.len()
            invariant
                2 <= i <= argv@.len(),
                cmd.program@ == argv@[1]@,
                cmd.args@.len() == i - 2,
                forall|j: int| 0 <= j < cmd.args@.len() ==> #[trigger] cmd.args@[j]@ == argv@[j
                    + 2]@,
                cmd.envs@.len() == 0,
                cmd.stdin == StdioMode::Inherit,
                cmd.stdout == StdioMode::Inherit,
                cmd.stderr == StdioMode::Inherit,
            decreases argv@.len() - i,
        {
            cmd.arg(argv[i].clone());
            i = i + 1;
        }
        Some(cmd)
    }

    /// Sets the port to listen on.
    pub fn port(self, port: u16) -> (r: Self)
        ensures
            r.port == Some(port),
            r.command == self.command,
    {
        Proxy { port: Some(port), ..self }
    }

    /// Sets the handler command.
    pub fn command(self, cmd: HandlerCommand) -> (r: Self)
        ensures
            r.port == self.port,
            r.command == Some(cmd),
    {
        Proxy { command: Some(cmd), ..self }
    }

    /// The port to listen on, given the value of [`PROXY_PORT_VAR`] if it is
    /// set: the configured port, else that value read as a port number, else
    /// [`DEFAULT_PORT`].
    pub fn resolve_port(&self, env_port: Option<&str>) -> (r: u16)
        ensures
            r == resolved_port(self.port, env_port),
    {
        match self.port {
            Some(p) => p,
            None => match env_port {
                Some(s) => match parse_port(s) {
                    Some(p) => p,
                    None => DEFAULT_PORT,
                },
                None => DEFAULT_PORT,
            },
        }
    }

    /// Resolves the configuration, given the value of [`PROXY_PORT_VAR`] if
    /// it is set and the proxy's own arguments: the port, and the handler
    /// command (the configured one, else [`Proxy::default_command`]) with
    /// [`RUNTIME_API_VAR`] set to the proxy's address. Fails only when no
    /// command can be found.
    pub fn plan(self, env_port: Option<&str>, argv: &Vec<String>) -> (r: Result<
        LaunchPlan,
        ProxyError,
    >)
        ensures
            self.command is None && argv@.len() < 2 ==> r == Err::<LaunchPlan, ProxyError>(
                ProxyError::MissingCommand,
            ),
            self.command matches Some(c) ==> (r matches Ok(plan) && plan.port == resolved_port(
                self.port,
                env_port,
            ) && points_at_proxy(c, plan.command, plan.port)),
            self.command is None && argv@.len() >= 2 ==> (r matches Ok(plan) && plan.port
                == resolved_port(self.port, env_port) && exists|c: HandlerCommand|
                runs_argv(c, argv@) && #[trigger] points_at_proxy(c, plan.command, plan.port)),
    {
        let port = self.resolve_port(env_port);
        let base = match self.command {
            Some(c) => c,
            None => match Proxy::default_command(argv) {
                Some(c) => c,
                None => return Err(ProxyError::MissingCommand),
            },
        };
        let ghost before = base;
        let mut command = base;
        command.env(String::from_str(RUNTIME_API_VAR), proxy_address_string(port));
        assert(command.envs@.drop_last() =~= before.envs@);
        assert(points_at_proxy(before, command, port));
        Ok(LaunchPlan { port, command })
    }
}

/// The proxy's address on `port`, as text.
pub fn proxy_address_string(port: u16) -> (r: String)
    ensures
        r@ == proxy_address(port),
{
    let mut out = String::from_str(LOOPBACK_HOST);
    out.append(":");
    push_decimal(&mut out, port);
    proof {
        reveal_strlit(":");
    }
    out
}

} // verus!
