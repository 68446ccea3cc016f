//! Command-line arguments and the configuration resolved from them.

use vstd::prelude::*;
use crate::error::AppError;
use crate::port_spec::{
    alias_of, baud_of, parse_error_text, parse_failure_text, parse_fails, parsed_as, path_of,
    PortSpec, ResolvedPortSpec,
};

verus! {

/// The arguments the program takes.
#[derive(Clone, Debug)]
pub struct CliArgs {
    pub list: bool,
    pub port: Vec<String>,
    pub baud: u32,
    pub output: Option<String>,
    pub highlight: Vec<String>,
    pub filter: Option<String>,
    pub exclude: Vec<String>,
}

#[derive(Clone, Debug)]
pub struct Config {
    pub list: bool,
    pub ports: Vec<ResolvedPortSpec>,
    pub baud: u32,
    pub output: Option<String>,
    pub highlight: Vec<String>,
    pub filter: Option<String>,
    pub exclude: Vec<String>,
    pub runtime: RuntimeConfig,
}

#[derive(Clone, Debug)]
pub struct RuntimeConfig {
    /// Capacity of every bounded queue of the pipeline.
    pub event_bus_capacity: usize,
}

pub const DEFAULT_BUS_CAPACITY: usize = 1024;

impl Default for RuntimeConfig {
    fn default() -> (r: RuntimeConfig)
        ensures
            r.event_bus_capacity == DEFAULT_BUS_CAPACITY,
    {
        RuntimeConfig { event_bus_capacity: DEFAULT_BUS_CAPACITY }
    }
}

pub open spec fn no_ports_text() -> Seq<char> {
    "no ports specified (use -p/--port or --list)"@
}

/// `p` is the descriptor written as `s`, with `baud` where `s` gives none.
pub open spec fn resolves_to(s: Seq<char>, baud: u32, p: ResolvedPortSpec) -> bool {
    &&& p.path@ == path_of(s)
    &&& p.baud == match baud_of(s) {
        Some(b) => b,
        None => baud,
    }
    &&& match alias_of(s) {
        Some(a) => p.alias matches Some(x) && x@ == a,
        None => p.alias is None,
    }
}

/// Every descriptor in `ports` parses.
pub open spec fn all_parse(ports: Seq<String>) -> bool {
    forall|i: int| 0 <= i < ports.len() ==> !parse_fails(#[trigger] ports[i]@)
}

impl Config {
    /// Checks the arguments and resolves every descriptor. Without `list`,
    /// at least one descriptor is needed; the first that does not parse
    /// gives the error.
    pub fn try_from(args: CliArgs) -> (r: Result<Config, AppError>)
        ensures
            !args.list && args.port@.len() == 0 ==> (r matches Err(AppError::Config(m)) && m@
                == no_ports_text()),
            (args.list || args.port@.len() > 0) && all_parse(args.port@) ==> (r matches Ok(c)
                && c.list == args.list && c.baud == args.baud && c.output == args.output
                && c.highlight == args.highlight && c.filter == args.filter && c.exclude
                == args.exclude && c.runtime.event_bus_capacity == DEFAULT_BUS_CAPACITY
                && c.ports@.len() == args.port@.len() && forall|i: int|
                0 <= i < args.port@.len() ==> resolves_to(
                #[trigger] args.port@[i]@,
                args.baud,
                c.ports@[i],
            )),
            (args.list || args.port@.len() > 0) && !all_parse(args.port@) ==> (r matches Err(
                AppError::PortInvalidFormat(m),
            ) && exists|k: int|
                0 <= k < args.port@.len() && parse_fails(#[trigger] args.port@[k]@) && all_parse(
                    args.port@.subrange(0, k),
                ) && m@ == parse_failure_text(args.port@[k]@)),
    {
        if !args.list && args.port.len() == 0 {
            return Err(AppError::Config(String::from_str("no ports specified (use -p/--port or --list)")));
        }
        let mut ports: Vec<ResolvedPortSpec> = Vec::new();
        let mut i: usize = 0;
        while i < args.port.len()
            invariant
                i <= args.port@.len(),
                ports@.len() == i,
                all_parse(args.port@.subrange(0, i as int)),
                forall|j: int| 0 <= j < i ==> resolves_to(#[trigger] args.port@[j]@, args.baud, ports@[j]),
            decreases args.port@.len() - i,
        {
            let ghost s = args.port@[i as int]@;
            match PortSpec::parse(args.port[i].as_str()) {
                Ok(p) => {
                    let rp = p.resolve(args.baud);
                    ports.push(rp);
                    assert forall|j: int| 0 <= j < i + 1 implies !parse_fails(
                        #[trigger] args.port@.subrange(0, i + 1)[j]@,
                    ) by {
                        if j < i {
                            assert(args.port@.subrange(0, i + 1)[j] == args.port@.subrange(0, i as int)[j]);
                        }
                    }
                },
                Err(e) => {
                    let m = e.message();
                    assert(parse_fails(s));
                    assert(m@ == parse_failure_text(s));
                    assert(!all_parse(args.port@)) by {
                        assert(!parse_fails(args.port@[i as int]@) ==> false);
                    }
                    return Err(AppError::PortInvalidFormat(m));
                },
            }
            i = i + 1;
        }
        assert(args.port@.subrange(0, i as int) =~= args.port@);
        Ok(
            Config {
                list: args.list,
                ports,
                baud: args.baud,
                output: args.output,
                highlight: args.highlight,
                filter: args.filter,
                exclude: args.exclude,
                runtime: RuntimeConfig::default(),
            },
        )
    }
}

} // verus!
