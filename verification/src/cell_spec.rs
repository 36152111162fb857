//! The specification of a cell: its name, ports and adapters.
use vstd::prelude::*;
use crate::text::{owned, push_str, str_eq, to_lowercase, unicode_lowercase};
use crate::errors::{CellError, CellResult};

verus! {

/// The role of a port.
#[derive(Debug, Clone, Copy, PartialEq, Eq, Structural)]
pub enum PortKind {
    UseCase,
    Query,
    Repository,
    Gateway,
    Publisher,
    Subscriber,
}

pub open spec fn port_kind_name(k: PortKind) -> Seq<char> {
    match k {
        PortKind::UseCase => "usecase"@,
        PortKind::Query => "query"@,
        PortKind::Repository => "repository"@,
        PortKind::Gateway => "gateway"@,
        PortKind::Publisher => "publisher"@,
        PortKind::Subscriber => "subscriber"@,
    }
}

impl PortKind {
    /// The name of the kind.
    pub fn as_str(&self) -> (r: &'static str)
        ensures
            r@ == port_kind_name(*self),
    {
        match self {
            PortKind::UseCase => "usecase",
            PortKind::Query => "query",
            PortKind::Repository => "repository",
            PortKind::Gateway => "gateway",
            PortKind::Publisher => "publisher",
            PortKind::Subscriber => "subscriber",
        }
    }
}

/// The port kind that a (lowercased) name or alias stands for.
pub open spec fn port_kind_named(l: Seq<char>) -> Option<PortKind> {
    if l == "usecase"@ || l == "use_case"@ || l == "use-case"@ {
        Some(PortKind::UseCase)
    } else if l == "query"@ {
        Some(PortKind::Query)
    } else if l == "repository"@ || l == "repo"@ {
        Some(PortKind::Repository)
    } else if l == "gateway"@ {
        Some(PortKind::Gateway)
    } else if l == "publisher"@ || l == "pub"@ {
        Some(PortKind::Publisher)
    } else if l == "subscriber"@ || l == "sub"@ {
        Some(PortKind::Subscriber)
    } else {
        None
    }
}

/// The adapter kind that a (lowercased) name or alias stands for.
pub open spec fn adapter_kind_named(l: Seq<char>) -> Option<AdapterKind> {
    if l == "inmemory"@ || l == "in_memory"@ || l == "memory"@ {
        Some(AdapterKind::InMemory)
    } else if l == "postgres"@ || l == "pg"@ || l == "postgresql"@ {
        Some(AdapterKind::Postgres)
    } else if l == "redis"@ {
        Some(AdapterKind::Redis)
    } else if l == "http"@ || l == "http_client"@ {
        Some(AdapterKind::Http)
    } else if l == "grpc"@ {
        Some(AdapterKind::Grpc)
    } else if l == "kafka"@ {
        Some(AdapterKind::Kafka)
    } else if l == "nats"@ {
        Some(AdapterKind::Nats)
    } else if l == "file"@ {
        Some(AdapterKind::File)
    } else if l == "mock"@ {
        Some(AdapterKind::Mock)
    } else {
        None
    }
}

/// The message for an unknown port kind `s`.
pub open spec fn unknown_port_kind(s: Seq<char>) -> Seq<char> {
    "Unknown port kind: "@ + s + ". Valid: usecase, query, repository, gateway, publisher, subscriber"@
}

/// The message for an unknown adapter kind `s`.
pub open spec fn unknown_adapter_kind(s: Seq<char>) -> Seq<char> {
    "Unknown adapter kind: "@ + s + ". Valid: inmemory, postgres, redis, http, grpc, kafka, nats, file, mock"@
}

/// The port kind named by `s` in any case, or a configuration error that
/// lists the valid names.
pub fn parse_port_kind(s: &str) -> (r: CellResult<PortKind>)
    ensures
        match port_kind_named(unicode_lowercase(s@)) {
            Some(k) => r == Ok::<PortKind, CellError>(k),
            None => r matches Err(CellError::Config(m)) && m@ == unknown_port_kind(s@),
        },
{
    let l = to_lowercase(s);
    let l = l.as_str();
    if str_eq(l, "usecase") || str_eq(l, "use_case") || str_eq(l, "use-case") {
        Ok(PortKind::UseCase)
    } else if str_eq(l, "query") {
        Ok(PortKind::Query)
    } else if str_eq(l, "repository") || str_eq(l, "repo") {
        Ok(PortKind::Repository)
    } else if str_eq(l, "gateway") {
        Ok(PortKind::Gateway)
    } else if str_eq(l, "publisher") || str_eq(l, "pub") {
        Ok(PortKind::Publisher)
    } else if str_eq(l, "subscriber") || str_eq(l, "sub") {
        Ok(PortKind::Subscriber)
    } else {
        let mut m = owned("Unknown port kind: ");
        push_str(&mut m, s);
        push_str(&mut m, ". Valid: usecase, query, repository, gateway, publisher, subscriber");
        Err(CellError::Config(m))
    }
}

/// The adapter kind named by `s` in any case, or a configuration error
/// that lists the valid names.
pub fn parse_adapter_kind(s: &str) -> (r: CellResult<AdapterKind>)
    ensures
        match adapter_kind_named(unicode_lowercase(s@)) {
            Some(k) => r == Ok::<AdapterKind, CellError>(k),
            None => r matches Err(CellError::Config(m)) && m@ == unknown_adapter_kind(s@),
        },
{
    let l = to_lowercase(s);
    let l = l.as_str();
    if str_eq(l, "inmemory") || str_eq(l, "in_memory") || str_eq(l, "memory") {
        Ok(AdapterKind::InMemory)
    } else if str_eq(l, "postgres") || str_eq(l, "pg") || str_eq(l, "postgresql") {
        Ok(AdapterKind::Postgres)
    } else if str_eq(l, "redis") {
        Ok(AdapterKind::Redis)
    } else if str_eq(l, "http") || str_eq(l, "http_client") {
        Ok(AdapterKind::Http)
    } else if str_eq(l, "grpc") {
        Ok(AdapterKind::Grpc)
    } else if str_eq(l, "kafka") {
        Ok(AdapterKind::Kafka)
    } else if str_eq(l, "nats") {
        Ok(AdapterKind::Nats)
    } else if str_eq(l, "file") {
        Ok(AdapterKind::File)
    } else if str_eq(l, "mock") {
        Ok(AdapterKind::Mock)
    } else {
        let mut m = owned("Unknown adapter kind: ");
        push_str(&mut m, s);
        push_str(&mut m, ". Valid: inmemory, postgres, redis, http, grpc, kafka, nats, file, mock");
        Err(CellError::Config(m))
    }
}

/// The technology an adapter is built on.
#[derive(Debug, Clone, Copy, PartialEq, Eq, Structural)]
pub enum AdapterKind {
    InMemory,
    Postgres,
    Redis,
    Http,
    Grpc,
    Kafka,
    Nats,
    File,
    Mock,
}

/// The name `{:?}` gives an adapter kind.
pub open spec fn adapter_kind_name(k: AdapterKind) -> Seq<char> {
    match k {
        AdapterKind::InMemory => "InMemory"@,
        AdapterKind::Postgres => "Postgres"@,
        AdapterKind::Redis => "Redis"@,
        AdapterKind::Http => "Http"@,
        AdapterKind::Grpc => "Grpc"@,
        AdapterKind::Kafka => "Kafka"@,
        AdapterKind::Nats => "Nats"@,
        AdapterKind::File => "File"@,
        AdapterKind::Mock => "Mock"@,
    }
}

/// The name `{:?}` gives an adapter kind.
pub fn adapter_kind_str(k: AdapterKind) -> (r: &'static str)
    ensures
        r@ == adapter_kind_name(k),
{
    match k {
        AdapterKind::InMemory => "InMemory",
        AdapterKind::Postgres => "Postgres",
        AdapterKind::Redis => "Redis",
        AdapterKind::Http => "Http",
        AdapterKind::Grpc => "Grpc",
        AdapterKind::Kafka => "Kafka",
        AdapterKind::Nats => "Nats",
        AdapterKind::File => "File",
        AdapterKind::Mock => "Mock",
    }
}

/// A port of a cell.
#[derive(Debug, Clone)]
pub struct PortSpec {
    pub name: String,
    pub kind: PortKind,
    pub description: String,
    pub input: Option<String>,
    pub output: Option<String>,
    pub is_async: bool,
}

/// An adapter of a cell and the port it implements.
#[derive(Debug, Clone)]
pub struct AdapterSpec {
    pub name: String,
    pub kind: AdapterKind,
    pub port: String,
    pub description: String,
}

/// The specification of a cell.
#[derive(Debug, Clone)]
pub struct CellSpec {
    pub name: String,
    pub description: String,
    pub version: String,
    pub cell_version: Option<String>,
    pub owners: Vec<String>,
    pub ports: Vec<PortSpec>,
    pub adapters: Vec<AdapterSpec>,
    pub dependencies: Vec<String>,
    pub tags: Vec<String>,
}

/// `spec` is the default specification with the name `name`: every other
/// field empty or absent.
pub open spec fn empty_named(spec: CellSpec, name: Seq<char>) -> bool {
    &&& spec.name@ == name
    &&& spec.description@ == Seq::<char>::empty()
    &&& spec.version@ == Seq::<char>::empty()
    &&& spec.cell_version is None
    &&& spec.owners@.len() == 0
    &&& spec.ports@.len() == 0
    &&& spec.adapters@.len() == 0
    &&& spec.dependencies@.len() == 0
    &&& spec.tags@.len() == 0
}

impl CellSpec {
    /// An empty specification with the given name.
    pub fn named(name: &str) -> (r: CellSpec)
        ensures
            empty_named(r, name@),
            r.name@ == name@,
            r.description@ == Seq::<char>::empty(),
            r.version@ == Seq::<char>::empty(),
            r.cell_version is None,
            r.owners@.len() == 0,
            r.ports@.len() == 0,
            r.adapters@.len() == 0,
            r.dependencies@.len() == 0,
            r.tags@.len() == 0,
    {
        CellSpec {
            name: owned(name),
            description: String::new(),
            version: String::new(),
            cell_version: None,
            owners: Vec::new(),
            ports: Vec::new(),
            adapters: Vec::new(),
            dependencies: Vec::new(),
            tags: Vec::new(),
        }
    }
}

impl Default for CellSpec {
    fn default() -> (r: CellSpec)
        ensures
            r.name@ == Seq::<char>::empty(),
            r.description@ == Seq::<char>::empty(),
            r.version@ == Seq::<char>::empty(),
            r.cell_version is None,
            r.owners@.len() == 0,
            r.ports@.len() == 0,
            r.adapters@.len() == 0,
            r.dependencies@.len() == 0,
            r.tags@.len() == 0,
    {
        CellSpec {
            name: String::new(),
            description: String::new(),
            version: String::new(),
            cell_version: None,
            owners: Vec::new(),
            ports: Vec::new(),
            adapters: Vec::new(),
            dependencies: Vec::new(),
            tags: Vec::new(),
        }
    }
}

} // verus!
