use cell_arch::cell_spec::{parse_adapter_kind, parse_port_kind, AdapterKind, PortKind};
use cell_arch::errors::CellError;

#[test]
fn port_kinds_parse_in_any_case_with_aliases() {
    assert_eq!(parse_port_kind("Repo"), Ok(PortKind::Repository));
    assert_eq!(parse_port_kind("use-case"), Ok(PortKind::UseCase));
    assert_eq!(parse_port_kind("SUB"), Ok(PortKind::Subscriber));
}

#[test]
fn unknown_port_kind_lists_the_valid_names() {
    assert_eq!(
        parse_port_kind("bogus"),
        Err(CellError::Config(
            "Unknown port kind: bogus. Valid: usecase, query, repository, gateway, publisher, subscriber".to_string()
        ))
    );
}

#[test]
fn adapter_kinds_parse_in_any_case_with_aliases() {
    assert_eq!(parse_adapter_kind("PG"), Ok(AdapterKind::Postgres));
    assert_eq!(parse_adapter_kind("in_memory"), Ok(AdapterKind::InMemory));
    assert_eq!(parse_adapter_kind("http_client"), Ok(AdapterKind::Http));
}

#[test]
fn unknown_adapter_kind_lists_the_valid_names() {
    assert_eq!(
        parse_adapter_kind("x"),
        Err(CellError::Config(
            "Unknown adapter kind: x. Valid: inmemory, postgres, redis, http, grpc, kafka, nats, file, mock".to_string()
        ))
    );
}
