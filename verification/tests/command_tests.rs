use eventsourcing::command::parse_command;

#[test]
fn parses_a_well_formed_subject() {
    let handler = parse_command("srv.command.monitoring.create").unwrap();
    assert_eq!(handler.service, "monitoring");
    assert_eq!(handler.method, "create");
}

#[test]
fn rejects_a_wrong_prefix() {
    assert!(parse_command("api.command.monitoring.create").is_none());
    assert!(parse_command("srv.query.monitoring.create").is_none());
}

#[test]
fn rejects_too_few_segments() {
    assert!(parse_command("srv.command.monitoring").is_none());
    assert!(parse_command("srv.command").is_none());
    assert!(parse_command("").is_none());
}

#[test]
fn rejects_too_many_segments() {
    assert!(parse_command("srv.command.monitoring.create.extra").is_none());
}

#[test]
fn accepts_empty_service_and_method_segments() {
    let handler = parse_command("srv.command..").unwrap();
    assert_eq!(handler.service, "");
    assert_eq!(handler.method, "");
}
