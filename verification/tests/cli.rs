use chc_service::{BindTarget, ChcServiceError, LocalChcServerCli};

#[test]
fn named_interface_and_port_are_taken() {
    let cli = LocalChcServerCli { interface: Some("10.0.0.7".to_string()), port: Some(8080) };
    assert_eq!(
        cli.try_into(Some(9)),
        Ok(BindTarget { interface: "10.0.0.7".to_string(), port: 8080 })
    );
    let cli = LocalChcServerCli { interface: Some("10.0.0.7".to_string()), port: Some(0) };
    assert_eq!(cli.try_into(None), Ok(BindTarget { interface: "10.0.0.7".to_string(), port: 0 }));
}

#[test]
fn local_interface_and_unused_port_are_the_defaults() {
    let cli = LocalChcServerCli { interface: None, port: None };
    assert_eq!(
        cli.try_into(Some(40123)),
        Ok(BindTarget { interface: "127.0.0.1".to_string(), port: 40123 })
    );
}

#[test]
fn no_port_at_all_is_a_failure() {
    let cli = LocalChcServerCli { interface: None, port: None };
    assert_eq!(
        cli.try_into(None),
        Err(ChcServiceError::InternalError("No available port found".to_string()))
    );
}
