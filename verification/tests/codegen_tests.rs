use server_client::codegen::{
    plan_method, server_names, transport, EncapsulateError, MethodPlan, MethodShape,
};

fn shape(name: &str, is_async: bool, g: bool, w: bool, recv: bool) -> MethodShape {
    MethodShape {
        name: name.to_string(),
        is_async,
        has_generics: g,
        has_where_clause: w,
        has_receiver: recv,
    }
}

#[test]
fn names_of_example_server() {
    let n = server_names("Example", &vec!["increment".to_string(), "get_value".to_string()]).unwrap();
    assert_eq!(n.server, "ExampleServer");
    assert_eq!(n.client, "ExampleClient");
    assert_eq!(n.module, "example_mod");
    assert_eq!(n.variants, vec!["Increment".to_string(), "GetValue".to_string()]);
}

#[test]
fn names_of_camel_server() {
    let n = server_names("MyCounter", &vec![]).unwrap();
    assert_eq!(n.module, "my_counter_mod");
    assert!(n.variants.is_empty());
}

#[test]
fn plan_of_plain_method() {
    assert_eq!(
        plan_method(&shape("inc", false, false, false, true), false),
        Ok(MethodPlan { awaits: false, on_value: true })
    );
    assert_eq!(
        plan_method(&shape("make", true, false, false, false), true),
        Ok(MethodPlan { awaits: true, on_value: false })
    );
}

#[test]
fn plan_errors_in_order() {
    assert_eq!(
        plan_method(&shape("new", true, true, true, true), false),
        Err(EncapsulateError::AsyncInSyncServer)
    );
    assert_eq!(plan_method(&shape("new", true, true, true, true), true), Err(EncapsulateError::Generics));
    assert_eq!(plan_method(&shape("new", false, false, true, true), false), Err(EncapsulateError::WhereClause));
    assert_eq!(plan_method(&shape("new", false, false, false, true), false), Err(EncapsulateError::NamedNew));
}

#[test]
fn error_messages() {
    assert_eq!(EncapsulateError::NamedNew.message(), "Can't encapsulate method with name new");
    assert_eq!(
        EncapsulateError::TraitImpl.message(),
        "Can't encapsulate in a server-client a trait implementation"
    );
}

#[test]
fn transports() {
    let t = transport(true, false);
    assert_eq!(t.sender, "::server_client::channel::Sender");
    assert_eq!(t.create, "::server_client::channel::unbounded");
    let t = transport(false, false);
    assert_eq!(t.sender, "::server_client::DuplexEnd");
    assert_eq!(t.create, "::server_client::duplex");
    let t = transport(false, true);
    assert_eq!(t.create, "::server_client::asynchronous::duplex");
    let t = transport(true, true);
    assert_eq!(t.receiver, "::server_client::asynchronous::Receiver");
}

#[test]
fn names_refused_for_non_ascii() {
    assert!(server_names("CaféBar", &vec![]).is_none());
    assert!(server_names("Cafe", &vec!["größe".to_string()]).is_none());
    assert!(server_names("Cafe", &vec!["size".to_string()]).is_some());
}
