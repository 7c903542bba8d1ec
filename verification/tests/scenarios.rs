//! The demonstration scenarios against a real jsonrpsee server: one
//! registered method, one call, one unknown method, and an ephemeral port.
//! The calls are dispatched in-process through the server's method table;
//! the listener itself is bound on a loopback ephemeral port.

use jsonrpsee::server::{RpcModule, ServerBuilder};
use jsonrpsee_core::params::ArrayParams;
use jsonrpsee_core::Error;
use jsonrpsee::types::error::CallError;
use minirpc::json::JsonValue;
use minirpc::registry::{Handler, Registry};
use minirpc::METHOD_NOT_FOUND_CODE;

fn runtime() -> tokio::runtime::Runtime {
    tokio::runtime::Builder::new_multi_thread().enable_all().build().unwrap()
}

/// Builds the verified registry and mirrors it into a jsonrpsee module.
fn hello_module() -> RpcModule<()> {
    let mut registry = Registry::new();
    registry
        .register(
            String::from("say_hello"),
            Handler::Constant(JsonValue::Str(String::from("lo"))),
        )
        .unwrap();
    let greeting = match registry.lookup(&String::from("say_hello")) {
        Some(Handler::Constant(JsonValue::Str(s))) => s.clone(),
        _ => panic!("the registry must hold the constant just registered"),
    };

    let mut module = RpcModule::new(());
    module
        .register_method("say_hello", move |_, _| Ok::<_, Error>(greeting.clone()))
        .unwrap();
    module
}

fn demo_params() -> ArrayParams {
    let mut params = ArrayParams::new();
    params.insert(1u64).unwrap();
    params.insert(2u64).unwrap();
    params.insert(3u64).unwrap();
    params
}

#[test]
fn say_hello_returns_lo() {
    let rt = runtime();
    rt.block_on(async {
        let module = hello_module();
        let response: Result<String, Error> = module.call("say_hello", demo_params()).await;
        assert_eq!(response.unwrap(), "lo");
    });
}

#[test]
fn calling_say_hello_twice_gives_the_same_answer() {
    let rt = runtime();
    rt.block_on(async {
        let module = hello_module();
        let first: String = module.call("say_hello", demo_params()).await.unwrap();
        let second: String = module.call("say_hello", demo_params()).await.unwrap();
        assert_eq!(first, second);
    });
}

#[test]
fn say_goodbye_is_method_not_found() {
    let rt = runtime();
    rt.block_on(async {
        let module = hello_module();
        let response: Result<String, Error> = module.call("say_goodbye", demo_params()).await;
        match response {
            Err(Error::Call(CallError::Custom(err))) => {
                assert_eq!(i64::from(err.code()), METHOD_NOT_FOUND_CODE);
            }
            other => panic!("expected a method-not-found error, got {:?}", other),
        }
    });
}

#[test]
fn ephemeral_port_is_reported_nonzero() {
    let rt = runtime();
    rt.block_on(async {
        let server = ServerBuilder::default().build("127.0.0.1:0").await.unwrap();
        let addr = server.local_addr().unwrap();
        assert!(addr.port() != 0);
        let handle = server.start(hello_module()).unwrap();
        let _ = handle.stop();
    });
}
