use arma_rs::{Caller, Mission, Server, Source};

#[test]
fn call_caller_empty() {
    assert_eq!(Caller::from(""), Caller::Unknown);
}

#[test]
fn call_caller_zero() {
    assert_eq!(Caller::from("0"), Caller::Unknown);
}

#[test]
fn call_source_empty() {
    assert_eq!(Source::from(""), Source::Console);
}

#[test]
fn call_source_pbo() {
    let path = "x\\ctx\\addons\\main\\fn_armaContext.sqf";
    assert_eq!(Source::from(path), Source::Pbo(path.to_string()));
}

#[test]
fn call_source_file() {
    let path = if std::path::MAIN_SEPARATOR == '\\' {
        r"C:\arma\extensions\ctx"
    } else {
        "/home/arma/extensions/ctx"
    };
    assert_eq!(Source::from(path), Source::File(path.to_string()));
}

#[test]
fn call_mission_empty() {
    assert_eq!(Mission::from(""), Mission::NoMission);
}

#[test]
fn call_server_empty() {
    assert_eq!(Server::from(""), Server::Singleplayer);
}

#[test]
fn arma_caller_empty() {
    assert_eq!(Caller::from(""), Caller::Unknown);
}

#[test]
fn arma_caller_zero() {
    assert_eq!(Caller::from("0"), Caller::Unknown);
}

#[test]
fn arma_source_empty() {
    assert_eq!(Source::from(""), Source::Console);
}

#[test]
fn arma_source_pbo() {
    let path = "x\\ctx\\addons\\main\\fn_armaContext.sqf";
    assert_eq!(Source::from(path), Source::Pbo(path.to_string()));
}

#[test]
fn arma_source_file() {
    let path = if std::path::MAIN_SEPARATOR == '\\' {
        r"C:\arma\extensions\ctx"
    } else {
        "/home/arma/extensions/ctx"
    };
    assert_eq!(Source::from(path), Source::File(path.to_string()));
}

#[test]
fn arma_mission_empty() {
    assert_eq!(Mission::from(""), Mission::NoMission);
}

#[test]
fn arma_server_empty() {
    assert_eq!(Server::from(""), Server::Singleplayer);
}
