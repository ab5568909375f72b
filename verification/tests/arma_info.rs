use arma_rs::arma_info::ArmaInfo;
use arma_rs::Source;

#[test]
fn arma_info_keeps_named_texts() {
    let info = ArmaInfo::new("76561198000000000", "x\\a.sqf", "mission", "server");
    assert_eq!(info.steam_id(), Some("76561198000000000"));
    assert_eq!(info.file_source(), Some("x\\a.sqf"));
    assert_eq!(info.mission_name(), Some("mission"));
    assert_eq!(info.server_name(), Some("server"));
}

#[test]
fn arma_info_drops_empty_texts() {
    let info = ArmaInfo::new("0", "", "", "");
    assert_eq!(info.steam_id(), None);
    assert_eq!(info.file_source(), None);
    assert_eq!(info.mission_name(), None);
    assert_eq!(info.server_name(), None);
    assert_eq!(ArmaInfo::new("", "a", "", "").steam_id(), None);
    assert_eq!(ArmaInfo::default().mission_name(), None);
}

#[test]
fn relative_sources_are_pbo_paths() {
    for path in ["z\\test\\addons\\main\\fn_a.sqf", "a/b", "missions.sqf"] {
        assert_eq!(Source::from(path), Source::Pbo(path.to_string()));
    }
}
