use cotrans_gateway::params::{
    default_direction, DbDirection, Detector, Direction, Language, Size, TaskState, Translator,
};

#[test]
fn language_round_trips_every_code() {
    let codes = [
        "CHS", "CHT", "CSY", "NLD", "ENG", "FRA", "DEU", "HUN", "ITA", "JPN", "KOR", "PLK", "PTB",
        "ROM", "RUS", "ESP", "TRK", "UKR", "VIN",
    ];
    for code in codes {
        let parsed = Language::from_str(code).unwrap();
        assert_eq!(parsed.as_str(), code);
    }
}

#[test]
fn language_rejects_unknown_and_keeps_input() {
    let err = Language::from_str("chs").unwrap_err();
    assert_eq!(err.0, "chs");
    assert!(Language::from_str("").is_err());
    assert!(Language::from_str("EN").is_err());
}

#[test]
fn detector_strings() {
    assert_eq!(Detector::from_str("default").unwrap(), Detector::Default);
    assert_eq!(Detector::from_str("ctd").unwrap(), Detector::CTD);
    assert_eq!(Detector::CTD.as_str(), "ctd");
    let err = Detector::from_str("CTD").unwrap_err();
    assert_eq!(err.0, "CTD");
}

#[test]
fn direction_accepts_long_spellings() {
    assert_eq!(Direction::from_str("h").unwrap(), Direction::Horizontal);
    assert_eq!(Direction::from_str("horizontal").unwrap(), Direction::Horizontal);
    assert_eq!(Direction::from_str("v").unwrap(), Direction::Vertical);
    assert_eq!(Direction::from_str("vertical").unwrap(), Direction::Vertical);
    assert_eq!(Direction::from_str("auto").unwrap(), Direction::Auto);
    assert_eq!(Direction::from_str("default").unwrap(), Direction::Default);
    assert_eq!(Direction::Horizontal.as_str(), "h");
    assert_eq!(Direction::Vertical.as_str(), "v");
    let err = Direction::from_str("sideways").unwrap_err();
    assert_eq!(err.0, "sideways");
}

#[test]
fn translator_strings() {
    let pairs = [
        ("youdao", Translator::Youdao),
        ("baidu", Translator::Baidu),
        ("google", Translator::Google),
        ("deepl", Translator::DeepL),
        ("papago", Translator::Papago),
        ("offline", Translator::Offline),
        ("none", Translator::Null),
        ("original", Translator::Original),
    ];
    for (text, value) in pairs {
        assert_eq!(Translator::from_str(text).unwrap(), value);
        assert_eq!(value.as_str(), text);
    }
    let err = Translator::from_str("bing").unwrap_err();
    assert_eq!(err.0, "bing");
}

#[test]
fn size_strings() {
    assert_eq!(Size::from_str("S").unwrap(), Size::S);
    assert_eq!(Size::from_str("M").unwrap(), Size::M);
    assert_eq!(Size::from_str("L").unwrap(), Size::L);
    assert_eq!(Size::from_str("X").unwrap(), Size::X);
    assert_eq!(Size::X.as_str(), "X");
    let err = Size::from_str("XL").unwrap_err();
    assert_eq!(err.0, "XL");
}

#[test]
fn task_state_strings() {
    assert_eq!(TaskState::Pending.as_str(), "pending");
    assert_eq!(TaskState::Running.as_str(), "running");
    assert_eq!(TaskState::Done.as_str(), "done");
    assert_eq!(TaskState::Error.as_str(), "error");
    assert!(!TaskState::Pending.is_terminal());
    assert!(!TaskState::Running.is_terminal());
    assert!(TaskState::Done.is_terminal());
    assert!(TaskState::Error.is_terminal());
}

#[test]
fn default_direction_per_language() {
    assert_eq!(default_direction(Language::CHS), Direction::Auto);
    assert_eq!(default_direction(Language::CHT), Direction::Auto);
    assert_eq!(default_direction(Language::JPN), Direction::Auto);
    assert_eq!(default_direction(Language::KOR), Direction::Auto);
    assert_eq!(default_direction(Language::ENG), Direction::Horizontal);
    assert_eq!(default_direction(Language::DEU), Direction::Horizontal);
    assert_eq!(default_direction(Language::VIN), Direction::Horizontal);
}

#[test]
fn direction_into_db_resolves_default() {
    assert_eq!(Direction::Default.into_db(Language::CHS), DbDirection::Auto);
    assert_eq!(Direction::Default.into_db(Language::ENG), DbDirection::Horizontal);
    assert_eq!(Direction::Auto.into_db(Language::ENG), DbDirection::Auto);
    assert_eq!(Direction::Horizontal.into_db(Language::CHS), DbDirection::Horizontal);
    assert_eq!(Direction::Vertical.into_db(Language::CHS), DbDirection::Vertical);
}

#[test]
fn db_direction_refuses_default() {
    assert!(DbDirection::try_from_direction(Direction::Default).is_err());
    assert_eq!(
        DbDirection::try_from_direction(Direction::Auto).unwrap(),
        DbDirection::Auto
    );
    assert_eq!(DbDirection::Auto.to_direction(), Direction::Auto);
}
