//! Translation parameter enums and their wire strings.
//!
//! Every parameter of a task is a closed enum with a case-sensitive
//! string form used both on the HTTP ingress and on the worker protocol.
//! For each enum, `as_str` prints the wire string given by the spec
//! function `*_str`, and `from_str` decides the spec function `parse_*`;
//! the `lemma_*_round_trip` lemmas show that parsing inverts printing.

use vstd::prelude::*;

verus! {

/// Equality of two string slices, decided by comparing owned copies.
pub fn str_eq(a: &str, b: &str) -> (r: bool)
    ensures
        r == (a@ == b@),
{
    let x = a.to_owned();
    let y = b.to_owned();
    x == y
}

// ---------------------------------------------------------------------
// Language
// ---------------------------------------------------------------------

/// Target language of a translation task.
#[derive(Debug, Clone, Copy, PartialEq, Eq, Structural)]
pub enum Language {
    CHS,
    CHT,
    CSY,
    NLD,
    ENG,
    FRA,
    DEU,
    HUN,
    ITA,
    JPN,
    KOR,
    PLK,
    PTB,
    ROM,
    RUS,
    ESP,
    TRK,
    UKR,
    VIN,
}

/// Rejected language string, carrying the offending input.
#[derive(Debug, Clone)]
pub struct InvalidLanguageError(pub String);

/// The wire string of a language.
pub open spec fn language_str(l: Language) -> Seq<char> {
    match l {
        Language::CHS => "CHS"@,
        Language::CHT => "CHT"@,
        Language::CSY => "CSY"@,
        Language::NLD => "NLD"@,
        Language::ENG => "ENG"@,
        Language::FRA => "FRA"@,
        Language::DEU => "DEU"@,
        Language::HUN => "HUN"@,
        Language::ITA => "ITA"@,
        Language::JPN => "JPN"@,
        Language::KOR => "KOR"@,
        Language::PLK => "PLK"@,
        Language::PTB => "PTB"@,
        Language::ROM => "ROM"@,
        Language::RUS => "RUS"@,
        Language::ESP => "ESP"@,
        Language::TRK => "TRK"@,
        Language::UKR => "UKR"@,
        Language::VIN => "VIN"@,
    }
}

/// The language denoted by a string, if any.
pub open spec fn parse_language(s: Seq<char>) -> Option<Language> {
    if s == "CHS"@ {
        Some(Language::CHS)
    } else if s == "CHT"@ {
        Some(Language::CHT)
    } else if s == "CSY"@ {
        Some(Language::CSY)
    } else if s == "NLD"@ {
        Some(Language::NLD)
    } else if s == "ENG"@ {
        Some(Language::ENG)
    } else if s == "FRA"@ {
        Some(Language::FRA)
    } else if s == "DEU"@ {
        Some(Language::DEU)
    } else if s == "HUN"@ {
        Some(Language::HUN)
    } else if s == "ITA"@ {
        Some(Language::ITA)
    } else if s == "JPN"@ {
        Some(Language::JPN)
    } else if s == "KOR"@ {
        Some(Language::KOR)
    } else if s == "PLK"@ {
        Some(Language::PLK)
    } else if s == "PTB"@ {
        Some(Language::PTB)
    } else if s == "ROM"@ {
        Some(Language::ROM)
    } else if s == "RUS"@ {
        Some(Language::RUS)
    } else if s == "ESP"@ {
        Some(Language::ESP)
    } else if s == "TRK"@ {
        Some(Language::TRK)
    } else if s == "UKR"@ {
        Some(Language::UKR)
    } else if s == "VIN"@ {
        Some(Language::VIN)
    } else {
        None
    }
}

impl Language {
    /// The wire string of this language.
    pub fn as_str(&self) -> (r: &'static str)
        ensures
            r@ == language_str(*self),
    {
        match self {
            Language::CHS => "CHS",
            Language::CHT => "CHT",
            Language::CSY => "CSY",
            Language::NLD => "NLD",
            Language::ENG => "ENG",
            Language::FRA => "FRA",
            Language::DEU => "DEU",
            Language::HUN => "HUN",
            Language::ITA => "ITA",
            Language::JPN => "JPN",
            Language::KOR => "KOR",
            Language::PLK => "PLK",
            Language::PTB => "PTB",
            Language::ROM => "ROM",
            Language::RUS => "RUS",
            Language::ESP => "ESP",
            Language::TRK => "TRK",
            Language::UKR => "UKR",
            Language::VIN => "VIN",
        }
    }

    /// Parses a language from its wire string; any other input is
    /// rejected and handed back inside the error.
    pub fn from_str(s: &str) -> (r: Result<Language, InvalidLanguageError>)
        ensures
            match r {
                Ok(l) => parse_language(s@) == Some(l),
                Err(e) => parse_language(s@) is None && e.0@ == s@,
            },
    {
        if str_eq(s, "CHS") {
            Ok(Language::CHS)
        } else if str_eq(s, "CHT") {
            Ok(Language::CHT)
        } else if str_eq(s, "CSY") {
            Ok(Language::CSY)
        } else if str_eq(s, "NLD") {
            Ok(Language::NLD)
        } else if str_eq(s, "ENG") {
            Ok(Language::ENG)
        } else if str_eq(s, "FRA") {
            Ok(Language::FRA)
        } else if str_eq(s, "DEU") {
            Ok(Language::DEU)
        } else if str_eq(s, "HUN") {
            Ok(Language::HUN)
        } else if str_eq(s, "ITA") {
            Ok(Language::ITA)
        } else if str_eq(s, "JPN") {
            Ok(Language::JPN)
        } else if str_eq(s, "KOR") {
            Ok(Language::KOR)
        } else if str_eq(s, "PLK") {
            Ok(Language::PLK)
        } else if str_eq(s, "PTB") {
            Ok(Language::PTB)
        } else if str_eq(s, "ROM") {
            Ok(Language::ROM)
        } else if str_eq(s, "RUS") {
            Ok(Language::RUS)
        } else if str_eq(s, "ESP") {
            Ok(Language::ESP)
        } else if str_eq(s, "TRK") {
            Ok(Language::TRK)
        } else if str_eq(s, "UKR") {
            Ok(Language::UKR)
        } else if str_eq(s, "VIN") {
            Ok(Language::VIN)
        } else {
            Err(InvalidLanguageError(s.to_owned()))
        }
    }
}

/// Parsing a language's wire string yields that language back.
pub proof fn lemma_language_round_trip(l: Language)
    ensures
        parse_language(language_str(l)) == Some(l),
{
    reveal_strlit("CHS");
    reveal_strlit("CHT");
    reveal_strlit("CSY");
    reveal_strlit("NLD");
    reveal_strlit("ENG");
    reveal_strlit("FRA");
    reveal_strlit("DEU");
    reveal_strlit("HUN");
    reveal_strlit("ITA");
    reveal_strlit("JPN");
    reveal_strlit("KOR");
    reveal_strlit("PLK");
    reveal_strlit("PTB");
    reveal_strlit("ROM");
    reveal_strlit("RUS");
    reveal_strlit("ESP");
    reveal_strlit("TRK");
    reveal_strlit("UKR");
    reveal_strlit("VIN");
    assert("CHS"@.index(0) == 'C' && "CHS"@.index(1) == 'H' && "CHS"@.index(2) == 'S');
    assert("CHT"@.index(0) == 'C' && "CHT"@.index(1) == 'H' && "CHT"@.index(2) == 'T');
    assert("CSY"@.index(0) == 'C' && "CSY"@.index(1) == 'S' && "CSY"@.index(2) == 'Y');
    assert("NLD"@.index(0) == 'N' && "NLD"@.index(1) == 'L' && "NLD"@.index(2) == 'D');
    assert("ENG"@.index(0) == 'E' && "ENG"@.index(1) == 'N' && "ENG"@.index(2) == 'G');
    assert("FRA"@.index(0) == 'F' && "FRA"@.index(1) == 'R' && "FRA"@.index(2) == 'A');
    assert("DEU"@.index(0) == 'D' && "DEU"@.index(1) == 'E' && "DEU"@.index(2) == 'U');
    assert("HUN"@.index(0) == 'H' && "HUN"@.index(1) == 'U' && "HUN"@.index(2) == 'N');
    assert("ITA"@.index(0) == 'I' && "ITA"@.index(1) == 'T' && "ITA"@.index(2) == 'A');
    assert("JPN"@.index(0) == 'J' && "JPN"@.index(1) == 'P' && "JPN"@.index(2) == 'N');
    assert("KOR"@.index(0) == 'K' && "KOR"@.index(1) == 'O' && "KOR"@.index(2) == 'R');
    assert("PLK"@.index(0) == 'P' && "PLK"@.index(1) == 'L' && "PLK"@.index(2) == 'K');
    assert("PTB"@.index(0) == 'P' && "PTB"@.index(1) == 'T' && "PTB"@.index(2) == 'B');
    assert("ROM"@.index(0) == 'R' && "ROM"@.index(1) == 'O' && "ROM"@.index(2) == 'M');
    assert("RUS"@.index(0) == 'R' && "RUS"@.index(1) == 'U' && "RUS"@.index(2) == 'S');
    assert("ESP"@.index(0) == 'E' && "ESP"@.index(1) == 'S' && "ESP"@.index(2) == 'P');
    assert("TRK"@.index(0) == 'T' && "TRK"@.index(1) == 'R' && "TRK"@.index(2) == 'K');
    assert("UKR"@.index(0) == 'U' && "UKR"@.index(1) == 'K' && "UKR"@.index(2) == 'R');
    assert("VIN"@.index(0) == 'V' && "VIN"@.index(1) == 'I' && "VIN"@.index(2) == 'N');
}

// ---------------------------------------------------------------------
// Detector
// ---------------------------------------------------------------------

/// Text-detector choice of a task.
#[derive(Debug, Clone, Copy, PartialEq, Eq, Structural)]
pub enum Detector {
    Default,
    CTD,
}

/// Rejected detector string, carrying the offending input.
#[derive(Debug, Clone)]
pub struct InvalidDetectorError(pub String);

/// The wire string of a detector.
pub open spec fn detector_str(d: Detector) -> Seq<char> {
    match d {
        Detector::Default => "default"@,
        Detector::CTD => "ctd"@,
    }
}

/// The detector denoted by a string, if any.
pub open spec fn parse_detector(s: Seq<char>) -> Option<Detector> {
    if s == "default"@ {
        Some(Detector::Default)
    } else if s == "ctd"@ {
        Some(Detector::CTD)
    } else {
        None
    }
}

impl Detector {
    /// The wire string of this detector.
    pub fn as_str(&self) -> (r: &'static str)
        ensures
            r@ == detector_str(*self),
    {
        match self {
            Detector::Default => "default",
            Detector::CTD => "ctd",
        }
    }

    /// Parses a detector from its wire string; any other input is
    /// rejected and handed back inside the error.
    pub fn from_str(s: &str) -> (r: Result<Detector, InvalidDetectorError>)
        ensures
            match r {
                Ok(d) => parse_detector(s@) == Some(d),
                Err(e) => parse_detector(s@) is None && e.0@ == s@,
            },
    {
        if str_eq(s, "default") {
            Ok(Detector::Default)
        } else if str_eq(s, "ctd") {
            Ok(Detector::CTD)
        } else {
            Err(InvalidDetectorError(s.to_owned()))
        }
    }
}

/// Parsing a detector's wire string yields that detector back.
pub proof fn lemma_detector_round_trip(d: Detector)
    ensures
        parse_detector(detector_str(d)) == Some(d),
{
    reveal_strlit("default");
    reveal_strlit("ctd");
    assert("default"@.len() == 7);
    assert("ctd"@.len() == 3);
}

// ---------------------------------------------------------------------
// Direction
// ---------------------------------------------------------------------

/// Reading direction requested by a submitter. `Default` is resolved
/// per target language before a task is stored.
#[derive(Debug, Clone, Copy, PartialEq, Eq, Structural)]
pub enum Direction {
    Default,
    Auto,
    Horizontal,
    Vertical,
}

/// Reading direction as stored in the task table: `Default` has been
/// resolved away.
#[derive(Debug, Clone, Copy, PartialEq, Eq, Structural)]
pub enum DbDirection {
    Auto,
    Horizontal,
    Vertical,
}

/// Failure to store a direction that was never resolved.
#[derive(Debug, Clone)]
pub enum DirectionIntoDBError {
    NoDefault,
}

/// Rejected direction string, carrying the offending input.
#[derive(Debug, Clone)]
pub struct InvalidDirectionError(pub String);

/// The wire string of a direction, as sent to workers.
pub open spec fn direction_str(d: Direction) -> Seq<char> {
    match d {
        Direction::Default => "default"@,
        Direction::Auto => "auto"@,
        Direction::Horizontal => "h"@,
        Direction::Vertical => "v"@,
    }
}

/// The direction denoted by a string, if any. Ingress also accepts the
/// long spellings of the two concrete directions.
pub open spec fn parse_direction(s: Seq<char>) -> Option<Direction> {
    if s == "default"@ {
        Some(Direction::Default)
    } else if s == "auto"@ {
        Some(Direction::Auto)
    } else if s == "h"@ || s == "horizontal"@ {
        Some(Direction::Horizontal)
    } else if s == "v"@ || s == "vertical"@ {
        Some(Direction::Vertical)
    } else {
        None
    }
}

impl Direction {
    /// The wire string of this direction.
    pub fn as_str(&self) -> (r: &'static str)
        ensures
            r@ == direction_str(*self),
    {
        match self {
            Direction::Default => "default",
            Direction::Auto => "auto",
            Direction::Horizontal => "h",
            Direction::Vertical => "v",
        }
    }

    /// Parses a direction from a request string; any other input is
    /// rejected and handed back inside the error.
    pub fn from_str(s: &str) -> (r: Result<Direction, InvalidDirectionError>)
        ensures
            match r {
                Ok(d) => parse_direction(s@) == Some(d),
                Err(e) => parse_direction(s@) is None && e.0@ == s@,
            },
    {
        if str_eq(s, "default") {
            Ok(Direction::Default)
        } else if str_eq(s, "auto") {
            Ok(Direction::Auto)
        } else if str_eq(s, "h") || str_eq(s, "horizontal") {
            Ok(Direction::Horizontal)
        } else if str_eq(s, "v") || str_eq(s, "vertical") {
            Ok(Direction::Vertical)
        } else {
            Err(InvalidDirectionError(s.to_owned()))
        }
    }

    /// Resolves this direction for storage: `Default` is substituted by
    /// the target language's default, everything else is kept.
    pub fn into_db(self, lang: Language) -> (r: DbDirection)
        ensures
            r == direction_into_db(self, lang),
    {
        match self {
            Direction::Default => match default_direction(lang) {
                Direction::Auto => DbDirection::Auto,
                Direction::Horizontal => DbDirection::Horizontal,
                Direction::Vertical => DbDirection::Vertical,
                Direction::Default => DbDirection::Horizontal,
            },
            Direction::Auto => DbDirection::Auto,
            Direction::Horizontal => DbDirection::Horizontal,
            Direction::Vertical => DbDirection::Vertical,
        }
    }
}

impl DbDirection {
    /// Attempts the storage form of a direction; `Default` is refused.
    pub fn try_from_direction(d: Direction) -> (r: Result<DbDirection, DirectionIntoDBError>)
        ensures
            match r {
                Ok(db) => d != Direction::Default && db == direction_into_db(d, Language::ENG),
                Err(_) => d == Direction::Default,
            },
    {
        match d {
            Direction::Auto => Ok(DbDirection::Auto),
            Direction::Horizontal => Ok(DbDirection::Horizontal),
            Direction::Vertical => Ok(DbDirection::Vertical),
            Direction::Default => Err(DirectionIntoDBError::NoDefault),
        }
    }

    /// The direction a stored row denotes.
    pub fn to_direction(self) -> (r: Direction)
        ensures
            r == db_direction_of(self),
    {
        match self {
            DbDirection::Auto => Direction::Auto,
            DbDirection::Horizontal => Direction::Horizontal,
            DbDirection::Vertical => Direction::Vertical,
        }
    }
}

/// The direction a stored row denotes.
pub open spec fn db_direction_of(d: DbDirection) -> Direction {
    match d {
        DbDirection::Auto => Direction::Auto,
        DbDirection::Horizontal => Direction::Horizontal,
        DbDirection::Vertical => Direction::Vertical,
    }
}

/// Parsing a direction's wire string yields that direction back.
pub proof fn lemma_direction_round_trip(d: Direction)
    ensures
        parse_direction(direction_str(d)) == Some(d),
{
    reveal_strlit("default");
    reveal_strlit("auto");
    reveal_strlit("h");
    reveal_strlit("v");
    reveal_strlit("horizontal");
    reveal_strlit("vertical");
    assert("default"@.len() == 7);
    assert("auto"@.len() == 4);
    assert("h"@.len() == 1 && "h"@.index(0) == 'h');
    assert("v"@.len() == 1 && "v"@.index(0) == 'v');
    assert("horizontal"@.len() == 10);
    assert("vertical"@.len() == 8);
}

/// The direction substituted for `default`, per target language.
pub open spec fn spec_default_direction(lang: Language) -> Direction {
    match lang {
        Language::CHS => Direction::Auto,
        Language::CHT => Direction::Auto,
        Language::JPN => Direction::Auto,
        Language::KOR => Direction::Auto,
        _ => Direction::Horizontal,
    }
}

/// The storage form of a direction under a target language.
pub open spec fn direction_into_db(d: Direction, lang: Language) -> DbDirection {
    match d {
        Direction::Default => match spec_default_direction(lang) {
            Direction::Auto => DbDirection::Auto,
            _ => DbDirection::Horizontal,
        },
        Direction::Auto => DbDirection::Auto,
        Direction::Horizontal => DbDirection::Horizontal,
        Direction::Vertical => DbDirection::Vertical,
    }
}

/// The direction substituted when a submitter asks for `default`:
/// `auto` for CHS, CHT, JPN and KOR, horizontal for every other
/// target language.
pub fn default_direction(lang: Language) -> (r: Direction)
    ensures
        r == spec_default_direction(lang),
{
    match lang {
        Language::CHS => Direction::Auto,
        Language::CHT => Direction::Auto,
        Language::JPN => Direction::Auto,
        Language::KOR => Direction::Auto,
        _ => Direction::Horizontal,
    }
}

// ---------------------------------------------------------------------
// Translator
// ---------------------------------------------------------------------

/// Machine translator backing a task.
#[derive(Debug, Clone, Copy, PartialEq, Eq, Structural)]
pub enum Translator {
    Youdao,
    Baidu,
    Google,
    DeepL,
    Papago,
    Offline,
    Null,
    Original,
}

/// Rejected translator string, carrying the offending input.
#[derive(Debug, Clone)]
pub struct InvalidTranslatorError(pub String);

/// The wire string of a translator.
pub open spec fn translator_str(t: Translator) -> Seq<char> {
    match t {
        Translator::Youdao => "youdao"@,
        Translator::Baidu => "baidu"@,
        Translator::Google => "google"@,
        Translator::DeepL => "deepl"@,
        Translator::Papago => "papago"@,
        Translator::Offline => "offline"@,
        Translator::Null => "none"@,
        Translator::Original => "original"@,
    }
}

/// The translator denoted by a string, if any.
pub open spec fn parse_translator(s: Seq<char>) -> Option<Translator> {
    if s == "youdao"@ {
        Some(Translator::Youdao)
    } else if s == "baidu"@ {
        Some(Translator::Baidu)
    } else if s == "google"@ {
        Some(Translator::Google)
    } else if s == "deepl"@ {
        Some(Translator::DeepL)
    } else if s == "papago"@ {
        Some(Translator::Papago)
    } else if s == "offline"@ {
        Some(Translator::Offline)
    } else if s == "none"@ {
        Some(Translator::Null)
    } else if s == "original"@ {
        Some(Translator::Original)
    } else {
        None
    }
}

impl Translator {
    /// The wire string of this translator.
    pub fn as_str(&self) -> (r: &'static str)
        ensures
            r@ == translator_str(*self),
    {
        match self {
            Translator::Youdao => "youdao",
            Translator::Baidu => "baidu",
            Translator::Google => "google",
            Translator::DeepL => "deepl",
            Translator::Papago => "papago",
            Translator::Offline => "offline",
            Translator::Null => "none",
            Translator::Original => "original",
        }
    }

    /// Parses a translator from its wire string; any other input is
    /// rejected and handed back inside the error.
    pub fn from_str(s: &str) -> (r: Result<Translator, InvalidTranslatorError>)
        ensures
            match r {
                Ok(t) => parse_translator(s@) == Some(t),
                Err(e) => parse_translator(s@) is None && e.0@ == s@,
            },
    {
        if str_eq(s, "youdao") {
            Ok(Translator::Youdao)
        } else if str_eq(s, "baidu") {
            Ok(Translator::Baidu)
        } else if str_eq(s, "google") {
            Ok(Translator::Google)
        } else if str_eq(s, "deepl") {
            Ok(Translator::DeepL)
        } else if str_eq(s, "papago") {
            Ok(Translator::Papago)
        } else if str_eq(s, "offline") {
            Ok(Translator::Offline)
        } else if str_eq(s, "none") {
            Ok(Translator::Null)
        } else if str_eq(s, "original") {
            Ok(Translator::Original)
        } else {
            Err(InvalidTranslatorError(s.to_owned()))
        }
    }
}

/// Parsing a translator's wire string yields that translator back.
pub proof fn lemma_translator_round_trip(t: Translator)
    ensures
        parse_translator(translator_str(t)) == Some(t),
{
    reveal_strlit("youdao");
    reveal_strlit("baidu");
    reveal_strlit("google");
    reveal_strlit("deepl");
    reveal_strlit("papago");
    reveal_strlit("offline");
    reveal_strlit("none");
    reveal_strlit("original");
    assert("youdao"@.len() == 6 && "youdao"@.index(0) == 'y');
    assert("baidu"@.len() == 5 && "baidu"@.index(0) == 'b');
    assert("google"@.len() == 6 && "google"@.index(0) == 'g');
    assert("deepl"@.len() == 5 && "deepl"@.index(0) == 'd');
    assert("papago"@.len() == 6 && "papago"@.index(0) == 'p');
    assert("offline"@.len() == 7 && "offline"@.index(0) == 'o');
    assert("none"@.len() == 4 && "none"@.index(0) == 'n');
    assert("original"@.len() == 8 && "original"@.index(0) == 'o');
}

// ---------------------------------------------------------------------
// Size
// ---------------------------------------------------------------------

/// Output size class of a task.
#[derive(Debug, Clone, Copy, PartialEq, Eq, Structural)]
pub enum Size {
    S,
    M,
    L,
    X,
}

/// Rejected size string, carrying the offending input.
#[derive(Debug, Clone)]
pub struct InvalidSizeError(pub String);

/// The wire string of a size.
pub open spec fn size_str(s: Size) -> Seq<char> {
    match s {
        Size::S => "S"@,
        Size::M => "M"@,
        Size::L => "L"@,
        Size::X => "X"@,
    }
}

/// The size denoted by a string, if any.
pub open spec fn parse_size(s: Seq<char>) -> Option<Size> {
    if s == "S"@ {
        Some(Size::S)
    } else if s == "M"@ {
        Some(Size::M)
    } else if s == "L"@ {
        Some(Size::L)
    } else if s == "X"@ {
        Some(Size::X)
    } else {
        None
    }
}

impl Size {
    /// The wire string of this size.
    pub fn as_str(&self) -> (r: &'static str)
        ensures
            r@ == size_str(*self),
    {
        match self {
            Size::S => "S",
            Size::M => "M",
            Size::L => "L",
            Size::X => "X",
        }
    }

    /// Parses a size from its wire string; any other input is rejected
    /// and handed back inside the error.
    pub fn from_str(s: &str) -> (r: Result<Size, InvalidSizeError>)
        ensures
            match r {
                Ok(v) => parse_size(s@) == Some(v),
                Err(e) => parse_size(s@) is None && e.0@ == s@,
            },
    {
        if str_eq(s, "S") {
            Ok(Size::S)
        } else if str_eq(s, "M") {
            Ok(Size::M)
        } else if str_eq(s, "L") {
            Ok(Size::L)
        } else if str_eq(s, "X") {
            Ok(Size::X)
        } else {
            Err(InvalidSizeError(s.to_owned()))
        }
    }
}

/// Parsing a size's wire string yields that size back.
pub proof fn lemma_size_round_trip(s: Size)
    ensures
        parse_size(size_str(s)) == Some(s),
{
    reveal_strlit("S");
    reveal_strlit("M");
    reveal_strlit("L");
    reveal_strlit("X");
    assert("S"@.index(0) == 'S');
    assert("M"@.index(0) == 'M');
    assert("L"@.index(0) == 'L');
    assert("X"@.index(0) == 'X');
}

// ---------------------------------------------------------------------
// TaskState
// ---------------------------------------------------------------------

/// Execution state of a task.
#[derive(Debug, Clone, Copy, PartialEq, Eq, Structural)]
pub enum TaskState {
    Pending,
    Running,
    Done,
    Error,
}

/// The string form of a task state, as reported to submitters.
pub open spec fn task_state_str(s: TaskState) -> Seq<char> {
    match s {
        TaskState::Pending => "pending"@,
        TaskState::Running => "running"@,
        TaskState::Done => "done"@,
        TaskState::Error => "error"@,
    }
}

impl TaskState {
    /// The string form of this state.
    pub fn as_str(&self) -> (r: &'static str)
        ensures
            r@ == task_state_str(*self),
    {
        match self {
            TaskState::Pending => "pending",
            TaskState::Running => "running",
            TaskState::Done => "done",
            TaskState::Error => "error",
        }
    }

    /// Whether this state ends a task's execution.
    pub fn is_terminal(&self) -> (r: bool)
        ensures
            r == (*self == TaskState::Done || *self == TaskState::Error),
    {
        match self {
            TaskState::Done => true,
            TaskState::Error => true,
            _ => false,
        }
    }
}

} // verus!
