use watra::cli::{parse_input, translate, translate_core, Command};
use watra::table::{init_wareki_map, western_to_japanese};
use watra::text::{cvt_era_string, decimal_string, era_to_western, japanese_to_western};
use watra::{EraFormat, EraNames, WarekiError};

#[test]
fn w_to_j() {
    assert_eq!(western_to_japanese(1868).unwrap(), (EraNames::Meiji, 1));
    assert_eq!(western_to_japanese(1880).unwrap(), (EraNames::Meiji, 13));
    assert_eq!(western_to_japanese(1912).unwrap(), (EraNames::Taisho, 1));
    assert_eq!(western_to_japanese(1926).unwrap(), (EraNames::Showa, 1));
    assert_eq!(western_to_japanese(1989).unwrap(), (EraNames::Heisei, 1));
    assert_eq!(western_to_japanese(2019).unwrap(), (EraNames::Reiwa, 1));
    assert_eq!(western_to_japanese(2024).unwrap(), (EraNames::Reiwa, 6));
    assert!(western_to_japanese(1867).is_err());
}

#[test]
fn j_to_w() {
    assert_eq!(japanese_to_western("明治1年").unwrap(), 1868);
    assert_eq!(japanese_to_western("M13年").unwrap(), 1880);
    assert_eq!(japanese_to_western("大正元年").unwrap(), 1912);
    assert_eq!(japanese_to_western("昭和1年").unwrap(), 1926);
    assert_eq!(japanese_to_western("H1").unwrap(), 1989);
    assert_eq!(japanese_to_western("R元年").unwrap(), 2019);
    assert_eq!(japanese_to_western("令和6").unwrap(), 2024);
    assert!(japanese_to_western("ほげ5年").is_err());
}

#[test]
fn era_string_check() {
    assert_eq!(cvt_era_string(EraNames::Meiji, 1, EraFormat::Kanji), "明治元年".to_string());
    assert_eq!(cvt_era_string(EraNames::Meiji, 1, EraFormat::Initial), "M1".to_string());
    assert_eq!(cvt_era_string(EraNames::Reiwa, 5, EraFormat::Initial), "R5".to_string());
    assert_eq!(cvt_era_string(EraNames::Heisei, 30, EraFormat::Initial), "H30".to_string());
}

#[test]
fn kanji_years_after_the_first() {
    assert_eq!(cvt_era_string(EraNames::Showa, 64, EraFormat::Kanji), "昭和64年");
    assert_eq!(cvt_era_string(EraNames::Taisho, 15, EraFormat::Kanji), "大正15年");
    assert_eq!(cvt_era_string(EraNames::Reiwa, 0, EraFormat::Initial), "R0");
}

#[test]
fn last_year_of_each_era() {
    assert_eq!(western_to_japanese(1911).unwrap(), (EraNames::Meiji, 44));
    assert_eq!(western_to_japanese(1925).unwrap(), (EraNames::Taisho, 14));
    assert_eq!(western_to_japanese(1988).unwrap(), (EraNames::Showa, 63));
    assert_eq!(western_to_japanese(2018).unwrap(), (EraNames::Heisei, 30));
    assert_eq!(western_to_japanese(u32::MAX).unwrap(), (EraNames::Reiwa, u32::MAX - 2018));
}

#[test]
fn years_before_meiji() {
    assert_eq!(western_to_japanese(1867), Err(WarekiError::NotConvertible(1867)));
    assert_eq!(western_to_japanese(0), Err(WarekiError::NotConvertible(0)));
}

#[test]
fn table_in_chronological_order() {
    let m = init_wareki_map();
    let entries: Vec<(u32, EraNames)> = m.iter().map(|(k, v)| (*k, *v)).collect();
    assert_eq!(
        entries,
        vec![
            (1868, EraNames::Meiji),
            (1912, EraNames::Taisho),
            (1926, EraNames::Showa),
            (1989, EraNames::Heisei),
            (2019, EraNames::Reiwa),
        ]
    );
}

#[test]
fn unknown_era_token() {
    assert_eq!(era_to_western("ほげ5年"), Err(WarekiError::Unparseable("ほげ5年".to_string())));
    assert_eq!(era_to_western("X5年"), Err(WarekiError::UnknownEra("X".to_string())));
    assert_eq!(era_to_western("明明5年"), Err(WarekiError::UnknownEra("明明".to_string())));
    assert_eq!(era_to_western("Mx5"), Err(WarekiError::UnknownEra("Mx".to_string())));
}

#[test]
fn initials_in_either_case() {
    for (u, l, y) in [("M", "m", 1868), ("T", "t", 1912), ("S", "s", 1926), ("H", "h", 1989), ("R", "r", 2019)] {
        let upper = era_to_western(&format!("{}3年", u)).unwrap();
        let lower = era_to_western(&format!("{}3年", l)).unwrap();
        assert_eq!(upper, y + 2);
        assert_eq!(upper, lower);
    }
    assert_eq!(era_to_western("r元年").unwrap(), 2019);
    assert!(era_to_western("Mx5").is_err() && era_to_western("mx5").is_err());
    assert!(era_to_western("M5x").is_err() && era_to_western("m5x").is_err());
}

#[test]
fn trailing_content_rejected() {
    assert_eq!(era_to_western("M13年x"), Err(WarekiError::InvalidFormat("M13年x".to_string())));
    assert_eq!(era_to_western("R5 "), Err(WarekiError::InvalidFormat("R5 ".to_string())));
    assert_eq!(era_to_western("令和6月"), Err(WarekiError::InvalidFormat("令和6月".to_string())));
    assert_eq!(era_to_western("R5年年"), Err(WarekiError::InvalidFormat("R5年年".to_string())));
}

#[test]
fn unknown_era_reported_before_trailing() {
    assert_eq!(era_to_western("Q5x"), Err(WarekiError::UnknownEra("Q".to_string())));
}

#[test]
fn year_too_large() {
    assert_eq!(
        era_to_western("R99999999999"),
        Err(WarekiError::YearOutOfRange("R99999999999".to_string()))
    );
    assert_eq!(era_to_western("R4294965277").unwrap(), u32::MAX);
    assert_eq!(
        era_to_western("R4294965278"),
        Err(WarekiError::YearOutOfRange("R4294965278".to_string()))
    );
}

#[test]
fn no_era_notation() {
    assert_eq!(era_to_western(""), Err(WarekiError::Unparseable(String::new())));
    assert_eq!(era_to_western("明治"), Err(WarekiError::Unparseable("明治".to_string())));
}

#[test]
fn first_match_after_leading_text() {
    assert_eq!(era_to_western("xx明治1年").unwrap(), 1868);
}

#[test]
fn surrounding_whitespace_is_trimmed() {
    assert_eq!(japanese_to_western("  M13年 \n").unwrap(), 1880);
    assert_eq!(era_to_western(" M13年"), Ok(1880));
    assert!(era_to_western("M13年 ").is_err());
}

#[test]
fn round_trip_both_formats() {
    for e in [EraNames::Meiji, EraNames::Taisho, EraNames::Showa, EraNames::Heisei, EraNames::Reiwa] {
        for n in [1u32, 2, 9, 10, 45, 100] {
            for f in [EraFormat::Kanji, EraFormat::Initial] {
                let text = cvt_era_string(e, n, f);
                assert_eq!(era_to_western(&text).unwrap(), e.into_u32() + n - 1);
            }
        }
    }
}

#[test]
fn era_names_and_years() {
    assert_eq!(EraNames::Heisei.into_u32(), 1989);
    assert_eq!(EraNames::Taisho.into_string_with_format(EraFormat::Kanji), "大正");
    assert_eq!(EraNames::Showa.into_string_with_format(EraFormat::Initial), "S");
    assert_eq!(EraNames::from_name("令和"), Some(EraNames::Reiwa));
    assert_eq!(EraNames::from_name("h"), Some(EraNames::Heisei));
    assert_eq!(EraNames::from_name("ほげ"), None);
    assert_eq!(EraFormat::Kanji.name(), "kanji");
    assert_eq!(EraFormat::Initial.name(), "initial");
}

#[test]
fn decimal_rendering() {
    assert_eq!(decimal_string(0), "0");
    assert_eq!(decimal_string(2024), "2024");
    assert_eq!(decimal_string(u32::MAX), "4294967295");
}

#[test]
fn translate_both_directions() {
    assert_eq!(translate_core("2024", EraFormat::Kanji).unwrap(), "令和6年");
    assert_eq!(translate_core(" 2019年 ", EraFormat::Kanji).unwrap(), "令和元年");
    assert_eq!(translate_core("1989", EraFormat::Initial).unwrap(), "H1");
    assert_eq!(translate_core("昭和64年", EraFormat::Initial).unwrap(), "1989");
    assert_eq!(translate("1867", EraFormat::Kanji), Err(WarekiError::NotConvertible(1867)));
    assert_eq!(translate("2024x", EraFormat::Kanji), Err(WarekiError::InvalidFormat("2024x".to_string())));
    assert_eq!(
        translate("99999999999", EraFormat::Kanji),
        Err(WarekiError::YearOutOfRange("99999999999".to_string()))
    );
    assert_eq!(translate("", EraFormat::Kanji), Err(WarekiError::Unparseable(String::new())));
}

#[test]
fn commands() {
    assert_eq!(parse_input("h"), Command::Help);
    assert_eq!(parse_input("q"), Command::Quit);
    assert_eq!(parse_input("i"), Command::ModeChange(EraFormat::Initial));
    assert_eq!(parse_input("j"), Command::ModeChange(EraFormat::Kanji));
    assert_eq!(parse_input("R5"), Command::Convert("R5".to_string()));
    assert_eq!(parse_input("hh"), Command::Convert("hh".to_string()));
}
