//! The closed set of eras, their start years and their textual renderings.

use vstd::prelude::*;

verus! {

/// Which rendering of an era to produce: the two-character name with "年",
/// or the single romanized initial.
#[derive(Debug, Clone, Copy, PartialEq, Eq, Structural)]
pub enum EraFormat {
    Kanji,
    Initial,
}

/// The eras from Meiji on, in chronological order.
#[derive(Debug, Clone, Copy, PartialEq, Eq, Structural)]
pub enum EraNames {
    Meiji,
    Taisho,
    Showa,
    Heisei,
    Reiwa,
}

/// Why a conversion failed.
#[derive(Debug, Clone, PartialEq, Eq)]
pub enum WarekiError {
    /// The western year precedes the first known era.
    NotConvertible(u32),
    /// The text holds no era name followed by a year token.
    Unparseable(String),
    /// The era name found is not one of the known eras.
    UnknownEra(String),
    /// Something other than "年" follows the year token.
    InvalidFormat(String),
    /// The year written does not fit the range of a `u32` year.
    YearOutOfRange(String),
}

/// `WarekiError` with its strings seen as character sequences.
pub enum ErrorView {
    NotConvertible(u32),
    Unparseable(Seq<char>),
    UnknownEra(Seq<char>),
    InvalidFormat(Seq<char>),
    YearOutOfRange(Seq<char>),
}

impl View for WarekiError {
    type V = ErrorView;

    open spec fn view(&self) -> ErrorView {
        match self {
            WarekiError::NotConvertible(y) => ErrorView::NotConvertible(*y),
            WarekiError::Unparseable(s) => ErrorView::Unparseable(s@),
            WarekiError::UnknownEra(s) => ErrorView::UnknownEra(s@),
            WarekiError::InvalidFormat(s) => ErrorView::InvalidFormat(s@),
            WarekiError::YearOutOfRange(s) => ErrorView::YearOutOfRange(s@),
        }
    }
}

/// A result with its error seen through `ErrorView`.
pub open spec fn result_view<T>(r: Result<T, WarekiError>) -> Result<T, ErrorView> {
    match r {
        Ok(v) => Ok(v),
        Err(e) => Err(e@),
    }
}

/// The first western year of an era.
pub open spec fn start_year(e: EraNames) -> int {
    match e {
        EraNames::Meiji => 1868,
        EraNames::Taisho => 1912,
        EraNames::Showa => 1926,
        EraNames::Heisei => 1989,
        EraNames::Reiwa => 2019,
    }
}

/// The era of a western year at or after 1868: the one whose start year is
/// the greatest not after it.
pub open spec fn era_of_year(y: int) -> EraNames {
    if y >= 2019 {
        EraNames::Reiwa
    } else if y >= 1989 {
        EraNames::Heisei
    } else if y >= 1926 {
        EraNames::Showa
    } else if y >= 1912 {
        EraNames::Taisho
    } else {
        EraNames::Meiji
    }
}

/// The era's name in the given format: two ideographs, or one capital letter.
pub open spec fn era_label(e: EraNames, f: EraFormat) -> Seq<char> {
    match f {
        EraFormat::Initial => match e {
            EraNames::Meiji => seq!['M'],
            EraNames::Taisho => seq!['T'],
            EraNames::Showa => seq!['S'],
            EraNames::Heisei => seq!['H'],
            EraNames::Reiwa => seq!['R'],
        },
        EraFormat::Kanji => match e {
            EraNames::Meiji => seq!['明', '治'],
            EraNames::Taisho => seq!['大', '正'],
            EraNames::Showa => seq!['昭', '和'],
            EraNames::Heisei => seq!['平', '成'],
            EraNames::Reiwa => seq!['令', '和'],
        },
    }
}

/// The era named by a token: a full ideographic name, or an initial in
/// either case.
pub open spec fn era_of_token(t: Seq<char>) -> Option<EraNames> {
    if t.len() == 1 {
        let c = t[0];
        if c == 'M' || c == 'm' {
            Some(EraNames::Meiji)
        } else if c == 'T' || c == 't' {
            Some(EraNames::Taisho)
        } else if c == 'S' || c == 's' {
            Some(EraNames::Showa)
        } else if c == 'H' || c == 'h' {
            Some(EraNames::Heisei)
        } else if c == 'R' || c == 'r' {
            Some(EraNames::Reiwa)
        } else {
            None
        }
    } else if t.len() == 2 {
        let (a, b) = (t[0], t[1]);
        if a == '明' && b == '治' {
            Some(EraNames::Meiji)
        } else if a == '大' && b == '正' {
            Some(EraNames::Taisho)
        } else if a == '昭' && b == '和' {
            Some(EraNames::Showa)
        } else if a == '平' && b == '成' {
            Some(EraNames::Heisei)
        } else if a == '令' && b == '和' {
            Some(EraNames::Reiwa)
        } else {
            None
        }
    } else {
        None
    }
}

impl EraFormat {
    /// The lower-case name of the format, as shown in a prompt.
    pub fn name(self) -> (r: String)
        ensures
            self == EraFormat::Kanji ==> r@ == seq!['k', 'a', 'n', 'j', 'i'],
            self == EraFormat::Initial ==> r@ == seq!['i', 'n', 'i', 't', 'i', 'a', 'l'],
    {
        match self {
            EraFormat::Initial => {
                proof {
                    reveal_strlit("initial");
                }
                String::from_str("initial")
            },
            EraFormat::Kanji => {
                proof {
                    reveal_strlit("kanji");
                }
                String::from_str("kanji")
            },
        }
    }
}

impl EraNames {
    /// The first western year of the era.
    pub fn into_u32(self) -> (r: u32)
        ensures
            r == start_year(self),
    {
        match self {
            EraNames::Meiji => 1868,
            EraNames::Taisho => 1912,
            EraNames::Showa => 1926,
            EraNames::Heisei => 1989,
            EraNames::Reiwa => 2019,
        }
    }

    /// The era's name in the given format.
    pub fn into_string_with_format(self, format: EraFormat) -> (r: String)
        ensures
            r@ == era_label(self, format),
    {
        let s: &str = match format {
            EraFormat::Initial => match self {
                EraNames::Meiji => "M",
                EraNames::Taisho => "T",
                EraNames::Showa => "S",
                EraNames::Heisei => "H",
                EraNames::Reiwa => "R",
            },
            EraFormat::Kanji => match self {
                EraNames::Meiji => "明治",
                EraNames::Taisho => "大正",
                EraNames::Showa => "昭和",
                EraNames::Heisei => "平成",
                EraNames::Reiwa => "令和",
            },
        };
        proof {
            reveal_strlit("M");
            reveal_strlit("T");
            reveal_strlit("S");
            reveal_strlit("H");
            reveal_strlit("R");
            reveal_strlit("明治");
            reveal_strlit("大正");
            reveal_strlit("昭和");
            reveal_strlit("平成");
            reveal_strlit("令和");
        }
        let r = String::from_str(s);
        assert(r@ =~= era_label(self, format));
        r
    }
}

} // verus!
