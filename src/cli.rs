//! What an input line asks for, and the translation of a line in either
//! direction.

use vstd::prelude::*;
use crate::era::{EraFormat, WarekiError, ErrorView, start_year, era_of_year};
use crate::table::western_to_japanese;
use crate::text::{
    char_class, run_end, digits_value, decimal, era_text, parse_era_text, trimmed, chars_of,
    era_to_western, cvt_era_string, decimal_string,
};

verus! {

/// What an input line of the interactive session asks for.
#[derive(Debug, Clone, PartialEq, Eq)]
pub enum Command {
    /// Translate the line.
    Convert(String),
    /// Switch the output format.
    ModeChange(EraFormat),
    /// End the session.
    Quit,
    /// Show the list of commands.
    Help,
}

/// Reads a line as a command: "h" help, "q" quit, "i" initial format,
/// "j" kanji format, anything else a text to translate.
pub fn parse_input(input: &str) -> (r: Command)
    ensures
        input@ == seq!['h'] ==> r == Command::Help,
        input@ == seq!['q'] ==> r == Command::Quit,
        input@ == seq!['i'] ==> r == Command::ModeChange(EraFormat::Initial),
        input@ == seq!['j'] ==> r == Command::ModeChange(EraFormat::Kanji),
        !(input@ == seq!['h'] || input@ == seq!['q'] || input@ == seq!['i'] || input@ == seq!['j'])
            ==> (r matches Command::Convert(s) && s@ == input@),
{
    let n = input.unicode_len();
    if n == 1 {
        let c = input.get_char(0);
        proof {
            let one = |x: char| seq![x];
            assert(input@ =~= one(c));
            assert(one('h')[0] == 'h' && one('q')[0] == 'q' && one('i')[0] == 'i' && one('j')[0] == 'j');
        }
        if c == 'h' {
            return Command::Help;
        } else if c == 'q' {
            return Command::Quit;
        } else if c == 'i' {
            return Command::ModeChange(EraFormat::Initial);
        } else if c == 'j' {
            return Command::ModeChange(EraFormat::Kanji);
        }
    }
    Command::Convert(String::from_str(input))
}

/// A text result with its error seen through `ErrorView`.
pub open spec fn text_result_view(r: Result<String, WarekiError>) -> Result<Seq<char>, ErrorView> {
    match r {
        Ok(v) => Ok(v@),
        Err(e) => Err(e@),
    }
}

/// The outcome of translating a line. A line that starts with a digit is a
/// western year, optionally followed by "年", rendered as an era year in the
/// given format; any other line is era notation, answered with the western
/// year in digits.
pub open spec fn translate_outcome(s: Seq<char>, format: EraFormat) -> Result<Seq<char>, ErrorView> {
    if s.len() > 0 && char_class(s[0]) == 3 {
        let e = run_end(s, 0, 3);
        let rest = s.subrange(e, s.len() as int);
        let y = digits_value(s.subrange(0, e));
        if !(rest.len() == 0 || rest == seq!['年']) {
            Err(ErrorView::InvalidFormat(s))
        } else if y > u32::MAX {
            Err(ErrorView::YearOutOfRange(s))
        } else if y < 1868 {
            Err(ErrorView::NotConvertible(y as u32))
        } else {
            Ok(era_text(era_of_year(y as int), (y - start_year(era_of_year(y as int)) + 1) as nat, format))
        }
    } else {
        match parse_era_text(s) {
            Ok(w) => Ok(decimal(w as nat)),
            Err(x) => Err(x),
        }
    }
}

/// Translates a line in the direction its first character selects.
pub fn translate(s: &str, mode: EraFormat) -> (r: Result<String, WarekiError>)
    ensures
        text_result_view(r) == translate_outcome(s@, mode),
{
    let v = chars_of(s);
    if v.len() > 0 && '0' <= v[0] && v[0] <= '9' {
        let e = crate::text::scan_run(&v, 0, 3);
        let rest_ok = crate::text::year_suffix_only(&v, e);
        proof {
            assert forall|j: int| 0 <= j < e implies char_class(#[trigger] v@[j]) == 3 by {
                crate::text::lemma_run_end_class(v@, 0, 3, j);
            }
        }
        if !rest_ok {
            return Err(WarekiError::InvalidFormat(String::from_str(s)));
        }
        let year = match crate::text::digits_number(&v, 0, e) {
            None => {
                return Err(WarekiError::YearOutOfRange(String::from_str(s)));
            },
            Some(y) => y,
        };
        match western_to_japanese(year) {
            Ok((name, n)) => Ok(cvt_era_string(name, n, mode)),
            Err(x) => Err(x),
        }
    } else {
        match era_to_western(s) {
            Ok(w) => Ok(decimal_string(w)),
            Err(x) => Err(x),
        }
    }
}

/// Translates the line without its leading and trailing whitespace; see
/// `translate`.
pub fn translate_core(s: &str, mode: EraFormat) -> (r: Result<String, WarekiError>)
    ensures
        text_result_view(r) == translate_outcome(trimmed(s@), mode),
{
    translate(crate::text::trim(s), mode)
}

} // verus!
