//! The five-bit teleprinter code with its two shifts, as used on the air.
use crate::text;
use vstd::prelude::*;

verus! {

pub const LTRS: u8 = 31;

pub const FIGS: u8 = 27;

pub const BAUDOT_SPACE: u8 = 4;

pub const BAUDOT_CR: u8 = 2;

pub const BAUDOT_LF: u8 = 8;

/// The letter of a code.
pub open spec fn letter(v: u8) -> Option<char> {
    match v {
        3 => Some('A'),
        25 => Some('B'),
        14 => Some('C'),
        9 => Some('D'),
        1 => Some('E'),
        13 => Some('F'),
        26 => Some('G'),
        20 => Some('H'),
        6 => Some('I'),
        11 => Some('J'),
        15 => Some('K'),
        18 => Some('L'),
        28 => Some('M'),
        12 => Some('N'),
        24 => Some('O'),
        22 => Some('P'),
        23 => Some('Q'),
        10 => Some('R'),
        5 => Some('S'),
        16 => Some('T'),
        7 => Some('U'),
        30 => Some('V'),
        19 => Some('W'),
        29 => Some('X'),
        21 => Some('Y'),
        17 => Some('Z'),
        _ => None,
    }
}

/// The figure of a code.
pub open spec fn figure(v: u8) -> Option<char> {
    match v {
        1 => Some('3'),
        3 => Some('-'),
        6 => Some('8'),
        7 => Some('7'),
        9 => Some('$'),
        10 => Some('4'),
        11 => Some('\''),
        12 => Some(','),
        13 => Some('!'),
        14 => Some(':'),
        15 => Some('('),
        16 => Some('5'),
        17 => Some('"'),
        18 => Some(')'),
        19 => Some('2'),
        20 => Some('#'),
        21 => Some('6'),
        22 => Some('0'),
        23 => Some('1'),
        24 => Some('9'),
        25 => Some('?'),
        26 => Some('&'),
        28 => Some('.'),
        29 => Some('/'),
        30 => Some(';'),
        _ => None,
    }
}

pub fn letter_char(v: u8) -> (c: Option<char>)
    ensures
        c == letter(v),
{
    match v {
        3 => Some('A'),
        25 => Some('B'),
        14 => Some('C'),
        9 => Some('D'),
        1 => Some('E'),
        13 => Some('F'),
        26 => Some('G'),
        20 => Some('H'),
        6 => Some('I'),
        11 => Some('J'),
        15 => Some('K'),
        18 => Some('L'),
        28 => Some('M'),
        12 => Some('N'),
        24 => Some('O'),
        22 => Some('P'),
        23 => Some('Q'),
        10 => Some('R'),
        5 => Some('S'),
        16 => Some('T'),
        7 => Some('U'),
        30 => Some('V'),
        19 => Some('W'),
        29 => Some('X'),
        21 => Some('Y'),
        17 => Some('Z'),
        _ => None,
    }
}

pub fn figure_char(v: u8) -> (c: Option<char>)
    ensures
        c == figure(v),
{
    match v {
        1 => Some('3'),
        3 => Some('-'),
        6 => Some('8'),
        7 => Some('7'),
        9 => Some('$'),
        10 => Some('4'),
        11 => Some('\''),
        12 => Some(','),
        13 => Some('!'),
        14 => Some(':'),
        15 => Some('('),
        16 => Some('5'),
        17 => Some('"'),
        18 => Some(')'),
        19 => Some('2'),
        20 => Some('#'),
        21 => Some('6'),
        22 => Some('0'),
        23 => Some('1'),
        24 => Some('9'),
        25 => Some('?'),
        26 => Some('&'),
        28 => Some('.'),
        29 => Some('/'),
        30 => Some(';'),
        _ => None,
    }
}

/// `v` is the lowest code whose letter is `c`, or there is none.
pub open spec fn is_letter_code(c: char, v: Option<u8>) -> bool {
    match v {
        Some(v) => v < 32 && letter(v) == Some(c) && forall|w: u8|
            w < v ==> #[trigger] letter(w) != Some(c),
        None => forall|w: u8| w < 32 ==> #[trigger] letter(w) != Some(c),
    }
}

/// `v` is the lowest code whose figure is `c`, or there is none.
pub open spec fn is_figure_code(c: char, v: Option<u8>) -> bool {
    match v {
        Some(v) => v < 32 && figure(v) == Some(c) && forall|w: u8|
            w < v ==> #[trigger] figure(w) != Some(c),
        None => forall|w: u8| w < 32 ==> #[trigger] figure(w) != Some(c),
    }
}

/// The code of a letter.
pub fn letter_code(c: char) -> (v: Option<u8>)
    ensures
        is_letter_code(c, v),
{
    let mut v: u8 = 0;
    while v < 32
        invariant
            v <= 32,
            forall|w: u8| w < v ==> #[trigger] letter(w) != Some(c),
        decreases 32 - v,
    {
        if let Some(l) = letter_char(v) {
            if l == c {
                return Some(v);
            }
        }
        v = v + 1;
    }
    None
}

/// The code of a figure.
pub fn figure_code(c: char) -> (v: Option<u8>)
    ensures
        is_figure_code(c, v),
{
    let mut v: u8 = 0;
    while v < 32
        invariant
            v <= 32,
            forall|w: u8| w < v ==> #[trigger] figure(w) != Some(c),
        decreases 32 - v,
    {
        if let Some(l) = figure_char(v) {
            if l == c {
                return Some(v);
            }
        }
        v = v + 1;
    }
    None
}

/// Decodes codes to characters, following the shift codes.
#[derive(Clone, Copy, Debug, PartialEq, Eq, Structural)]
pub struct BaudotRx {
    /// Whether figures are selected.
    pub figs: bool,
}

/// The shift after a code.
pub open spec fn shift_after(figs: bool, v: u8) -> bool {
    if v == LTRS {
        false
    } else if v == FIGS {
        true
    } else {
        figs
    }
}

/// The character of a code under a shift. Carriage returns are left out, as
/// line feeds alone begin a line.
pub open spec fn decoded(figs: bool, v: u8) -> Option<char> {
    if v == LTRS || v == FIGS || v == BAUDOT_CR || v == 0 {
        None
    } else if v == BAUDOT_SPACE {
        Some(' ')
    } else if v == BAUDOT_LF {
        Some('\n')
    } else if figs {
        figure(v)
    } else {
        letter(v)
    }
}

impl Default for BaudotRx {
    fn default() -> (b: Self)
        ensures
            !b.figs,
    {
        BaudotRx { figs: false }
    }
}

impl BaudotRx {
    pub fn new() -> (b: Self)
        ensures
            !b.figs,
    {
        BaudotRx { figs: false }
    }

    /// Decodes one code; `None` for shifts and codes without a character.
    pub fn decode(&mut self, value: u8) -> (c: Option<char>)
        ensures
            c == decoded(old(self).figs, value),
            final(self).figs == shift_after(old(self).figs, value),
    {
        match value {
            LTRS => {
                self.figs = false;
                None
            },
            FIGS => {
                self.figs = true;
                None
            },
            BAUDOT_SPACE => Some(' '),
            BAUDOT_LF => Some('\n'),
            BAUDOT_CR => None,
            0 => None,
            v => if self.figs {
                figure_char(v)
            } else {
                letter_char(v)
            },
        }
    }
}

// ---------------------------------------------------------------------
// Encoding
// ---------------------------------------------------------------------

/// How a character is sent.
#[derive(Clone, Copy, Debug, PartialEq, Eq, Structural)]
pub struct BaudotCode {
    pub value: u8,
    /// The shift it needs: figures, letters, or either.
    pub needs_figs: Option<bool>,
}

pub open spec fn has_letter(c: char) -> bool {
    exists|v: u8| v < 32 && #[trigger] letter(v) == Some(c)
}

pub open spec fn has_figure(c: char) -> bool {
    exists|v: u8| v < 32 && #[trigger] figure(v) == Some(c)
}

/// How a character is sent, if it can be.
pub open spec fn encoded(c: char) -> Option<BaudotCode> {
    if c == ' ' {
        Some(BaudotCode { value: BAUDOT_SPACE, needs_figs: None })
    } else if c == '\n' {
        Some(BaudotCode { value: BAUDOT_LF, needs_figs: None })
    } else if c == '\r' {
        Some(BaudotCode { value: BAUDOT_CR, needs_figs: None })
    } else if has_letter(c) {
        Some(
            BaudotCode {
                value: choose|v: u8| v < 32 && #[trigger] letter(v) == Some(c),
                needs_figs: Some(false),
            },
        )
    } else if has_figure(c) {
        Some(
            BaudotCode {
                value: choose|v: u8| v < 32 && #[trigger] figure(v) == Some(c),
                needs_figs: Some(true),
            },
        )
    } else {
        None
    }
}

/// Looks up how a character is sent.
pub fn encode(c: char) -> (r: Option<BaudotCode>)
    ensures
        r == encoded(c),
{
    if c == ' ' {
        return Some(BaudotCode { value: BAUDOT_SPACE, needs_figs: None });
    }
    if c == '\n' {
        return Some(BaudotCode { value: BAUDOT_LF, needs_figs: None });
    }
    if c == '\r' {
        return Some(BaudotCode { value: BAUDOT_CR, needs_figs: None });
    }
    if let Some(v) = letter_code(c) {
        proof {
            assert(letter(v) == Some(c));
            let w = choose|w: u8| w < 32 && #[trigger] letter(w) == Some(c);
            law_codes_are_unique(v, w);
        }
        return Some(BaudotCode { value: v, needs_figs: Some(false) });
    }
    if let Some(v) = figure_code(c) {
        proof {
            assert(figure(v) == Some(c));
            let w = choose|w: u8| w < 32 && #[trigger] figure(w) == Some(c);
            law_codes_are_unique(v, w);
        }
        return Some(BaudotCode { value: v, needs_figs: Some(true) });
    }
    None
}

/// A character in capitals, within ASCII.
pub fn to_upper(c: char) -> (u: char)
    ensures
        u == text::ascii_upper(c),
{
    if 'a' <= c && c <= 'z' {
        (c as u8 - 32) as char
    } else {
        c
    }
}

// ---------------------------------------------------------------------
// Laws
// ---------------------------------------------------------------------

/// No letter and no figure has two codes, so the code of a character is
/// determined by it, and no character is both a letter and a figure.
pub proof fn law_codes_are_unique(v: u8, w: u8)
    ensures
        letter(v) is Some && letter(v) == letter(w) ==> v == w,
        figure(v) is Some && figure(v) == figure(w) ==> v == w,
        letter(v) is Some ==> letter(v) != figure(w),
{
}

/// Every capital letter has a code.
pub proof fn law_alphabet_is_complete(c: char)
    requires
        'A' <= c <= 'Z',
    ensures
        has_letter(c),
        encoded(c) is Some,
{
    if c == 'A' {
        assert(letter(3) == Some(c));
    }
    if c == 'B' {
        assert(letter(25) == Some(c));
    }
    if c == 'C' {
        assert(letter(14) == Some(c));
    }
    if c == 'D' {
        assert(letter(9) == Some(c));
    }
    if c == 'E' {
        assert(letter(1) == Some(c));
    }
    if c == 'F' {
        assert(letter(13) == Some(c));
    }
    if c == 'G' {
        assert(letter(26) == Some(c));
    }
    if c == 'H' {
        assert(letter(20) == Some(c));
    }
    if c == 'I' {
        assert(letter(6) == Some(c));
    }
    if c == 'J' {
        assert(letter(11) == Some(c));
    }
    if c == 'K' {
        assert(letter(15) == Some(c));
    }
    if c == 'L' {
        assert(letter(18) == Some(c));
    }
    if c == 'M' {
        assert(letter(28) == Some(c));
    }
    if c == 'N' {
        assert(letter(12) == Some(c));
    }
    if c == 'O' {
        assert(letter(24) == Some(c));
    }
    if c == 'P' {
        assert(letter(22) == Some(c));
    }
    if c == 'Q' {
        assert(letter(23) == Some(c));
    }
    if c == 'R' {
        assert(letter(10) == Some(c));
    }
    if c == 'S' {
        assert(letter(5) == Some(c));
    }
    if c == 'T' {
        assert(letter(16) == Some(c));
    }
    if c == 'U' {
        assert(letter(7) == Some(c));
    }
    if c == 'V' {
        assert(letter(30) == Some(c));
    }
    if c == 'W' {
        assert(letter(19) == Some(c));
    }
    if c == 'X' {
        assert(letter(29) == Some(c));
    }
    if c == 'Y' {
        assert(letter(21) == Some(c));
    }
    if c == 'Z' {
        assert(letter(17) == Some(c));
    }
}

/// Decoding gives only printable ASCII characters and line feeds.
pub proof fn law_decoded_is_ascii(figs: bool, v: u8)
    ensures
        decoded(figs, v) matches Some(c) ==> c == '\n' || (' ' <= c <= 'Z'),
{
}

/// What was encoded decodes to itself under the shift it needs, and leaves
/// the shift alone. Carriage returns alone decode to nothing.
pub proof fn law_code_round_trip(c: char, figs: bool)
    requires
        encoded(c) matches Some(b) && (b.needs_figs is None || b.needs_figs == Some(figs)),
    ensures
        decoded(figs, encoded(c)->0.value) == (if c == '\r' {
            None
        } else {
            Some(c)
        }),
        shift_after(figs, encoded(c)->0.value) == figs,
        encoded(c)->0.value < 32,
{
}

/// The letters of the published code, in the order of their codes from 0
/// to 31; a low line stands where there is none.
pub open spec fn ita2_letters() -> Seq<char> {
    "_E_A_SIU_DRJNFCKTZLWHYPQOBG_MXV_"@
}

/// The figures of the code as American teleprinters have them, in the
/// order of their codes from 0 to 31; a low line stands where there is none.
pub open spec fn ita2_figures() -> Seq<char> {
    "_3_-__87_$4',!:(5\")2#6019?&_./;_"@
}

/// The code table is the published one: 4 is the space and 8 the line feed
/// in both shifts, and every other code is what the two rows say.
pub proof fn law_table_is_ita2(v: u8)
    ensures
        v < 32 ==> decoded(false, v) == (if v == 4 {
            Some(' ')
        } else if v == 8 {
            Some('\n')
        } else if ita2_letters()[v as int] == '_' {
            None
        } else {
            Some(ita2_letters()[v as int])
        }),
        v < 32 ==> decoded(true, v) == (if v == 4 {
            Some(' ')
        } else if v == 8 {
            Some('\n')
        } else if ita2_figures()[v as int] == '_' {
            None
        } else {
            Some(ita2_figures()[v as int])
        }),
        v < 32 ==> letter(v) == (if ita2_letters()[v as int] == '_' {
            None
        } else {
            Some(ita2_letters()[v as int])
        }),
        v < 32 ==> figure(v) == (if ita2_figures()[v as int] == '_' {
            None
        } else {
            Some(ita2_figures()[v as int])
        }),
        v >= 32 ==> decoded(false, v) is None && decoded(true, v) is None && letter(v) is None
            && figure(v) is None,
{
    reveal_strlit("_E_A_SIU_DRJNFCKTZLWHYPQOBG_MXV_");
    reveal_strlit("_3_-__87_$4',!:(5\")2#6019?&_./;_");
}

/// Code 31 selects letters and code 27 figures, whatever was selected; no
/// other code changes the selection.
pub proof fn law_shift_codes(figs: bool, v: u8)
    ensures
        v == 31 ==> !shift_after(figs, v),
        v == 27 ==> shift_after(figs, v),
        v != 31 && v != 27 ==> shift_after(figs, v) == figs,
{
}

/// The digits 1 to 9 and 0 are on the keys of the top row of letters.
pub proof fn law_digits_are_on_the_top_row(k: int, v: u8)
    requires
        0 <= k < 10,
        v < 32,
    ensures
        letter(v) == Some("QWERTYUIOP"@[k]) <==> figure(v) == Some("1234567890"@[k]),
        decoded(false, v) == Some("QWERTYUIOP"@[k]) <==> decoded(true, v) == Some(
            "1234567890"@[k],
        ),
{
    reveal_strlit("QWERTYUIOP");
    reveal_strlit("1234567890");
}

/// A character is sent by the code at whose place it stands in the rows:
/// letters need the letters shift and figures the figures shift, while the
/// space, the line feed and the carriage return need neither. Nothing else
/// can be sent.
pub proof fn law_sent_codes_are_ita2(c: char)
    ensures
        forall|v: u8|
            v < 32 && c != '_' && #[trigger] ita2_letters()[v as int] == c ==> encoded(c) == Some(
                BaudotCode { value: v, needs_figs: Some(false) },
            ),
        forall|v: u8|
            v < 32 && c != '_' && #[trigger] ita2_figures()[v as int] == c ==> encoded(c) == Some(
                BaudotCode { value: v, needs_figs: Some(true) },
            ),
        c == ' ' ==> encoded(c) == Some(BaudotCode { value: 4, needs_figs: None }),
        c == '\n' ==> encoded(c) == Some(BaudotCode { value: 8, needs_figs: None }),
        c == '\r' ==> encoded(c) == Some(BaudotCode { value: 2, needs_figs: None }),
        encoded(c) is Some ==> {
            ||| c == ' ' || c == '\n' || c == '\r'
            ||| exists|v: u8| v < 32 && #[trigger] ita2_letters()[v as int] == c
            ||| exists|v: u8| v < 32 && #[trigger] ita2_figures()[v as int] == c
        },
        c == '_' ==> encoded(c) is None,
{
    reveal_strlit("_E_A_SIU_DRJNFCKTZLWHYPQOBG_MXV_");
    reveal_strlit("_3_-__87_$4',!:(5\")2#6019?&_./;_");
    assert forall|v: u8|
        v < 32 && c != '_' && #[trigger] ita2_letters()[v as int] == c implies encoded(c) == Some(
        BaudotCode { value: v, needs_figs: Some(false) },
    ) by {
        law_table_is_ita2(v);
        assert(letter(v) == Some(c));
        let w = choose|w: u8| w < 32 && #[trigger] letter(w) == Some(c);
        law_codes_are_unique(v, w);
        assert(c != ' ' && c != '\n' && c != '\r');
    }
    assert forall|v: u8|
        v < 32 && c != '_' && #[trigger] ita2_figures()[v as int] == c implies encoded(c) == Some(
        BaudotCode { value: v, needs_figs: Some(true) },
    ) by {
        law_table_is_ita2(v);
        assert(figure(v) == Some(c));
        let w = choose|w: u8| w < 32 && #[trigger] figure(w) == Some(c);
        law_codes_are_unique(v, w);
        assert(c != ' ' && c != '\n' && c != '\r');
        if has_letter(c) {
            let u = choose|u: u8| u < 32 && #[trigger] letter(u) == Some(c);
            law_codes_are_unique(u, v);
        }
    }
    if encoded(c) is Some && c != ' ' && c != '\n' && c != '\r' {
        if has_letter(c) {
            let w = choose|w: u8| w < 32 && #[trigger] letter(w) == Some(c);
            law_table_is_ita2(w);
            assert(ita2_letters()[w as int] == c);
        } else {
            let w = choose|w: u8| w < 32 && #[trigger] figure(w) == Some(c);
            law_table_is_ita2(w);
            assert(ita2_figures()[w as int] == c);
        }
    }
    if c == '_' && has_letter(c) {
        let w = choose|w: u8| w < 32 && #[trigger] letter(w) == Some(c);
        law_table_is_ita2(w);
    }
    if c == '_' && has_figure(c) {
        let w = choose|w: u8| w < 32 && #[trigger] figure(w) == Some(c);
        law_table_is_ita2(w);
    }
}

/// The code of a letter is its place in the row of letters, and a character
/// that is not in the row has none; so it is with figures.
pub proof fn law_codes_are_places(c: char, v: Option<u8>)
    requires
        c != '_',
    ensures
        is_letter_code(c, v) ==> (v matches Some(k) ==> k < 32 && ita2_letters()[k as int] == c),
        is_letter_code(c, v) ==> (v is None ==> forall|k: u8|
            k < 32 ==> #[trigger] ita2_letters()[k as int] != c),
        is_figure_code(c, v) ==> (v matches Some(k) ==> k < 32 && ita2_figures()[k as int] == c),
        is_figure_code(c, v) ==> (v is None ==> forall|k: u8|
            k < 32 ==> #[trigger] ita2_figures()[k as int] != c),
{
    if let Some(k) = v {
        law_table_is_ita2(k);
    }
    if is_letter_code(c, None) {
        assert forall|k: u8| k < 32 implies #[trigger] ita2_letters()[k as int] != c by {
            law_table_is_ita2(k);
            assert(letter(k) != Some(c));
        }
    }
    if is_figure_code(c, None) {
        assert forall|k: u8| k < 32 implies #[trigger] ita2_figures()[k as int] != c by {
            law_table_is_ita2(k);
            assert(figure(k) != Some(c));
        }
    }
}

} // verus!
