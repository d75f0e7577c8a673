//! Timestamps at the precision the registry stores: day and minute.
//!
//! The registry persists every timestamp as the text `DD.MM.YYYY HH:MM`.
//! This module models such a moment as plain calendar fields, converts it
//! to and from that text, and turns it into a count of minutes on one
//! common axis so that two moments can be compared.

use vstd::prelude::*;

verus! {

/// A point in time: a Gregorian calendar date plus hour and minute.
#[derive(Clone, Copy, Debug, PartialEq, Eq, Structural)]
pub struct Cas {
    pub rok: u16,
    pub mesic: u8,
    pub den: u8,
    pub hodina: u8,
    pub minuta: u8,
}

/// Gregorian leap-year rule.
pub open spec fn prestupny(rok: int) -> bool {
    rok % 4 == 0 && (rok % 100 != 0 || rok % 400 == 0)
}

/// Length of a month, counting months from 1.
pub open spec fn dny_v_mesici(rok: int, mesic: int) -> int {
    if mesic == 2 {
        if prestupny(rok) {
            29
        } else {
            28
        }
    } else if mesic == 4 || mesic == 6 || mesic == 9 || mesic == 11 {
        30
    } else {
        31
    }
}

impl Cas {
    /// A representable moment: a real calendar date within the four-digit
    /// years, and a time of day.
    pub open spec fn platny(self) -> bool {
        &&& self.rok <= 9999
        &&& 1 <= self.mesic <= 12
        &&& 1 <= self.den <= dny_v_mesici(self.rok as int, self.mesic as int)
        &&& self.hodina < 24
        &&& self.minuta < 60
    }
}

/// Days in the year `rok`.
pub open spec fn dny_roku(rok: int) -> int {
    if prestupny(rok) {
        366
    } else {
        365
    }
}

/// Days in all years before `rok`, counting from year 0.
pub open spec fn dny_pred_rokem(rok: int) -> int
    decreases rok,
{
    if rok <= 0 {
        0
    } else {
        dny_pred_rokem(rok - 1) + dny_roku(rok - 1)
    }
}

/// Days in all months of `rok` before `mesic`.
pub open spec fn dny_pred_mesicem(rok: int, mesic: int) -> int
    decreases mesic,
{
    if mesic <= 1 {
        0
    } else {
        dny_pred_mesicem(rok, mesic - 1) + dny_v_mesici(rok, mesic - 1)
    }
}

/// Minutes from the start of year 0 to the moment `t`: the common axis on
/// which two moments are compared.
pub open spec fn minuty(t: Cas) -> int {
    (dny_pred_rokem(t.rok as int) + dny_pred_mesicem(t.rok as int, t.mesic as int) + t.den - 1)
        * 1440 + t.hodina * 60 + t.minuta
}

proof fn lemma_dny_pred_rokem_mez(rok: int)
    requires
        0 <= rok,
    ensures
        dny_pred_rokem(rok) <= 366 * rok,
    decreases rok,
{
    if rok > 0 {
        lemma_dny_pred_rokem_mez(rok - 1);
    }
}

proof fn lemma_dny_pred_mesicem_mez(rok: int, mesic: int)
    requires
        1 <= mesic,
    ensures
        dny_pred_mesicem(rok, mesic) <= 31 * (mesic - 1),
    decreases mesic,
{
    if mesic > 1 {
        lemma_dny_pred_mesicem_mez(rok, mesic - 1);
    }
}

/// Executable leap-year test.
pub fn je_prestupny(rok: u16) -> (r: bool)
    ensures
        r == prestupny(rok as int),
{
    rok % 4 == 0 && (rok % 100 != 0 || rok % 400 == 0)
}

/// Executable month length.
pub fn delka_mesice(rok: u16, mesic: u8) -> (r: u8)
    requires
        1 <= mesic <= 12,
    ensures
        r == dny_v_mesici(rok as int, mesic as int),
        28 <= r <= 31,
{
    if mesic == 2 {
        if je_prestupny(rok) {
            29
        } else {
            28
        }
    } else if mesic == 4 || mesic == 6 || mesic == 9 || mesic == 11 {
        30
    } else {
        31
    }
}

impl Cas {
    /// Minutes from the start of year 0 to this moment.
    pub fn do_minut(&self) -> (r: u64)
        requires
            self.platny(),
        ensures
            r == minuty(*self),
    {
        let mut dny: u64 = 0;
        let mut r: u16 = 0;
        while r < self.rok
            invariant
                r <= self.rok,
                dny == dny_pred_rokem(r as int),
                dny <= 366 * r,
            decreases self.rok - r,
        {
            dny = dny + if je_prestupny(r) {
                366
            } else {
                365
            };
            r = r + 1;
        }
        let mut m: u8 = 1;
        while m < self.mesic
            invariant
                1 <= m <= self.mesic,
                self.platny(),
                dny == dny_pred_rokem(self.rok as int) + dny_pred_mesicem(
                    self.rok as int,
                    m as int,
                ),
                dny <= 366 * self.rok + 31 * (m - 1),
            decreases self.mesic - m,
        {
            dny = dny + delka_mesice(self.rok, m) as u64;
            m = m + 1;
        }
        proof {
            lemma_dny_pred_rokem_mez(self.rok as int);
            lemma_dny_pred_mesicem_mez(self.rok as int, self.mesic as int);
        }
        (dny + self.den as u64 - 1) * 1440 + self.hodina as u64 * 60 + self.minuta as u64
    }
}

/// The decimal digit `d` as a character.
pub open spec fn cislice(d: int) -> char {
    if d == 0 {
        '0'
    } else if d == 1 {
        '1'
    } else if d == 2 {
        '2'
    } else if d == 3 {
        '3'
    } else if d == 4 {
        '4'
    } else if d == 5 {
        '5'
    } else if d == 6 {
        '6'
    } else if d == 7 {
        '7'
    } else if d == 8 {
        '8'
    } else {
        '9'
    }
}

/// `v` written as two decimal digits, zero-padded.
pub open spec fn dve_cislice(v: int) -> Seq<char> {
    seq![cislice(v / 10), cislice(v % 10)]
}

/// `v` written as four decimal digits, zero-padded.
pub open spec fn ctyri_cislice(v: int) -> Seq<char> {
    seq![cislice(v / 1000), cislice((v / 100) % 10), cislice((v / 10) % 10), cislice(v % 10)]
}

/// The canonical text of the moment `t`: `DD.MM.YYYY HH:MM`.
pub open spec fn zapis(t: Cas) -> Seq<char> {
    dve_cislice(t.den as int) + seq!['.'] + dve_cislice(t.mesic as int) + seq!['.'] + ctyri_cislice(
        t.rok as int,
    ) + seq![' '] + dve_cislice(t.hodina as int) + seq![':'] + dve_cislice(t.minuta as int)
}

/// The digit `d` as a one-character string slice.
fn cislice_txt(d: u8) -> (r: &'static str)
    requires
        d < 10,
    ensures
        r@ == seq![cislice(d as int)],
{
    proof {
        reveal_strlit("0");
        reveal_strlit("1");
        reveal_strlit("2");
        reveal_strlit("3");
        reveal_strlit("4");
        reveal_strlit("5");
        reveal_strlit("6");
        reveal_strlit("7");
        reveal_strlit("8");
        reveal_strlit("9");
    }
    let r = if d == 0 {
        "0"
    } else if d == 1 {
        "1"
    } else if d == 2 {
        "2"
    } else if d == 3 {
        "3"
    } else if d == 4 {
        "4"
    } else if d == 5 {
        "5"
    } else if d == 6 {
        "6"
    } else if d == 7 {
        "7"
    } else if d == 8 {
        "8"
    } else {
        "9"
    };
    proof {
        assert(r@ =~= seq![cislice(d as int)]);
    }
    r
}

/// Appends `v` to `s` as two zero-padded digits.
fn pridej_dve(s: &mut String, v: u8)
    requires
        v < 100,
    ensures
        final(s)@ == old(s)@ + dve_cislice(v as int),
{
    s.append(cislice_txt(v / 10));
    s.append(cislice_txt(v % 10));
    assert(s@ =~= old(s)@ + dve_cislice(v as int));
}

/// Appends `v` to `s` as four zero-padded digits.
fn pridej_ctyri(s: &mut String, v: u16)
    requires
        v < 10000,
    ensures
        final(s)@ == old(s)@ + ctyri_cislice(v as int),
{
    s.append(cislice_txt((v / 1000) as u8));
    s.append(cislice_txt(((v / 100) % 10) as u8));
    s.append(cislice_txt(((v / 10) % 10) as u8));
    s.append(cislice_txt((v % 10) as u8));
    assert(s@ =~= old(s)@ + ctyri_cislice(v as int));
}

/// The moment `t` as the registry's timestamp text `DD.MM.YYYY HH:MM`.
pub fn zapis_cas(t: &Cas) -> (r: String)
    requires
        t.platny(),
    ensures
        r@ == zapis(*t),
{
    let mut s = String::new();
    pridej_dve(&mut s, t.den);
    s.append(".");
    pridej_dve(&mut s, t.mesic);
    s.append(".");
    pridej_ctyri(&mut s, t.rok);
    s.append(" ");
    pridej_dve(&mut s, t.hodina);
    s.append(":");
    pridej_dve(&mut s, t.minuta);
    proof {
        reveal_strlit(".");
        reveal_strlit(" ");
        reveal_strlit(":");
        assert(s@ =~= zapis(*t));
    }
    s
}

/// A decimal digit character.
pub open spec fn je_cislice(c: char) -> bool {
    48 <= c as u32 <= 57
}

/// Numeric value of a digit character.
pub open spec fn hodnota_cislice(c: char) -> int {
    c as u32 - 48
}

/// Value of the two digit characters at `i`, `i + 1`.
pub open spec fn hodnota2(s: Seq<char>, i: int) -> int {
    hodnota_cislice(s[i]) * 10 + hodnota_cislice(s[i + 1])
}

/// Value of the four digit characters starting at `i`.
pub open spec fn hodnota4(s: Seq<char>, i: int) -> int {
    hodnota2(s, i) * 100 + hodnota2(s, i + 2)
}

/// The text has the shape `DD.MM.YYYY HH:MM`: digits and separators in place.
pub open spec fn tvar_zapisu(s: Seq<char>) -> bool {
    &&& s.len() == 16
    &&& je_cislice(s[0]) && je_cislice(s[1]) && s[2] == '.'
    &&& je_cislice(s[3]) && je_cislice(s[4]) && s[5] == '.'
    &&& je_cislice(s[6]) && je_cislice(s[7]) && je_cislice(s[8]) && je_cislice(s[9]) && s[10]
        == ' '
    &&& je_cislice(s[11]) && je_cislice(s[12]) && s[13] == ':'
    &&& je_cislice(s[14]) && je_cislice(s[15])
}

/// The moment written in a text of the right shape.
pub open spec fn cteny_cas(s: Seq<char>) -> Cas {
    Cas {
        rok: hodnota4(s, 6) as u16,
        mesic: hodnota2(s, 3) as u8,
        den: hodnota2(s, 0) as u8,
        hodina: hodnota2(s, 11) as u8,
        minuta: hodnota2(s, 14) as u8,
    }
}

/// A parsable timestamp text: right shape, and the fields name a real moment.
pub open spec fn platny_zapis(s: Seq<char>) -> bool {
    tvar_zapisu(s) && cteny_cas(s).platny()
}

/// Numeric value of a digit character, or `None` for any other character.
fn cislice_hodnota(c: char) -> (r: Option<u8>)
    ensures
        r is Some <==> je_cislice(c),
        r matches Some(v) ==> v == hodnota_cislice(c) && v < 10,
{
    let u = c as u32;
    if 48 <= u && u <= 57 {
        Some((u - 48) as u8)
    } else {
        None
    }
}

/// Value of two digit characters of `s` at `i`, or `None` if either is no digit.
fn dve_hodnota(s: &str, i: usize) -> (r: Option<u8>)
    requires
        i <= usize::MAX - 2,
        i + 2 <= s@.len(),
    ensures
        r is Some <==> je_cislice(s@[i as int]) && je_cislice(s@[i + 1]),
        r matches Some(v) ==> v == hodnota2(s@, i as int) && v < 100,
{
    let a = match cislice_hodnota(s.get_char(i)) {
        Some(v) => v,
        None => {
            return None;
        },
    };
    let b = match cislice_hodnota(s.get_char(i + 1)) {
        Some(v) => v,
        None => {
            return None;
        },
    };
    Some(a * 10 + b)
}

/// Reads a timestamp text `DD.MM.YYYY HH:MM`.  Exactly the texts that such
/// a write produces for a representable moment are accepted.
pub fn cti_cas(s: &str) -> (r: Option<Cas>)
    ensures
        r is Some <==> platny_zapis(s@),
        r matches Some(t) ==> t == cteny_cas(s@) && t.platny(),
{
    if s.unicode_len() != 16 {
        return None;
    }
    if s.get_char(2) != '.' || s.get_char(5) != '.' || s.get_char(10) != ' ' || s.get_char(13)
        != ':' {
        return None;
    }
    let den = match dve_hodnota(s, 0) {
        Some(v) => v,
        None => {
            return None;
        },
    };
    let mesic = match dve_hodnota(s, 3) {
        Some(v) => v,
        None => {
            return None;
        },
    };
    let rok_h = match dve_hodnota(s, 6) {
        Some(v) => v,
        None => {
            return None;
        },
    };
    let rok_d = match dve_hodnota(s, 8) {
        Some(v) => v,
        None => {
            return None;
        },
    };
    let hodina = match dve_hodnota(s, 11) {
        Some(v) => v,
        None => {
            return None;
        },
    };
    let minuta = match dve_hodnota(s, 14) {
        Some(v) => v,
        None => {
            return None;
        },
    };
    let rok: u16 = rok_h as u16 * 100 + rok_d as u16;
    if mesic < 1 || mesic > 12 {
        return None;
    }
    if den < 1 || den > delka_mesice(rok, mesic) {
        return None;
    }
    if hodina >= 24 || minuta >= 60 {
        return None;
    }
    Some(Cas { rok, mesic, den, hodina, minuta })
}

/// Writing a representable moment and reading the text back yields the
/// same moment: the timestamp text loses nothing.
pub proof fn lemma_zapis_cti(t: Cas)
    requires
        t.platny(),
    ensures
        platny_zapis(zapis(t)),
        cteny_cas(zapis(t)) == t,
{
    let s = zapis(t);
    let den = t.den as int;
    let mesic = t.mesic as int;
    let rok = t.rok as int;
    let hodina = t.hodina as int;
    let minuta = t.minuta as int;
    assert(s =~= seq![
        cislice(den / 10),
        cislice(den % 10),
        '.',
        cislice(mesic / 10),
        cislice(mesic % 10),
        '.',
        cislice(rok / 1000),
        cislice((rok / 100) % 10),
        cislice((rok / 10) % 10),
        cislice(rok % 10),
        ' ',
        cislice(hodina / 10),
        cislice(hodina % 10),
        ':',
        cislice(minuta / 10),
        cislice(minuta % 10),
    ]);
    assert forall|d: int| 0 <= d < 10 implies je_cislice(cislice(d)) && hodnota_cislice(
        cislice(d),
    ) == d by {}
    assert(rok / 100 == (rok / 1000) * 10 + (rok / 100) % 10) by {
        assert((rok / 100) / 10 == rok / 1000) by (nonlinear_arith)
            requires
                0 <= rok,
        ;
    }
    assert(rok % 100 == ((rok / 10) % 10) * 10 + rok % 10) by (nonlinear_arith)
        requires
            0 <= rok,
    ;
    assert(hodnota4(s, 6) == rok);
    assert(cteny_cas(s) == t);
}

/// Relies on `chrono::Local::now` for the current wall-clock moment, read
/// off through chrono's `Datelike` and `Timelike` accessors; chrono
/// documents the component ranges stated here.  Which moment comes back
/// depends on the clock, so nothing more is promised.  chrono panics on a
/// clock set before 1970 or beyond the four-digit years, so such a clock
/// is answered with the nearest fixed valid moment instead of the call.
#[verifier::external_body]
fn hodiny_ted() -> (r: (i32, u8, u8, u8, u8))
    ensures
        1 <= r.1 <= 12,
        1 <= r.2 <= 31,
        r.3 < 24,
        r.4 < 60,
{
    match std::time::SystemTime::now().duration_since(std::time::UNIX_EPOCH) {
        Err(_) => return (1970, 1, 1, 0, 0),
        Ok(d) if d.as_secs() > 253_402_300_799 => return (9999, 12, 31, 23, 59),
        Ok(_) => {},
    }
    let ted = chrono::Local::now().naive_local();
    (
        chrono::Datelike::year(&ted),
        chrono::Datelike::month(&ted) as u8,
        chrono::Datelike::day(&ted) as u8,
        chrono::Timelike::hour(&ted) as u8,
        chrono::Timelike::minute(&ted) as u8,
    )
}

/// The current wall-clock moment, pinned into the representable range: a
/// clock outside the four-digit years is clamped to the nearest such year,
/// and a day past its month's end (which a sane clock never reports) to the
/// month's last day.
pub fn aktualni_cas() -> (r: Cas)
    ensures
        r.platny(),
{
    let (rok_raw, mesic, den, hodina, minuta) = hodiny_ted();
    let rok: u16 = if rok_raw < 0 {
        0
    } else if rok_raw > 9999 {
        9999
    } else {
        rok_raw as u16
    };
    let nejvys = delka_mesice(rok, mesic);
    let den_p = if den > nejvys {
        nejvys
    } else {
        den
    };
    Cas { rok, mesic, den: den_p, hodina, minuta }
}

} // verus!
