use partneri::cas::{cti_cas, delka_mesice, zapis_cas, Cas};

fn cas(den: u8, mesic: u8, rok: u16, hodina: u8, minuta: u8) -> Cas {
    Cas { rok, mesic, den, hodina, minuta }
}

#[test]
fn zapis_cas_formats_padded() {
    let t = cas(5, 1, 2024, 9, 30);
    assert_eq!(zapis_cas(&t), "05.01.2024 09:30");
}

#[test]
fn zapis_cas_roundtrips() {
    let t = cas(29, 2, 2024, 23, 59);
    let s = zapis_cas(&t);
    assert_eq!(s, "29.02.2024 23:59");
    let zpet = cti_cas(&s).expect("written timestamp must parse");
    assert_eq!(zpet, t);
}

#[test]
fn cti_cas_reads_valid_text() {
    let t = cti_cas("31.12.1999 00:01").expect("valid timestamp");
    assert_eq!(t, cas(31, 12, 1999, 0, 1));
}

#[test]
fn cti_cas_rejects_bad_shapes() {
    assert!(cti_cas("").is_none());
    assert!(cti_cas("--:--").is_none());
    assert!(cti_cas("5.1.2024 9:30").is_none());
    assert!(cti_cas("05-01-2024 09:30").is_none());
    assert!(cti_cas("05.01.2024 09:30 ").is_none());
    assert!(cti_cas("aa.01.2024 09:30").is_none());
}

#[test]
fn cti_cas_rejects_impossible_moments() {
    assert!(cti_cas("00.01.2024 09:30").is_none());
    assert!(cti_cas("32.01.2024 09:30").is_none());
    assert!(cti_cas("01.13.2024 09:30").is_none());
    assert!(cti_cas("01.00.2024 09:30").is_none());
    assert!(cti_cas("01.01.2024 24:00").is_none());
    assert!(cti_cas("01.01.2024 09:60").is_none());
}

#[test]
fn cti_cas_knows_leap_years() {
    assert!(cti_cas("29.02.2024 12:00").is_some());
    assert!(cti_cas("29.02.2023 12:00").is_none());
    assert!(cti_cas("29.02.2000 12:00").is_some());
    assert!(cti_cas("29.02.1900 12:00").is_none());
}

#[test]
fn delka_mesice_table() {
    assert_eq!(delka_mesice(2023, 1), 31);
    assert_eq!(delka_mesice(2023, 2), 28);
    assert_eq!(delka_mesice(2024, 2), 29);
    assert_eq!(delka_mesice(2023, 4), 30);
    assert_eq!(delka_mesice(2023, 12), 31);
}

#[test]
fn do_minut_counts_days_and_minutes() {
    let pulnoc = cas(1, 1, 2000, 0, 0);
    let den_po = cas(2, 1, 2000, 0, 0);
    assert_eq!(den_po.do_minut() - pulnoc.do_minut(), 24 * 60);
    let o_minutu = cas(1, 1, 2000, 0, 1);
    assert_eq!(o_minutu.do_minut() - pulnoc.do_minut(), 1);
    let o_rok = cas(1, 1, 2001, 0, 0);
    assert_eq!(o_rok.do_minut() - pulnoc.do_minut(), 366 * 24 * 60);
}
