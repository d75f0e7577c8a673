use partneri::logic::{ma_slozku, priprav_data_partneru};
use partneri::models::Partner;
use partneri::text::{mensi_nez, obsahuje_text, stejne};

fn zaznam(id: &str, nazev: &str, slozka: &str) -> Partner {
    Partner {
        id: id.to_string(),
        nazev: nazev.to_string(),
        slozka: slozka.to_string(),
        aktualizovano: "01.01.2024 08:00".to_string(),
    }
}

fn vsichni() -> Vec<Partner> {
    vec![
        zaznam("B2", "Beta", "BetaDir"),
        zaznam("ACME01", "Other Ltd", ""),
        zaznam("A1", "Acme Corp", "AcmeDir"),
    ]
}

#[test]
fn filter_all_keeps_everything_sorted_by_id() {
    let partneri = vsichni();
    let disk = vec![true, false, true];
    let (videt, celkem, chybi) = priprav_data_partneru(&partneri, &disk, 0, &"".to_string());
    assert_eq!(celkem, 3);
    assert_eq!(chybi, 1);
    let idcka: Vec<&str> = videt.iter().map(|p| p.id.as_str()).collect();
    assert_eq!(idcka, vec!["A1", "ACME01", "B2"]);
}

#[test]
fn unknown_filter_mode_defaults_to_all() {
    let partneri = vsichni();
    let disk = vec![true, false, true];
    let (videt, _, _) = priprav_data_partneru(&partneri, &disk, 7, &"".to_string());
    assert_eq!(videt.len(), 3);
}

#[test]
fn missing_folder_filter_returns_exact_complement() {
    let partneri = vec![
        zaznam("A1", "Acme", "AcmeDir"),
        zaznam("B2", "Beta", ""),
        zaznam("C3", "Gamma", "GammaDir"),
        zaznam("D4", "Delta", "   "),
    ];
    // GammaDir is assigned but does not exist on disk.
    let disk = vec![true, false, false, true];
    let (chybejici, celkem, chybi) = priprav_data_partneru(&partneri, &disk, 1, &"".to_string());
    assert_eq!(celkem, 4);
    assert_eq!(chybi, 3);
    let idcka: Vec<&str> = chybejici.iter().map(|p| p.id.as_str()).collect();
    assert_eq!(idcka, vec!["B2", "C3", "D4"]);
    let (vsechny, _, _) = priprav_data_partneru(&partneri, &disk, 0, &"".to_string());
    assert_eq!(vsechny.len() - chybejici.len(), 1);
}

#[test]
fn search_matches_name_and_id_case_insensitively() {
    let partneri = vsichni();
    let disk = vec![true, false, true];
    let (nalezeni, celkem, _) = priprav_data_partneru(&partneri, &disk, 2, &"acme".to_string());
    assert_eq!(celkem, 3);
    let idcka: Vec<&str> = nalezeni.iter().map(|p| p.id.as_str()).collect();
    assert_eq!(idcka, vec!["A1", "ACME01"]);
}

#[test]
fn search_with_upper_case_query_still_matches() {
    let partneri = vec![zaznam("x9", "acme corp", "")];
    let disk = vec![false];
    let (nalezeni, _, _) = priprav_data_partneru(&partneri, &disk, 2, &"ACME".to_string());
    assert_eq!(nalezeni.len(), 1);
    assert_eq!(nalezeni[0].id, "x9");
}

#[test]
fn search_ignores_folder_state() {
    let partneri = vec![zaznam("A1", "Acme", "AcmeDir")];
    let disk = vec![true];
    let (nalezeni, _, _) = priprav_data_partneru(&partneri, &disk, 2, &"acme".to_string());
    assert_eq!(nalezeni.len(), 1);
}

#[test]
fn output_is_strictly_ascending_for_every_filter() {
    let partneri = vec![
        zaznam("C3", "Gamma", ""),
        zaznam("A1", "Acme", ""),
        zaznam("B2", "Beta", ""),
        zaznam("AB", "Aybee", ""),
    ];
    let disk = vec![false, false, false, false];
    for filtr in [0, 1, 2] {
        let (videt, _, _) = priprav_data_partneru(&partneri, &disk, filtr, &"".to_string());
        for okno in videt.windows(2) {
            assert!(okno[0].id < okno[1].id, "not ascending under filter {filtr}");
        }
    }
}

#[test]
fn ma_slozku_needs_both_name_and_disk() {
    let s_nazvem = zaznam("A1", "Acme", "AcmeDir");
    let bez_nazvu = zaznam("B2", "Beta", "");
    let prazdny_nazev = zaznam("C3", "Gamma", "   ");
    assert!(ma_slozku(&s_nazvem, true));
    assert!(!ma_slozku(&s_nazvem, false));
    assert!(!ma_slozku(&bez_nazvu, true));
    assert!(!ma_slozku(&prazdny_nazev, true));
}

#[test]
fn text_helpers_behave_like_std() {
    assert!(stejne("abc", "abc"));
    assert!(!stejne("abc", "abd"));
    assert!(mensi_nez("A1", "ACME01"));
    assert!(!mensi_nez("ACME01", "A1"));
    assert!(mensi_nez("A", "A1"));
    assert!(obsahuje_text("acme corp", "me co"));
    assert!(obsahuje_text("acme corp", ""));
    assert!(!obsahuje_text("acme corp", "beta"));
}
