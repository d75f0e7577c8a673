use partneri::cas::Cas;
use partneri::logic::{prah_intervalu, vyhodnot_stav, zkontroluj_stav_db};
use partneri::models::{Config, Databaze};

fn cas(den: u8, mesic: u8, rok: u16, hodina: u8, minuta: u8) -> Cas {
    Cas { rok, mesic, den, hodina, minuta }
}

fn konfigurace(interval: &str) -> Config {
    Config {
        cesta_archiv: "".to_string(),
        cesta_vyroba: "".to_string(),
        interval_synchronizace: interval.to_string(),
    }
}

fn sklad(posledni_sync: &str) -> Databaze {
    Databaze { posledni_sync: posledni_sync.to_string(), partneri: Vec::new() }
}

#[test]
fn prah_intervalu_table() {
    assert_eq!(prah_intervalu("1 week"), 7 * 1440);
    assert_eq!(prah_intervalu("14 days"), 14 * 1440);
    assert_eq!(prah_intervalu("1 month"), 30 * 1440);
    assert_eq!(prah_intervalu("6 months"), 180 * 1440);
    assert_eq!(prah_intervalu("now"), 0);
}

#[test]
fn prah_intervalu_unknown_label_falls_back() {
    assert_eq!(prah_intervalu(""), 7 * 1440);
    assert_eq!(prah_intervalu("fortnight"), 7 * 1440);
}

#[test]
fn week_interval_stale_after_eight_days() {
    let cfg = konfigurace("1 week");
    let db = sklad("01.01.2024 12:00");
    let (kod, text, kdy) = vyhodnot_stav(&cfg, Some(&db), &cas(9, 1, 2024, 12, 1));
    assert_eq!(kod, 2);
    assert_eq!(text, "registry out of date");
    assert_eq!(kdy, "01.01.2024 12:00");
}

#[test]
fn week_interval_fresh_after_six_days() {
    let cfg = konfigurace("1 week");
    let db = sklad("01.01.2024 12:00");
    let (kod, text, kdy) = vyhodnot_stav(&cfg, Some(&db), &cas(7, 1, 2024, 12, 0));
    assert_eq!(kod, 0);
    assert_eq!(text, "registry up to date");
    assert_eq!(kdy, "01.01.2024 12:00");
}

#[test]
fn week_interval_exactly_seven_days_is_still_fresh() {
    let cfg = konfigurace("1 week");
    let db = sklad("01.01.2024 12:00");
    let (kod, _, _) = vyhodnot_stav(&cfg, Some(&db), &cas(8, 1, 2024, 12, 0));
    assert_eq!(kod, 0);
}

#[test]
fn now_interval_is_stale_one_minute_later() {
    let cfg = konfigurace("now");
    let db = sklad("01.01.2024 12:00");
    let (kod, _, _) = vyhodnot_stav(&cfg, Some(&db), &cas(1, 1, 2024, 12, 1));
    assert_eq!(kod, 2);
    let (kod2, _, _) = vyhodnot_stav(&cfg, Some(&db), &cas(1, 1, 2024, 12, 0));
    assert_eq!(kod2, 0);
}

#[test]
fn last_sync_in_the_future_counts_as_fresh() {
    let cfg = konfigurace("1 week");
    let db = sklad("01.06.2024 12:00");
    let (kod, _, _) = vyhodnot_stav(&cfg, Some(&db), &cas(1, 1, 2024, 12, 0));
    assert_eq!(kod, 0);
}

#[test]
fn missing_store_is_reported_not_loaded() {
    let cfg = konfigurace("1 week");
    let (kod, text, kdy) = vyhodnot_stav(&cfg, None, &cas(1, 1, 2024, 12, 0));
    assert_eq!(kod, 1);
    assert_eq!(text, "registry not loaded");
    assert_eq!(kdy, "--:--");
}

#[test]
fn corrupt_timestamp_is_reported_as_such() {
    let cfg = konfigurace("1 week");
    let db = sklad("yesterday-ish");
    let (kod, text, kdy) = vyhodnot_stav(&cfg, Some(&db), &cas(1, 1, 2024, 12, 0));
    assert_eq!(kod, 1);
    assert_eq!(text, "corrupt timestamp");
    assert_eq!(kdy, "yesterday-ish");
}

#[test]
fn zkontroluj_stav_db_against_the_clock() {
    let cfg = konfigurace("6 months");
    let db = sklad("01.01.2000 00:00");
    let (kod, text, _) = zkontroluj_stav_db(&cfg, Some(&db));
    assert_eq!(kod, 2);
    assert_eq!(text, "registry out of date");
    let (kod2, text2, kdy2) = zkontroluj_stav_db(&cfg, None);
    assert_eq!(kod2, 1);
    assert_eq!(text2, "registry not loaded");
    assert_eq!(kdy2, "--:--");
}
