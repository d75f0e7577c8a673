use partneri::config::nacti;
use partneri::models::{nacti_databazi, Config, Databaze, Partner};

fn zaznam(id: &str, nazev: &str, slozka: &str, kdy: &str) -> Partner {
    Partner {
        id: id.to_string(),
        nazev: nazev.to_string(),
        slozka: slozka.to_string(),
        aktualizovano: kdy.to_string(),
    }
}

#[test]
fn nacti_missing_config_yields_defaults() {
    let c = nacti(None);
    assert_eq!(c.cesta_archiv, "");
    assert_eq!(c.cesta_vyroba, "");
    assert_eq!(c.interval_synchronizace, "1 week");
}

#[test]
fn nacti_keeps_parsed_config() {
    let c = nacti(Some(Config {
        cesta_archiv: "/archiv".to_string(),
        cesta_vyroba: "/vyroba".to_string(),
        interval_synchronizace: "14 days".to_string(),
    }));
    assert_eq!(c.cesta_archiv, "/archiv");
    assert_eq!(c.cesta_vyroba, "/vyroba");
    assert_eq!(c.interval_synchronizace, "14 days");
}

#[test]
fn default_config_uses_shortest_interval() {
    let c = Config::default();
    assert_eq!(c.interval_synchronizace, "1 week");
}

#[test]
fn nacti_databazi_missing_yields_empty_store() {
    let db = nacti_databazi(None);
    assert_eq!(db.posledni_sync, "");
    assert!(db.partneri.is_empty());
}

#[test]
fn nacti_databazi_keeps_well_formed_store() {
    let db = nacti_databazi(Some(Databaze {
        posledni_sync: "01.01.2024 10:00".to_string(),
        partneri: vec![zaznam("A1", "Acme", "", "01.01.2024 10:00"), zaznam(
            "B2",
            "Beta",
            "BetaDir",
            "01.01.2024 10:00",
        )],
    }));
    assert_eq!(db.posledni_sync, "01.01.2024 10:00");
    assert_eq!(db.partneri.len(), 2);
    assert_eq!(db.partneri[0].id, "A1");
    assert_eq!(db.partneri[1].id, "B2");
}

#[test]
fn nacti_databazi_drops_empty_ids_and_keeps_last_duplicate() {
    let db = nacti_databazi(Some(Databaze {
        posledni_sync: "01.01.2024 10:00".to_string(),
        partneri: vec![
            zaznam("A1", "First", "F1", "01.01.2024 10:00"),
            zaznam("", "NoId", "", "01.01.2024 10:00"),
            zaznam("B2", "Beta", "", "01.01.2024 10:00"),
            zaznam("A1", "Second", "F2", "02.01.2024 10:00"),
        ],
    }));
    assert_eq!(db.partneri.len(), 2);
    assert_eq!(db.partneri[0].id, "A1");
    assert_eq!(db.partneri[0].nazev, "Second");
    assert_eq!(db.partneri[0].slozka, "F2");
    assert_eq!(db.partneri[1].id, "B2");
}
