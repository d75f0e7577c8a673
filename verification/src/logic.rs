//! Freshness of the registry, and the projection shown to the user.
//!
//! The freshness check turns the stored last-sync timestamp, the
//! configured interval label and the current moment into one of three
//! verdicts: up to date, out of date, or unavailable.  The projection
//! cross-checks every record's folder flag, counts the records without a
//! usable folder, applies the active filter, and returns the survivors
//! sorted strictly ascending by id.

use vstd::prelude::*;
use crate::cas::{Cas, cteny_cas, platny_zapis, minuty};
use crate::models::{Config, Databaze, DatabazeView, Partner, PartnerView, partneri_wf, unikatni_id};
use crate::text::{lemma_mensi_celkem, lemma_mensi_tranzitivni, lower_of, mala_pismena, mensi,
    mensi_nez, obsahuje, obsahuje_text, orez, stejne, trim_of};

verus! {

/// Staleness threshold in minutes for an interval label; a label outside
/// the fixed table falls back to the shortest standard threshold.
pub open spec fn prah_minut(interval: Seq<char>) -> int {
    if interval == "1 week"@ {
        7int * 1440
    } else if interval == "14 days"@ {
        14int * 1440
    } else if interval == "1 month"@ {
        30int * 1440
    } else if interval == "6 months"@ {
        180int * 1440
    } else if interval == "now"@ {
        0int
    } else {
        7int * 1440
    }
}

/// Threshold in minutes for the configured interval label.
pub fn prah_intervalu(interval: &str) -> (r: u64)
    ensures
        r == prah_minut(interval@),
{
    if stejne(interval, "1 week") {
        7 * 1440
    } else if stejne(interval, "14 days") {
        14 * 1440
    } else if stejne(interval, "1 month") {
        30 * 1440
    } else if stejne(interval, "6 months") {
        180 * 1440
    } else if stejne(interval, "now") {
        0
    } else {
        7 * 1440
    }
}

/// The store is out of date: the moment `ted` lies more than `prah`
/// minutes after the last synchronization `posledni`.
pub open spec fn neaktualni(posledni: Cas, ted: Cas, prah: int) -> bool {
    minuty(ted) - minuty(posledni) > prah
}

/// The view a freshness check runs against: the store as loaded, or
/// nothing when no store document could be read.
pub open spec fn pohled_db(db: Option<&Databaze>) -> Option<DatabazeView> {
    match db {
        None => None,
        Some(d) => Some(d@),
    }
}

/// The verdict `r` — status code, status text, last-sync display — is the
/// right one for the store `db` under the interval label `interval`,
/// judged at the moment `ted`.
pub open spec fn spravny_stav(
    r: (i32, String, String),
    db: Option<DatabazeView>,
    interval: Seq<char>,
    ted: Cas,
) -> bool {
    match db {
        None => r.0 == 1 && r.1@ == "registry not loaded"@ && r.2@ == "--:--"@,
        Some(d) => if !platny_zapis(d.posledni_sync) {
            r.0 == 1 && r.1@ == "corrupt timestamp"@ && r.2@ == d.posledni_sync
        } else {
            r.2@ == d.posledni_sync && (if neaktualni(
                cteny_cas(d.posledni_sync),
                ted,
                prah_minut(interval),
            ) {
                r.0 == 2 && r.1@ == "registry out of date"@
            } else {
                r.0 == 0 && r.1@ == "registry up to date"@
            })
        },
    }
}

/// Freshness of the store judged at the given moment: status code
/// (0 up to date, 1 unavailable, 2 out of date), status text, and the
/// last-sync display string.  Pure: the store is only read.
pub fn vyhodnot_stav(config: &Config, db: Option<&Databaze>, ted: &Cas) -> (r: (i32, String, String))
    requires
        ted.platny(),
    ensures
        spravny_stav(r, pohled_db(db), config@.interval_synchronizace, *ted),
{
    match db {
        None => (1, String::from_str("registry not loaded"), String::from_str("--:--")),
        Some(d) => {
            match crate::cas::cti_cas(d.posledni_sync.as_str()) {
                None => (1, String::from_str("corrupt timestamp"), d.posledni_sync.clone()),
                Some(posledni) => {
                    let prah = prah_intervalu(config.interval_synchronizace.as_str());
                    let ted_m = ted.do_minut();
                    let posledni_m = posledni.do_minut();
                    if ted_m > posledni_m && ted_m - posledni_m > prah {
                        (2, String::from_str("registry out of date"), d.posledni_sync.clone())
                    } else {
                        (0, String::from_str("registry up to date"), d.posledni_sync.clone())
                    }
                },
            }
        },
    }
}

/// Freshness of the store judged now, against the wall clock.  Whatever
/// moment the clock reports, the verdict is the right one for it; when
/// the store is missing or its timestamp corrupt, the verdict does not
/// depend on the clock at all.
pub fn zkontroluj_stav_db(config: &Config, db: Option<&Databaze>) -> (r: (i32, String, String))
    ensures
        exists|ted: Cas|
            ted.platny() && spravny_stav(r, pohled_db(db), config@.interval_synchronizace, ted),
        db is None ==> r.0 == 1 && r.1@ == "registry not loaded"@ && r.2@ == "--:--"@,
        db matches Some(d) ==> (!platny_zapis(d@.posledni_sync) ==> r.0 == 1 && r.1@
            == "corrupt timestamp"@ && r.2@ == d@.posledni_sync),
{
    let ted = crate::cas::aktualni_cas();
    let r = vyhodnot_stav(config, db, &ted);
    proof {
        assert(spravny_stav(r, pohled_db(db), config@.interval_synchronizace, ted));
    }
    r
}

/// Freshness is monotone in the threshold: with the last sync and the
/// moment of judgement fixed, moving to an interval label with a longer
/// (or equal) threshold never turns an up-to-date verdict into an
/// out-of-date one.
pub proof fn lemma_cerstvost_monotonni(posledni: Cas, ted: Cas, kratsi: Seq<char>, delsi: Seq<char>)
    requires
        prah_minut(kratsi) <= prah_minut(delsi),
        !neaktualni(posledni, ted, prah_minut(kratsi)),
    ensures
        !neaktualni(posledni, ted, prah_minut(delsi)),
{
}

/// The record has a usable folder: a folder name that is not blank, and
/// that the caller found on disk under the archive root (`na_disku`).
pub open spec fn ma_slozku_pohled(p: PartnerView, na_disku: bool) -> bool {
    trim_of(p.slozka).len() != 0 && na_disku
}

/// Whether the record has a usable folder, given the caller's answer to
/// the on-disk existence check for it.
pub fn ma_slozku(p: &Partner, na_disku: bool) -> (r: bool)
    ensures
        r == ma_slozku_pohled(p@, na_disku),
{
    let t = orez(p.slozka.as_str());
    !t.as_str().is_empty() && na_disku
}

/// Whether a record passes the active filter.  Mode 1 keeps the records
/// without a usable folder; mode 2 keeps those whose name or id contains
/// the search text, case-insensitively and regardless of the folder
/// state; every other mode keeps everything.
pub open spec fn vyhovuje(p: PartnerView, na_disku: bool, filtr: int, hledane: Seq<char>) -> bool {
    if filtr == 1 {
        !ma_slozku_pohled(p, na_disku)
    } else if filtr == 2 {
        obsahuje(lower_of(p.nazev), lower_of(hledane)) || obsahuje(lower_of(p.id), lower_of(hledane))
    } else {
        true
    }
}

/// The records among the first `n` that pass the filter, in store order.
pub open spec fn vybrane(
    s: Seq<PartnerView>,
    disk: Seq<bool>,
    filtr: int,
    hledane: Seq<char>,
    n: int,
) -> Seq<PartnerView>
    decreases n,
{
    if n <= 0 {
        Seq::empty()
    } else {
        let t = vybrane(s, disk, filtr, hledane, n - 1);
        if vyhovuje(s[n - 1], disk[n - 1], filtr, hledane) {
            t.push(s[n - 1])
        } else {
            t
        }
    }
}

/// How many of the first `n` records lack a usable folder.
pub open spec fn pocet_chybejicich(s: Seq<PartnerView>, disk: Seq<bool>, n: int) -> int
    decreases n,
{
    if n <= 0 {
        0
    } else {
        pocet_chybejicich(s, disk, n - 1) + if ma_slozku_pohled(s[n - 1], disk[n - 1]) {
            0int
        } else {
            1int
        }
    }
}

/// Strictly ascending by id in code-point order.
pub open spec fn serazene(s: Seq<PartnerView>) -> bool {
    forall|i: int, j: int| 0 <= i < j < s.len() ==> mensi(s[i].id, s[j].id)
}

/// Ascending by id in code-point order, ids possibly repeating.
pub open spec fn serazene_neostre(s: Seq<PartnerView>) -> bool {
    forall|i: int, j: int|
        0 <= i < j < s.len() ==> mensi(s[i].id, s[j].id) || s[i].id == s[j].id
}

/// The records among the first `n` that do have a usable folder.
pub open spec fn se_slozkou(s: Seq<PartnerView>, disk: Seq<bool>, n: int) -> Seq<PartnerView>
    decreases n,
{
    if n <= 0 {
        Seq::empty()
    } else {
        let t = se_slozkou(s, disk, n - 1);
        if ma_slozku_pohled(s[n - 1], disk[n - 1]) {
            t.push(s[n - 1])
        } else {
            t
        }
    }
}

/// The `All` filter keeps every record in store order, and the
/// missing-folder filter keeps exactly the complement, within that, of
/// the records with a usable folder: the two survivor sets partition the
/// store, and the missing side is as large as the missing count —
/// whatever the search text.
pub proof fn lemma_filtr_doplnek(s: Seq<PartnerView>, disk: Seq<bool>, hledane: Seq<char>, n: int)
    requires
        0 <= n <= s.len(),
        s.len() == disk.len(),
    ensures
        vybrane(s, disk, 0, hledane, n) == s.subrange(0, n),
        vybrane(s, disk, 1, hledane, n).to_multiset().add(se_slozkou(s, disk, n).to_multiset())
            == s.subrange(0, n).to_multiset(),
        vybrane(s, disk, 1, hledane, n).len() == pocet_chybejicich(s, disk, n),
    decreases n,
{
    broadcast use vstd::seq_lib::group_to_multiset_ensures;
    broadcast use vstd::multiset::group_multiset_axioms;

    if n > 0 {
        lemma_filtr_doplnek(s, disk, hledane, n - 1);
        assert(vybrane(s, disk, 0, hledane, n) =~= s.subrange(0, n));
        assert(s.subrange(0, n) =~= s.subrange(0, n - 1).push(s[n - 1]));
        assert(vybrane(s, disk, 1, hledane, n).to_multiset().add(
            se_slozkou(s, disk, n).to_multiset(),
        ) =~= s.subrange(0, n).to_multiset());
    } else {
        assert(vybrane(s, disk, 0, hledane, n) =~= s.subrange(0, n));
        assert(vybrane(s, disk, 1, hledane, n).to_multiset().add(
            se_slozkou(s, disk, n).to_multiset(),
        ) =~= s.subrange(0, n).to_multiset());
    }
}

/// Every record that passes the filter comes from the store, and since
/// ids are unique in the store they stay unique among the survivors.
proof fn lemma_vybrane_unikatni(
    s: Seq<PartnerView>,
    disk: Seq<bool>,
    filtr: int,
    hledane: Seq<char>,
    n: int,
)
    requires
        partneri_wf(s),
        0 <= n <= s.len(),
    ensures
        unikatni_id(vybrane(s, disk, filtr, hledane, n)),
        forall|k: int|
            #![trigger vybrane(s, disk, filtr, hledane, n)[k]]
            0 <= k < vybrane(s, disk, filtr, hledane, n).len() ==> exists|i: int|
                0 <= i < n && vybrane(s, disk, filtr, hledane, n)[k] == #[trigger] s[i],
    decreases n,
{
    if n > 0 {
        lemma_vybrane_unikatni(s, disk, filtr, hledane, n - 1);
        let t = vybrane(s, disk, filtr, hledane, n - 1);
        let v = vybrane(s, disk, filtr, hledane, n);
        if vyhovuje(s[n - 1], disk[n - 1], filtr, hledane) {
            assert forall|k: int| #![trigger v[k]] 0 <= k < v.len() implies exists|i: int|
                0 <= i < n && v[k] == #[trigger] s[i] by {
                if k < t.len() {
                    let i = choose|i: int| 0 <= i < n - 1 && t[k] == s[i];
                    assert(0 <= i < n && v[k] == s[i]);
                } else {
                    assert(v[k] == s[n - 1]);
                }
            }
            assert forall|a: int, b: int| 0 <= a < b < v.len() implies v[a].id != v[b].id by {
                if b < t.len() {
                } else {
                    let i = choose|i: int| 0 <= i < n - 1 && t[a] == s[i];
                    assert(s[i].id != s[n - 1].id);
                }
            }
        }
    }
}

/// Inserts `p` into the sorted record list `out`, keeping it sorted.
fn vloz_serazene(out: &mut Vec<Partner>, p: Partner)
    requires
        serazene_neostre(old(out).deep_view()),
    ensures
        serazene_neostre(final(out).deep_view()),
        final(out).deep_view().to_multiset() == old(out).deep_view().to_multiset().insert(p@),
        forall|x: PartnerView|
            final(out).deep_view().contains(x) <==> old(out).deep_view().contains(x) || x == p@,
{
    let mut pos: usize = 0;
    while pos < out.len() && mensi_nez(out[pos].id.as_str(), p.id.as_str())
        invariant
            pos <= out@.len(),
            *out == *old(out),
            forall|k: int| 0 <= k < pos ==> mensi(out.deep_view()[k].id, p@.id),
        decreases out@.len() - pos,
    {
        pos = pos + 1;
    }
    let ghost stare = out.deep_view();
    let ghost misto = pos as int;
    out.insert(pos, p);
    proof {
        let nove = out.deep_view();
        assert(nove =~= stare.insert(misto, p@));
        broadcast use vstd::seq_lib::to_multiset_insert;
        broadcast use vstd::seq_lib::group_to_multiset_ensures;

        assert(nove.to_multiset() == stare.to_multiset().insert(p@));
        assert forall|x: PartnerView| nove.contains(x) <==> stare.contains(x) || x == p@ by {
            assert(nove.to_multiset().count(x) == stare.to_multiset().insert(p@).count(x));
        }
        assert forall|a: int, b: int| 0 <= a < b < nove.len() implies mensi(nove[a].id, nove[b].id)
            || nove[a].id == nove[b].id by {
            if a < misto && b == misto {
                assert(mensi(stare[a].id, p@.id));
            } else if a == misto && b > misto {
                let z = stare[b - 1];
                if misto < stare.len() {
                    lemma_mensi_celkem(p@.id, stare[misto].id);
                    if b - 1 > misto {
                        assert(mensi(stare[misto].id, z.id) || stare[misto].id == z.id);
                    }
                    if mensi(p@.id, stare[misto].id) && mensi(stare[misto].id, z.id) {
                        lemma_mensi_tranzitivni(p@.id, stare[misto].id, z.id);
                    }
                } else {
                    assert(false);
                }
            } else if a < misto && b > misto {
                assert(mensi(stare[a].id, stare[b - 1].id) || stare[a].id == stare[b - 1].id);
            } else if a > misto && b > misto {
                assert(mensi(stare[a - 1].id, stare[b - 1].id) || stare[a - 1].id == stare[b
                    - 1].id);
            }
        }
    }
}

/// Sorts the records ascending by id in code-point order.
fn serad_podle_id(v: Vec<Partner>) -> (r: Vec<Partner>)
    ensures
        r.deep_view().to_multiset() == v.deep_view().to_multiset(),
        serazene_neostre(r.deep_view()),
        forall|x: PartnerView| r.deep_view().contains(x) <==> v.deep_view().contains(x),
{
    let mut zbyva = v;
    let mut out: Vec<Partner> = Vec::new();
    proof {
        broadcast use vstd::seq_lib::group_to_multiset_ensures;

        assert(out.deep_view().to_multiset().add(zbyva.deep_view().to_multiset())
            =~= v.deep_view().to_multiset());
    }
    while zbyva.len() > 0
        invariant
            serazene_neostre(out.deep_view()),
            out.deep_view().to_multiset().add(zbyva.deep_view().to_multiset())
                == v.deep_view().to_multiset(),
            forall|x: PartnerView|
                out.deep_view().contains(x) || zbyva.deep_view().contains(x) <==> v.deep_view()
                    .contains(x),
        decreases zbyva@.len(),
    {
        let ghost pred = zbyva.deep_view();
        let p = match zbyva.pop() {
            Some(p) => p,
            None => {
                return out;
            },
        };
        proof {
            broadcast use vstd::seq_lib::group_to_multiset_ensures;

            assert(pred.remove(pred.len() - 1) =~= zbyva.deep_view());
            assert(zbyva.deep_view().to_multiset() =~= pred.to_multiset().remove(p@));
        }
        vloz_serazene(&mut out, p);
        proof {
            broadcast use vstd::seq_lib::group_to_multiset_ensures;

            assert(out.deep_view().to_multiset().add(zbyva.deep_view().to_multiset())
                =~= v.deep_view().to_multiset());
            assert forall|x: PartnerView|
                out.deep_view().contains(x) || zbyva.deep_view().contains(x) <==> v.deep_view()
                    .contains(x) by {
                assert(v.deep_view().to_multiset().count(x) == out.deep_view().to_multiset().count(
                    x,
                ) + zbyva.deep_view().to_multiset().count(x));
            }
        }
    }
    out
}

/// The filtered, cross-checked, sorted projection of the store.
///
/// `na_disku[i]` answers, for record `i`, whether the folder the record
/// names exists on disk under the archive root; the caller performs those
/// checks.  Returns the records that pass the filter, sorted strictly
/// ascending by id, together with the total record count and the count
/// of records without a usable folder.  Pure: the store is only read.
pub fn priprav_data_partneru(
    partneri: &Vec<Partner>,
    na_disku: &Vec<bool>,
    filtr_index: i32,
    hledany_text: &String,
) -> (r: (Vec<Partner>, i32, i32))
    requires
        partneri_wf(partneri.deep_view()),
        na_disku@.len() == partneri@.len(),
        partneri@.len() <= i32::MAX,
    ensures
        r.0.deep_view().to_multiset() == vybrane(
            partneri.deep_view(),
            na_disku@,
            filtr_index as int,
            hledany_text@,
            partneri@.len() as int,
        ).to_multiset(),
        serazene(r.0.deep_view()),
        r.1 == partneri@.len(),
        r.2 == pocet_chybejicich(partneri.deep_view(), na_disku@, partneri@.len() as int),
{
    let ghost s = partneri.deep_view();
    let ghost disk = na_disku@;
    let ghost f = filtr_index as int;
    let hledane = mala_pismena(hledany_text.as_str());
    let mut vybrani: Vec<Partner> = Vec::new();
    let mut chybi: i32 = 0;
    let mut i: usize = 0;
    while i < partneri.len()
        invariant
            i <= partneri@.len(),
            partneri@.len() == na_disku@.len(),
            partneri@.len() <= i32::MAX,
            s == partneri.deep_view(),
            disk == na_disku@,
            f == filtr_index as int,
            hledane@ == lower_of(hledany_text@),
            vybrani.deep_view() == vybrane(s, disk, f, hledany_text@, i as int),
            0 <= chybi <= i,
            chybi == pocet_chybejicich(s, disk, i as int),
        decreases partneri@.len() - i,
    {
        let ma = ma_slozku(&partneri[i], na_disku[i]);
        if !ma {
            chybi = chybi + 1;
        }
        let prosel = if filtr_index == 1 {
            !ma
        } else if filtr_index == 2 {
            let nazev_m = mala_pismena(partneri[i].nazev.as_str());
            let id_m = mala_pismena(partneri[i].id.as_str());
            obsahuje_text(nazev_m.as_str(), hledane.as_str()) || obsahuje_text(
                id_m.as_str(),
                hledane.as_str(),
            )
        } else {
            true
        };
        proof {
            assert(prosel == vyhovuje(s[i as int], disk[i as int], f, hledany_text@));
        }
        if prosel {
            vybrani.push(partneri[i].clone());
        }
        proof {
            assert(vybrani.deep_view() =~= vybrane(s, disk, f, hledany_text@, i + 1));
        }
        i = i + 1;
    }
    let celkem = partneri.len() as i32;
    let ghost w = vybrane(s, disk, f, hledany_text@, s.len() as int);
    proof {
        lemma_vybrane_unikatni(s, disk, f, hledany_text@, s.len() as int);
    }
    let serazeni = serad_podle_id(vybrani);
    proof {
        let v = serazeni.deep_view();
        assert(w.no_duplicates()) by {
            assert forall|a: int, b: int|
                0 <= a < w.len() && 0 <= b < w.len() && a != b implies w[a] != w[b] by {
                if a < b {
                    assert(w[a].id != w[b].id);
                } else {
                    assert(w[b].id != w[a].id);
                }
            }
        }
        w.lemma_multiset_has_no_duplicates();
        v.lemma_multiset_has_no_duplicates_conv();
        assert(unikatni_id(v)) by {
            assert forall|a: int, b: int| 0 <= a < b < v.len() implies v[a].id != v[b].id by {
                if v[a].id == v[b].id {
                    broadcast use vstd::seq_lib::group_to_multiset_ensures;

                    assert(v[a] != v[b]);
                    assert(v.contains(v[a]) && v.contains(v[b]));
                    assert(w.contains(v[a]) && w.contains(v[b]));
                    let x = choose|x: int| 0 <= x < w.len() && w[x] == v[a];
                    let y = choose|y: int| 0 <= y < w.len() && w[y] == v[b];
                    assert(w[x].id == w[y].id && x != y);
                    assert(false);
                }
            }
        }
        assert(serazene(v)) by {
            assert forall|a: int, b: int| 0 <= a < b < v.len() implies mensi(v[a].id, v[b].id) by {
                assert(mensi(v[a].id, v[b].id) || v[a].id == v[b].id);
                assert(v[a].id != v[b].id);
            }
        }
    }
    (serazeni, celkem, chybi)
}

} // verus!
