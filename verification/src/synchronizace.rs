//! The reconciliation engine: merges an imported batch of `(id, name)`
//! rows into the store, and applies explicit folder edits.
//!
//! An import upserts by id — it inserts unknown ids, rewrites a changed
//! name and stamps the record, and leaves everything else (in particular
//! every folder assignment) untouched.  The first row of a batch is the
//! header and is skipped, as is any row whose id is empty after trimming.
//! Within one batch a later row wins over an earlier one with the same id.

use vstd::prelude::*;
use crate::cas::{Cas, zapis, zapis_cas};
use crate::models::{Databaze, Partner, PartnerView, lemma_najdi, lemma_najdi_jediny, ma_id, najdi,
    najdi_index, partneri_wf};
use crate::text::{orez, trim_of};

verus! {

/// One import row applied to the records `s`: both cells trimmed, the row
/// skipped when its id is empty, otherwise the upsert described above.
pub open spec fn radek_zpracovan(
    s: Seq<PartnerView>,
    id_bunka: String,
    nazev_bunka: String,
    cas: Seq<char>,
) -> Seq<PartnerView> {
    let id = trim_of(id_bunka@);
    let nazev = trim_of(nazev_bunka@);
    if id.len() == 0 {
        s
    } else if ma_id(s, id) {
        let j = najdi(s, id);
        if s[j].nazev != nazev {
            s.update(
                j,
                PartnerView { id: s[j].id, nazev, slozka: s[j].slozka, aktualizovano: cas },
            )
        } else {
            s
        }
    } else {
        s.push(PartnerView { id, nazev, slozka: Seq::empty(), aktualizovano: cas })
    }
}

/// The first `n` rows of the batch applied to `s` in order, row 0 (the
/// header) skipped.
pub open spec fn davka_zpracovana(
    s: Seq<PartnerView>,
    radky: Seq<(String, String)>,
    n: int,
    cas: Seq<char>,
) -> Seq<PartnerView>
    decreases n,
{
    if n <= 1 {
        s
    } else {
        radek_zpracovan(
            davka_zpracovana(s, radky, n - 1, cas),
            radky[n - 1].0,
            radky[n - 1].1,
            cas,
        )
    }
}

/// Applying one row never deletes a record, never reorders the store,
/// never touches an id or a folder assignment, and keeps the store
/// invariant.
pub proof fn lemma_radek_zachovava(s: Seq<PartnerView>, idb: String, nb: String, cas: Seq<char>)
    requires
        partneri_wf(s),
    ensures
        partneri_wf(radek_zpracovan(s, idb, nb, cas)),
        s.len() <= radek_zpracovan(s, idb, nb, cas).len(),
        forall|i: int|
            0 <= i < s.len() ==> #[trigger] radek_zpracovan(s, idb, nb, cas)[i].id == s[i].id
                && radek_zpracovan(s, idb, nb, cas)[i].slozka == s[i].slozka,
{
    let tid = trim_of(idb@);
    let r = radek_zpracovan(s, idb, nb, cas);
    if tid.len() == 0 {
    } else if ma_id(s, tid) {
        lemma_najdi(s, tid);
    } else {
        assert forall|i: int, j: int| 0 <= i < j < r.len() implies r[i].id != r[j].id by {
            if j == s.len() {
                assert(r[j].id == tid);
                assert(s[i].id != tid);
            }
        }
    }
}

/// Applying one row moves no record: any id present before is present
/// after, at the same position.
pub proof fn lemma_radek_najdi(
    s: Seq<PartnerView>,
    idb: String,
    nb: String,
    cas: Seq<char>,
    z: Seq<char>,
)
    requires
        partneri_wf(s),
        ma_id(s, z),
    ensures
        ma_id(radek_zpracovan(s, idb, nb, cas), z),
        najdi(radek_zpracovan(s, idb, nb, cas), z) == najdi(s, z),
{
    let r = radek_zpracovan(s, idb, nb, cas);
    let k = najdi(s, z);
    lemma_najdi(s, z);
    lemma_radek_zachovava(s, idb, nb, cas);
    assert(r[k].id == z);
    lemma_najdi(r, z);
    assert forall|m: int| 0 <= m < k implies r[m].id != z by {
        assert(r[m].id == s[m].id);
    }
    let k2 = najdi(r, z);
    if k2 < k {
        assert(r[k2].id != z);
    }
}

/// Applying one row with a non-empty id leaves the store holding that id,
/// with the row's name at it.
pub proof fn lemma_radek_usadi(s: Seq<PartnerView>, idb: String, nb: String, cas: Seq<char>)
    requires
        partneri_wf(s),
        trim_of(idb@).len() != 0,
    ensures
        ma_id(radek_zpracovan(s, idb, nb, cas), trim_of(idb@)),
        radek_zpracovan(s, idb, nb, cas)[najdi(
            radek_zpracovan(s, idb, nb, cas),
            trim_of(idb@),
        )].nazev == trim_of(nb@),
{
    let tid = trim_of(idb@);
    let r = radek_zpracovan(s, idb, nb, cas);
    if ma_id(s, tid) {
        lemma_najdi(s, tid);
        lemma_radek_najdi(s, idb, nb, cas, tid);
    } else {
        assert(r[s.len() as int].id == tid);
        lemma_najdi(r, tid);
        let k2 = najdi(r, tid);
        if k2 < s.len() {
            assert(r[k2].id == s[k2].id);
            assert(ma_id(s, tid));
        }
    }
}

/// Applying one row, seen from the record at position `k`: its id and
/// folder survive as they are; the row carrying its id rewrites the name
/// and stamps the record exactly when the name differs; any other row
/// leaves the record untouched.
pub proof fn lemma_radek_ucinek(
    s: Seq<PartnerView>,
    idb: String,
    nb: String,
    cas: Seq<char>,
    k: int,
)
    requires
        partneri_wf(s),
        0 <= k < s.len(),
    ensures
        radek_zpracovan(s, idb, nb, cas)[k].id == s[k].id,
        radek_zpracovan(s, idb, nb, cas)[k].slozka == s[k].slozka,
        trim_of(idb@) == s[k].id ==> radek_zpracovan(s, idb, nb, cas)[k].nazev == trim_of(nb@)
            && radek_zpracovan(s, idb, nb, cas)[k].aktualizovano == (if s[k].nazev != trim_of(nb@) {
            cas
        } else {
            s[k].aktualizovano
        }),
        trim_of(idb@) != s[k].id ==> radek_zpracovan(s, idb, nb, cas)[k] == s[k],
{
    let tid = trim_of(idb@);
    lemma_radek_zachovava(s, idb, nb, cas);
    if tid.len() == 0 {
        assert(s[k].id.len() != 0);
    } else if ma_id(s, tid) {
        lemma_najdi(s, tid);
        lemma_najdi_jediny(s, tid);
        let j = najdi(s, tid);
        if tid == s[k].id {
            assert(j == k);
        } else {
            assert(j != k);
        }
    } else {
        assert(s[k].id != tid);
    }
}

/// No two data rows of the batch carry the same non-empty id after
/// trimming.
pub open spec fn radky_jednoznacne(radky: Seq<(String, String)>, n: int) -> bool {
    forall|i: int, j: int|
        1 <= i < j < n && trim_of(radky[i].0@).len() != 0 ==> trim_of(radky[i].0@) != trim_of(
            radky[j].0@,
        )
}

/// Any two data rows of the batch that carry the same non-empty id after
/// trimming carry the same name too: the batch does not contradict
/// itself.
pub open spec fn radky_souhlasne(radky: Seq<(String, String)>, n: int) -> bool {
    forall|i: int, j: int|
        1 <= i < n && 1 <= j < n && trim_of(radky[i].0@).len() != 0 && trim_of(radky[i].0@)
            == trim_of(radky[j].0@) ==> trim_of(radky[i].1@) == trim_of(radky[j].1@)
}

/// Every data row of the batch has found its place in the store: its id
/// is present and carries the row's name.
pub open spec fn davka_usazena(s: Seq<PartnerView>, radky: Seq<(String, String)>, n: int) -> bool {
    forall|i: int|
        1 <= i < n && trim_of(#[trigger] radky[i].0@).len() != 0 ==> ma_id(s, trim_of(radky[i].0@))
            && s[najdi(s, trim_of(radky[i].0@))].nazev == trim_of(radky[i].1@)
}

/// An import never deletes a record, never reorders the store, and never
/// touches an id or a folder assignment; the store invariant is kept.
pub proof fn lemma_import_zachovava(
    s: Seq<PartnerView>,
    radky: Seq<(String, String)>,
    n: int,
    cas: Seq<char>,
)
    requires
        partneri_wf(s),
    ensures
        partneri_wf(davka_zpracovana(s, radky, n, cas)),
        s.len() <= davka_zpracovana(s, radky, n, cas).len(),
        forall|i: int|
            0 <= i < s.len() ==> #[trigger] davka_zpracovana(s, radky, n, cas)[i].id == s[i].id
                && davka_zpracovana(s, radky, n, cas)[i].slozka == s[i].slozka,
    decreases n,
{
    if n > 1 {
        lemma_import_zachovava(s, radky, n - 1, cas);
        let t = davka_zpracovana(s, radky, n - 1, cas);
        lemma_radek_zachovava(t, radky[n - 1].0, radky[n - 1].1, cas);
    }
}

/// After one pass of a batch that does not contradict itself, every data
/// row's id stands in the store with that row's name.
proof fn lemma_davka_usadi(
    s: Seq<PartnerView>,
    radky: Seq<(String, String)>,
    n: int,
    cas: Seq<char>,
)
    requires
        partneri_wf(s),
        radky_souhlasne(radky, n),
    ensures
        davka_usazena(davka_zpracovana(s, radky, n, cas), radky, n),
    decreases n,
{
    if n > 1 {
        assert(radky_souhlasne(radky, n - 1));
        lemma_davka_usadi(s, radky, n - 1, cas);
        lemma_import_zachovava(s, radky, n - 1, cas);
        let t = davka_zpracovana(s, radky, n - 1, cas);
        let idb = radky[n - 1].0;
        let nb = radky[n - 1].1;
        let tid = trim_of(idb@);
        let d = davka_zpracovana(s, radky, n, cas);
        assert(d == radek_zpracovan(t, idb, nb, cas));
        assert forall|i: int|
            1 <= i < n && trim_of(#[trigger] radky[i].0@).len() != 0 implies ma_id(
            d,
            trim_of(radky[i].0@),
        ) && d[najdi(d, trim_of(radky[i].0@))].nazev == trim_of(radky[i].1@) by {
            let tidi = trim_of(radky[i].0@);
            let tnzi = trim_of(radky[i].1@);
            if i == n - 1 {
                lemma_radek_usadi(t, idb, nb, cas);
            } else {
                lemma_radek_najdi(t, idb, nb, cas, tidi);
                if tidi == tid {
                    lemma_radek_usadi(t, idb, nb, cas);
                    assert(trim_of(radky[n - 1].1@) == tnzi);
                } else {
                    lemma_najdi(t, tidi);
                    lemma_radek_ucinek(t, idb, nb, cas, najdi(t, tidi));
                }
            }
        }
    }
}

/// A batch whose every data row already stands in the store, name and
/// all, changes nothing when applied — whatever run time it is stamped
/// with.
proof fn lemma_davka_usazena_stoji(
    s: Seq<PartnerView>,
    radky: Seq<(String, String)>,
    n: int,
    cas: Seq<char>,
)
    requires
        partneri_wf(s),
        davka_usazena(s, radky, n),
    ensures
        davka_zpracovana(s, radky, n, cas) == s,
    decreases n,
{
    if n > 1 {
        assert(davka_usazena(s, radky, n - 1));
        lemma_davka_usazena_stoji(s, radky, n - 1, cas);
        let idb = radky[n - 1].0;
        let tid = trim_of(idb@);
        if tid.len() != 0 {
            lemma_najdi(s, tid);
        }
    }
}

/// Importing the same batch a second time changes nothing.  As long as
/// the batch does not contradict itself, every record — name, folder and
/// timestamp alike — stays exactly as the first import left it, whatever
/// moment the second run is stamped with.
pub proof fn lemma_import_idempotentni(
    s: Seq<PartnerView>,
    radky: Seq<(String, String)>,
    n: int,
    cas1: Seq<char>,
    cas2: Seq<char>,
)
    requires
        partneri_wf(s),
        radky_souhlasne(radky, n),
    ensures
        davka_zpracovana(davka_zpracovana(s, radky, n, cas1), radky, n, cas2) == davka_zpracovana(
            s,
            radky,
            n,
            cas1,
        ),
{
    lemma_davka_usadi(s, radky, n, cas1);
    lemma_import_zachovava(s, radky, n, cas1);
    lemma_davka_usazena_stoji(davka_zpracovana(s, radky, n, cas1), radky, n, cas2);
}

/// Merge precedence, seen from the record at position `k` of a store the
/// batch is imported into.  The record's id and folder survive as they
/// are.  When some data row carries the record's id (at most one can,
/// the batch ids being unique), the record takes that row's name, and
/// its timestamp moves to the run time exactly when that name differs
/// from the stored one.  When no data row carries the id, the record
/// stays untouched, timestamp included.
pub proof fn lemma_prednost_pri_importu(
    s: Seq<PartnerView>,
    radky: Seq<(String, String)>,
    n: int,
    cas: Seq<char>,
    k: int,
)
    requires
        partneri_wf(s),
        0 <= k < s.len(),
        radky_jednoznacne(radky, n),
    ensures
        davka_zpracovana(s, radky, n, cas)[k].id == s[k].id,
        davka_zpracovana(s, radky, n, cas)[k].slozka == s[k].slozka,
        forall|i: int|
            1 <= i < n && trim_of(#[trigger] radky[i].0@) == s[k].id ==> davka_zpracovana(
                s,
                radky,
                n,
                cas,
            )[k].nazev == trim_of(radky[i].1@) && davka_zpracovana(
                s,
                radky,
                n,
                cas,
            )[k].aktualizovano == (if s[k].nazev != trim_of(radky[i].1@) {
                cas
            } else {
                s[k].aktualizovano
            }),
        (forall|i: int| 1 <= i < n ==> trim_of(#[trigger] radky[i].0@) != s[k].id)
            ==> davka_zpracovana(s, radky, n, cas)[k] == s[k],
    decreases n,
{
    if n > 1 {
        assert(radky_jednoznacne(radky, n - 1));
        lemma_prednost_pri_importu(s, radky, n - 1, cas, k);
        lemma_import_zachovava(s, radky, n - 1, cas);
        let t = davka_zpracovana(s, radky, n - 1, cas);
        let d = davka_zpracovana(s, radky, n, cas);
        let idb = radky[n - 1].0;
        let nb = radky[n - 1].1;
        let tid = trim_of(idb@);
        lemma_radek_ucinek(t, idb, nb, cas, k);
        if tid == s[k].id {
            assert forall|i: int| 1 <= i < n - 1 implies trim_of(#[trigger] radky[i].0@)
                != s[k].id by {
                assert(s[k].id.len() != 0);
            }
            assert(t[k] == s[k]);
        }
    }
}

/// Applies one import row to the record list.
fn zpracuj_radek(partneri: &mut Vec<Partner>, id_bunka: &String, nazev_bunka: &String, cas: &String)
    requires
        partneri_wf(old(partneri).deep_view()),
    ensures
        final(partneri).deep_view() == radek_zpracovan(
            old(partneri).deep_view(),
            *id_bunka,
            *nazev_bunka,
            cas@,
        ),
        partneri_wf(final(partneri).deep_view()),
{
    let id = orez(id_bunka.as_str());
    if id.as_str().is_empty() {
        return;
    }
    let nazev = orez(nazev_bunka.as_str());
    match najdi_index(partneri, &id) {
        Some(j) => {
            proof {
                lemma_najdi(partneri.deep_view(), id@);
            }
            if partneri[j].nazev == nazev {
                // The record is left untouched, its timestamp included.
            } else {
                let novy = Partner {
                    id: partneri[j].id.clone(),
                    nazev,
                    slozka: partneri[j].slozka.clone(),
                    aktualizovano: cas.clone(),
                };
                partneri[j] = novy;
                proof {
                    let s = old(partneri).deep_view();
                    assert(partneri.deep_view() =~= radek_zpracovan(
                        s,
                        *id_bunka,
                        *nazev_bunka,
                        cas@,
                    ));
                    assert forall|x: int| 0 <= x < partneri.deep_view().len() implies partneri
                        .deep_view()[x].id == s[x].id by {}
                }
            }
        },
        None => {
            partneri.push(
                Partner { id, nazev, slozka: String::new(), aktualizovano: cas.clone() },
            );
            proof {
                let s = old(partneri).deep_view();
                assert(partneri.deep_view() =~= radek_zpracovan(
                    s,
                    *id_bunka,
                    *nazev_bunka,
                    cas@,
                ));
            }
        },
    }
}

/// Merges an imported batch into the store.
///
/// Row 0 is the header and is skipped; every other row is trimmed and
/// upserted by id in file order.  Records absent from the batch stay
/// untouched, no record is ever deleted, and `posledni_sync` is set to
/// the run time `ted` even when the batch carries no data row.
pub fn importuj_partnery(db: &mut Databaze, radky: &Vec<(String, String)>, ted: &Cas)
    requires
        partneri_wf(old(db)@.partneri),
        ted.platny(),
    ensures
        partneri_wf(final(db)@.partneri),
        final(db)@.partneri == davka_zpracovana(
            old(db)@.partneri,
            radky@,
            radky@.len() as int,
            zapis(*ted),
        ),
        final(db)@.posledni_sync == zapis(*ted),
{
    let ghost s0 = db@.partneri;
    let cas = zapis_cas(ted);
    let mut i: usize = 1;
    while i < radky.len()
        invariant
            1 <= i,
            radky@.len() >= 1 ==> i <= radky@.len(),
            radky@.len() <= 1 ==> i == 1,
            cas@ == zapis(*ted),
            partneri_wf(db@.partneri),
            db@.partneri == davka_zpracovana(s0, radky@, i as int, cas@),
        decreases radky@.len() - i,
    {
        zpracuj_radek(&mut db.partneri, &radky[i].0, &radky[i].1, &cas);
        i = i + 1;
    }
    proof {
        if radky@.len() == 0 {
            assert(davka_zpracovana(s0, radky@, 1, cas@) == s0);
            assert(davka_zpracovana(s0, radky@, 0, cas@) == s0);
        }
    }
    db.posledni_sync = cas;
}

/// Sets the folder of the record with the given id (even to the empty
/// name) and stamps the record with the run time `ted`.  When no record
/// carries the id, the store is left exactly as it was: the edit is
/// silently dropped.
pub fn uloz_nazev_slozky(db: &mut Databaze, id: &String, slozka: String, ted: &Cas)
    requires
        partneri_wf(old(db)@.partneri),
        ted.platny(),
    ensures
        partneri_wf(final(db)@.partneri),
        final(db)@.posledni_sync == old(db)@.posledni_sync,
        ma_id(old(db)@.partneri, id@) ==> final(db)@.partneri == old(db)@.partneri.update(
            najdi(old(db)@.partneri, id@),
            PartnerView {
                id: old(db)@.partneri[najdi(old(db)@.partneri, id@)].id,
                nazev: old(db)@.partneri[najdi(old(db)@.partneri, id@)].nazev,
                slozka: slozka@,
                aktualizovano: zapis(*ted),
            },
        ),
        !ma_id(old(db)@.partneri, id@) ==> final(db)@.partneri == old(db)@.partneri,
{
    match najdi_index(&db.partneri, id) {
        Some(j) => {
            proof {
                lemma_najdi(db.partneri.deep_view(), id@);
            }
            let novy = Partner {
                id: db.partneri[j].id.clone(),
                nazev: db.partneri[j].nazev.clone(),
                slozka,
                aktualizovano: zapis_cas(ted),
            };
            db.partneri[j] = novy;
            proof {
                let s = old(db)@.partneri;
                assert(db.partneri.deep_view() =~= s.update(
                    najdi(s, id@),
                    PartnerView {
                        id: s[najdi(s, id@)].id,
                        nazev: s[najdi(s, id@)].nazev,
                        slozka: novy.slozka@,
                        aktualizovano: zapis(*ted),
                    },
                ));
                assert forall|x: int| 0 <= x < db.partneri.deep_view().len() implies db.partneri
                    .deep_view()[x].id == s[x].id by {}
            }
        },
        None => {},
    }
}

} // verus!
