//! Data model of the registry: one partner record, the persisted store,
//! and the configuration document, together with their abstract views
//! and the store invariant (unique, non-empty ids).

use vstd::prelude::*;

verus! {

/// One business partner held in the registry.
#[derive(Debug)]
pub struct Partner {
    /// Unique key, case-sensitive, immutable once created.
    pub id: String,
    /// Display name of the company; may be rewritten by an import.
    pub nazev: String,
    /// Name of the partner's folder under the archive root; empty = unassigned.
    /// Never touched by an import, only by an explicit edit.
    pub slozka: String,
    /// Timestamp of the last change to `nazev` or `slozka`.
    pub aktualizovano: String,
}

/// Abstract value of a [`Partner`]: each field as its character sequence.
pub struct PartnerView {
    pub id: Seq<char>,
    pub nazev: Seq<char>,
    pub slozka: Seq<char>,
    pub aktualizovano: Seq<char>,
}

impl View for Partner {
    type V = PartnerView;

    open spec fn view(&self) -> PartnerView {
        PartnerView {
            id: self.id@,
            nazev: self.nazev@,
            slozka: self.slozka@,
            aktualizovano: self.aktualizovano@,
        }
    }
}

impl DeepView for Partner {
    type V = PartnerView;

    open spec fn deep_view(&self) -> PartnerView {
        self.view()
    }
}

impl Clone for Partner {
    fn clone(&self) -> (res: Self)
        ensures
            res == *self,
    {
        Partner {
            id: self.id.clone(),
            nazev: self.nazev.clone(),
            slozka: self.slozka.clone(),
            aktualizovano: self.aktualizovano.clone(),
        }
    }
}

/// The persisted registry: the time of the last successful import and
/// the list of partners, keyed by their unique `id`.
#[derive(Debug)]
pub struct Databaze {
    /// Timestamp of the most recent successful import; empty if never synced.
    pub posledni_sync: String,
    /// The partner records; ids are unique, see [`partneri_wf`].
    pub partneri: Vec<Partner>,
}

/// Abstract value of a [`Databaze`].
pub struct DatabazeView {
    pub posledni_sync: Seq<char>,
    pub partneri: Seq<PartnerView>,
}

impl View for Databaze {
    type V = DatabazeView;

    open spec fn view(&self) -> DatabazeView {
        DatabazeView { posledni_sync: self.posledni_sync@, partneri: self.partneri.deep_view() }
    }
}

impl Clone for Databaze {
    fn clone(&self) -> (res: Self)
        ensures
            res@ == self@,
    {
        let mut partneri: Vec<Partner> = Vec::new();
        let mut i: usize = 0;
        while i < self.partneri.len()
            invariant
                i <= self.partneri@.len(),
                partneri@ == self.partneri@.subrange(0, i as int),
            decreases self.partneri@.len() - i,
        {
            partneri.push(self.partneri[i].clone());
            i = i + 1;
        }
        assert(partneri@ =~= self.partneri@);
        Databaze { posledni_sync: self.posledni_sync.clone(), partneri }
    }
}

/// Application settings, persisted as one whole document.
#[derive(Debug)]
pub struct Config {
    /// Root under which partner folders are expected to exist.
    pub cesta_archiv: String,
    /// Root for production exports.
    pub cesta_vyroba: String,
    /// Human-readable label of the staleness threshold, e.g. "1 week".
    pub interval_synchronizace: String,
}

/// Abstract value of a [`Config`].
pub struct ConfigView {
    pub cesta_archiv: Seq<char>,
    pub cesta_vyroba: Seq<char>,
    pub interval_synchronizace: Seq<char>,
}

impl View for Config {
    type V = ConfigView;

    open spec fn view(&self) -> ConfigView {
        ConfigView {
            cesta_archiv: self.cesta_archiv@,
            cesta_vyroba: self.cesta_vyroba@,
            interval_synchronizace: self.interval_synchronizace@,
        }
    }
}

impl Clone for Config {
    fn clone(&self) -> (res: Self)
        ensures
            res == *self,
    {
        Config {
            cesta_archiv: self.cesta_archiv.clone(),
            cesta_vyroba: self.cesta_vyroba.clone(),
            interval_synchronizace: self.interval_synchronizace.clone(),
        }
    }
}

/// No two records of `s` share an `id`.
pub open spec fn unikatni_id(s: Seq<PartnerView>) -> bool {
    forall|i: int, j: int| 0 <= i < j < s.len() ==> s[i].id != s[j].id
}

/// The store invariant: no two records share an `id`, and no stored `id`
/// is empty.  Every store this crate hands out satisfies it.
pub open spec fn partneri_wf(s: Seq<PartnerView>) -> bool {
    &&& unikatni_id(s)
    &&& forall|i: int| 0 <= i < s.len() ==> s[i].id.len() != 0
}

/// Whether some record in `s` carries the id `id`.
pub open spec fn ma_id(s: Seq<PartnerView>, id: Seq<char>) -> bool {
    exists|i: int| 0 <= i < s.len() && s[i].id == id
}

/// Index of the first record in `s` carrying the id `id`; `s.len()` if none does.
pub open spec fn najdi(s: Seq<PartnerView>, id: Seq<char>) -> int
    decreases s.len(),
{
    if s.len() == 0 {
        0
    } else if s[0].id == id {
        0
    } else {
        1 + najdi(s.drop_first(), id)
    }
}

/// `najdi` points at the first record with the given id, or one past the
/// end when there is none.
pub proof fn lemma_najdi(s: Seq<PartnerView>, id: Seq<char>)
    ensures
        0 <= najdi(s, id) <= s.len(),
        ma_id(s, id) ==> najdi(s, id) < s.len() && s[najdi(s, id)].id == id,
        forall|k: int| 0 <= k < najdi(s, id) ==> s[k].id != id,
        !ma_id(s, id) ==> najdi(s, id) == s.len(),
    decreases s.len(),
{
    if s.len() == 0 {
    } else if s[0].id == id {
    } else {
        lemma_najdi(s.drop_first(), id);
        let t = s.drop_first();
        if ma_id(t, id) {
            let i = choose|i: int| 0 <= i < t.len() && t[i].id == id;
            assert(s[i + 1].id == id);
        }
        if ma_id(s, id) {
            let i = choose|i: int| 0 <= i < s.len() && s[i].id == id;
            assert(t[i - 1].id == id);
        }
        assert forall|k: int| 0 <= k < najdi(s, id) implies s[k].id != id by {
            if k > 0 {
                assert(t[k - 1].id != id);
            }
        }
    }
}

/// Looks up the position of the first record of `v` carrying `id`.
pub fn najdi_index(v: &Vec<Partner>, id: &String) -> (r: Option<usize>)
    ensures
        r is Some <==> ma_id(v.deep_view(), id@),
        r matches Some(j) ==> j == najdi(v.deep_view(), id@),
{
    let mut j: usize = 0;
    while j < v.len()
        invariant
            j <= v@.len(),
            forall|k: int| 0 <= k < j ==> v.deep_view()[k].id != id@,
        decreases v@.len() - j,
    {
        if v[j].id == *id {
            proof {
                lemma_najdi(v.deep_view(), id@);
                assert(v.deep_view()[j as int].id == id@);
            }
            return Some(j);
        }
        j = j + 1;
    }
    None
}

/// Under the store invariant the record found by `najdi` is the only one
/// with its id.
pub proof fn lemma_najdi_jediny(s: Seq<PartnerView>, id: Seq<char>)
    requires
        partneri_wf(s),
    ensures
        forall|k: int| 0 <= k < s.len() && s[k].id == id ==> k == najdi(s, id),
{
    lemma_najdi(s, id);
    assert forall|k: int| 0 <= k < s.len() && s[k].id == id implies k == najdi(s, id) by {
        if ma_id(s, id) {
            let n = najdi(s, id);
            if k < n {
                assert(s[k].id != id);
            } else if n < k {
                assert(s[n].id == s[k].id);
            }
        } else {
            assert(ma_id(s, id));
        }
    }
}

/// The first `n` records of a parsed store document brought under the
/// invariant: records with an empty id are dropped, and of several records
/// sharing an id the last wins, standing where the id first appeared.
pub open spec fn vycistene(s: Seq<PartnerView>, n: int) -> Seq<PartnerView>
    decreases n,
{
    if n <= 0 {
        Seq::empty()
    } else {
        let t = vycistene(s, n - 1);
        let p = s[n - 1];
        if p.id.len() == 0 {
            t
        } else if ma_id(t, p.id) {
            t.update(najdi(t, p.id), p)
        } else {
            t.push(p)
        }
    }
}

/// A store that already satisfies the invariant passes the cleanup
/// unchanged.
pub proof fn lemma_vycistene_wf(s: Seq<PartnerView>, n: int)
    requires
        partneri_wf(s),
        0 <= n <= s.len(),
    ensures
        vycistene(s, n) == s.subrange(0, n),
    decreases n,
{
    if n > 0 {
        lemma_vycistene_wf(s, n - 1);
        let t = vycistene(s, n - 1);
        let p = s[n - 1];
        assert(p.id.len() != 0);
        if ma_id(t, p.id) {
            let i = choose|i: int| 0 <= i < t.len() && t[i].id == p.id;
            assert(s.subrange(0, n - 1)[i] == s[i]);
            assert(false);
        }
        assert(vycistene(s, n) =~= s.subrange(0, n));
    } else {
        assert(vycistene(s, n) =~= s.subrange(0, n));
    }
}

/// The store the crate works with, from whatever the store document held:
/// the empty registry when the document was missing or corrupt, and
/// otherwise the parsed records brought under the store invariant.
pub fn nacti_databazi(nactena: Option<Databaze>) -> (r: Databaze)
    ensures
        partneri_wf(r@.partneri),
        nactena is None ==> r@.posledni_sync.len() == 0 && r@.partneri.len() == 0,
        nactena matches Some(d) ==> r@.posledni_sync == d@.posledni_sync && r@.partneri
            == vycistene(d@.partneri, d@.partneri.len() as int),
        nactena matches Some(d) ==> (partneri_wf(d@.partneri) ==> r@.partneri == d@.partneri),
{
    match nactena {
        None => Databaze { posledni_sync: String::new(), partneri: Vec::new() },
        Some(d) => {
            let Databaze { posledni_sync, partneri } = d;
            let mut out: Vec<Partner> = Vec::new();
            let mut i: usize = 0;
            while i < partneri.len()
                invariant
                    i <= partneri@.len(),
                    out.deep_view() == vycistene(partneri.deep_view(), i as int),
                    partneri_wf(out.deep_view()),
                decreases partneri@.len() - i,
            {
                let p = partneri[i].clone();
                if !p.id.as_str().is_empty() {
                    match najdi_index(&out, &p.id) {
                        Some(j) => {
                            proof {
                                lemma_najdi(out.deep_view(), p.id@);
                            }
                            out[j] = p;
                            proof {
                                assert(out.deep_view() =~= vycistene(
                                    partneri.deep_view(),
                                    i + 1,
                                ));
                            }
                        },
                        None => {
                            out.push(p);
                            proof {
                                assert(out.deep_view() =~= vycistene(
                                    partneri.deep_view(),
                                    i + 1,
                                ));
                            }
                        },
                    }
                }
                i = i + 1;
            }
            proof {
                if partneri_wf(partneri.deep_view()) {
                    lemma_vycistene_wf(partneri.deep_view(), partneri.deep_view().len() as int);
                    assert(partneri.deep_view().subrange(0, partneri.deep_view().len() as int)
                        =~= partneri.deep_view());
                }
            }
            Databaze { posledni_sync, partneri: out }
        },
    }
}

} // verus!
