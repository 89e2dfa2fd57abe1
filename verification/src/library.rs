//! The user's game library: owned offers grouped into titles.

use crate::search::{first_index, lemma_first_index_found, lemma_first_index_none, lemma_first_index_props};
use crate::service_layer::{
    ServiceGameProductType, ServiceLegacyOffer, ServiceUserGameProduct,
};
use crate::manifest::ManifestError;
use crate::native::{after_last_bracket, registry_path};
use crate::text::{lowercase, path_join, replace_all, replace_spec, str_eq, str_to_lowercase, views};
use vstd::multiset::Multiset;
use vstd::prelude::*;

verus! {

/// An owned product together with its catalog definition.
pub struct OwnedOffer {
    pub slug: String,
    pub product: ServiceUserGameProduct,
    pub offer: ServiceLegacyOffer,
}

impl OwnedOffer {
    pub fn new(slug: String, product: ServiceUserGameProduct, offer: ServiceLegacyOffer) -> (r:
        Self)
        ensures
            r.slug == slug,
            r.product == product,
            r.offer == offer,
    {
        OwnedOffer { slug, product, offer }
    }

    /// The catalog offer id.
    pub fn offer_id(&self) -> (r: &String)
        ensures
            r == &self.offer.offer_id,
    {
        &self.offer.offer_id
    }
}

/// A base game with the extra offers (add-ons) that belong to it.
pub struct OwnedTitle {
    pub base_offer: OwnedOffer,
    pub offers: Vec<OwnedOffer>,
}

/// A title's display name: the base game's title without line breaks, or `Unknown`.
pub open spec fn title_name(t: OwnedTitle) -> Seq<char> {
    match t.base_offer.product.product.base_item.title {
        Some(title) => replace_spec(title@, seq!['\n'], Seq::empty()),
        None => "Unknown"@,
    }
}

/// The base game of a title is its first extra offer, when that is a downloadable base game.
pub open spec fn base_game_of(offers: Seq<OwnedOffer>) -> Option<OwnedOffer> {
    if offers.len() == 0 {
        None
    } else {
        let o = offers[0];
        if o.product.product.base_item.game_type != Some(ServiceGameProductType::BaseGame) {
            None
        } else if !o.product.product.downloadable {
            None
        } else {
            Some(o)
        }
    }
}

/// Offers with the given slug.
pub open spec fn has_slug(slug: Seq<char>) -> spec_fn(OwnedOffer) -> bool {
    |o: OwnedOffer| o.slug@ == slug
}

impl OwnedTitle {
    pub fn new(base_offer: OwnedOffer, offers: Vec<OwnedOffer>) -> (r: Self)
        ensures
            r.base_offer == base_offer,
            r.offers == offers,
    {
        OwnedTitle { base_offer, offers }
    }

    pub fn name(&self) -> (r: String)
        ensures
            r@ == title_name(*self),
    {
        match &self.base_offer.product.product.base_item.title {
            Some(title) => {
                let newline = "\n";
                let empty = "";
                proof {
                    reveal_strlit("\n");
                    reveal_strlit("");
                    assert(newline@ =~= seq!['\n']);
                    assert(empty@ =~= Seq::<char>::empty());
                }
                replace_all(title.as_str(), newline, empty)
            },
            None => "Unknown".to_owned(),
        }
    }

    /// The first extra offer, if it is a downloadable base game; only that first offer
    /// is looked at.
    pub fn base_game(&self) -> (r: Option<&OwnedOffer>)
        ensures
            match base_game_of(self.offers@) {
                Some(o) => r == Some(&o) && o == self.offers@[0],
                None => r is None,
            },
    {
        if self.offers.len() == 0 {
            return None;
        }
        let o = &self.offers[0];
        let is_base = match o.product.product.base_item.game_type {
            Some(t) => t == ServiceGameProductType::BaseGame,
            None => false,
        };
        if !is_base {
            return None;
        }
        if !o.product.product.downloadable {
            return None;
        }
        Some(o)
    }

    /// The first extra offer with the given slug.
    pub fn offer(&self, slug: &str) -> (r: Option<&OwnedOffer>)
        ensures
            match first_index(self.offers@, has_slug(slug@)) {
                Some(i) => r == Some(&self.offers@[i]),
                None => r is None,
            },
    {
        let ghost p = has_slug(slug@);
        let mut i: usize = 0;
        while i < self.offers.len()
            invariant
                i <= self.offers@.len(),
                p == has_slug(slug@),
                forall|j: int| 0 <= j < i ==> !p(#[trigger] self.offers@[j]),
            decreases self.offers@.len() - i,
        {
            if str_eq(self.offers[i].slug.as_str(), slug) {
                proof {
                    lemma_first_index_found(self.offers@, p, i as int);
                }
                return Some(&self.offers[i]);
            }
            i = i + 1;
        }
        proof {
            lemma_first_index_none(self.offers@, p);
        }
        None
    }

    pub fn extra_offers(&self) -> (r: &Vec<OwnedOffer>)
        ensures
            r == &self.offers,
    {
        &self.offers
    }
}


/// A downloadable full base game that is not a trial.
pub open spec fn is_full_game(o: OwnedOffer) -> bool {
    &&& o.offer.display_type@ == "FullGame"@
    &&& o.product.product.base_item.game_type == Some(ServiceGameProductType::BaseGame)
    &&& o.offer.is_downloadable
    &&& o.product.product.game_product_user.game_product_user_trial is None
}

/// A full game that belongs to no other game: it heads a title.
pub open spec fn is_base_candidate(o: OwnedOffer) -> bool {
    is_full_game(o) && o.product.product.base_item.base_game_slug is None
}

/// Full games that name the game they belong to.
pub open spec fn is_full_addon() -> spec_fn(OwnedOffer) -> bool {
    |o: OwnedOffer| is_full_game(o) && o.product.product.base_item.base_game_slug is Some
}

/// Full games that belong to the game with the given slug.
pub open spec fn is_addon_of(slug: Seq<char>) -> spec_fn(OwnedOffer) -> bool {
    |o: OwnedOffer|
        is_full_game(o) && (o.product.product.base_item.base_game_slug matches Some(s) && s@
            == slug)
}

/// `s[k]` heads a title and no later offer heads one with the same slug.
pub open spec fn is_last_base_candidate(s: Seq<OwnedOffer>, k: int) -> bool {
    &&& 0 <= k < s.len()
    &&& is_base_candidate(s[k])
    &&& forall|k2: int|
        k < k2 < s.len() && is_base_candidate(#[trigger] s[k2]) ==> s[k2].slug@ != s[k].slug@
}

/// `o` is an offer of `s` that heads a title: a full base game with no later one of the
/// same slug.
pub open spec fn heads_title(s: Seq<OwnedOffer>, o: OwnedOffer) -> bool {
    exists|k: int| #![trigger is_last_base_candidate(s, k)] is_last_base_candidate(s, k) && s[k] == o
}

proof fn lemma_filter_of_filter<A>(s: Seq<A>, p: spec_fn(A) -> bool, q: spec_fn(A) -> bool)
    requires
        forall|a: A| #[trigger] q(a) ==> p(a),
    ensures
        s.filter(p).filter(q) == s.filter(q),
    decreases s.len(),
{
    reveal(Seq::filter);
    if s.len() > 0 {
        let t = s.drop_last();
        let x = s.last();
        lemma_filter_of_filter(t, p, q);
        assert(s =~= t.push(x));
        t.lemma_filter_push(x, p);
        t.lemma_filter_push(x, q);
        if p(x) {
            t.filter(p).lemma_filter_push(x, q);
        }
    }
}

fn full_game(o: &OwnedOffer) -> (r: bool)
    ensures
        r == is_full_game(*o),
{
    if !str_eq(o.offer.display_type.as_str(), "FullGame") {
        return false;
    }
    let base = match o.product.product.base_item.game_type {
        Some(t) => t == ServiceGameProductType::BaseGame,
        None => false,
    };
    if !base {
        return false;
    }
    if !o.offer.is_downloadable {
        return false;
    }
    o.product.product.game_product_user.game_product_user_trial.is_none()
}

/// The position of the offer with the given slug.
fn find_slug(offers: &Vec<OwnedOffer>, slug: &str) -> (r: Option<usize>)
    ensures
        match r {
            Some(j) => j < offers.len() && offers@[j as int].slug@ == slug@,
            None => forall|j: int| 0 <= j < offers.len() ==> offers@[j].slug@ != slug@,
        },
{
    let mut i: usize = 0;
    while i < offers.len()
        invariant
            i <= offers.len(),
            forall|j: int| 0 <= j < i ==> offers@[j].slug@ != slug@,
        decreases offers.len() - i,
    {
        if str_eq(offers[i].slug.as_str(), slug) {
            return Some(i);
        }
        i = i + 1;
    }
    None
}

/// `o` is `s[k]` for some `k >= lo` that heads a title.
spec fn heads_from(s: Seq<OwnedOffer>, lo: int, o: OwnedOffer) -> bool {
    exists|k: int| #![trigger is_last_base_candidate(s, k)]
        lo <= k && is_last_base_candidate(s, k) && s[k] == o
}

/// Every offer from `lo` on that heads a title has its slug among `bases`.
spec fn covered(s: Seq<OwnedOffer>, lo: int, bases: Seq<OwnedOffer>) -> bool {
    forall|k: int|
        lo <= k < s.len() && is_base_candidate(#[trigger] s[k]) ==> exists|j: int|
            0 <= j < bases.len() && bases[j].slug@ == s[k].slug@
}

spec fn distinct_slugs(bases: Seq<OwnedOffer>) -> bool {
    forall|j1: int, j2: int| 0 <= j1 < j2 < bases.len() ==> bases[j1].slug@ != bases[j2].slug@
}

proof fn lemma_push_base(orig: Seq<OwnedOffer>, k: int, bases: Seq<OwnedOffer>)
    requires
        0 <= k < orig.len(),
        is_base_candidate(orig[k]),
        forall|j: int| 0 <= j < bases.len() ==> bases[j].slug@ != orig[k].slug@,
        forall|j: int| 0 <= j < bases.len() ==> heads_from(orig, k + 1, #[trigger] bases[j]),
        distinct_slugs(bases),
        covered(orig, k + 1, bases),
    ensures
        forall|j: int|
            0 <= j < bases.len() + 1 ==> heads_from(orig, k, #[trigger] bases.push(orig[k])[j]),
        distinct_slugs(bases.push(orig[k])),
        covered(orig, k, bases.push(orig[k])),
{
    let nb = bases.push(orig[k]);
    assert(is_last_base_candidate(orig, k));
    assert forall|j: int| 0 <= j < nb.len() implies heads_from(orig, k, #[trigger] nb[j]) by {
        if j < bases.len() {
            assert(nb[j] == bases[j]);
            assert(heads_from(orig, k + 1, bases[j]));
        }
    }
    assert forall|kk: int| k <= kk < orig.len() && is_base_candidate(#[trigger] orig[kk]) implies exists|
        j: int,
    | 0 <= j < nb.len() && nb[j].slug@ == orig[kk].slug@ by {
        if kk == k {
            assert(nb[nb.len() - 1].slug@ == orig[kk].slug@);
        } else {
            let j = choose|j: int| 0 <= j < bases.len() && bases[j].slug@ == orig[kk].slug@;
            assert(nb[j] == bases[j]);
        }
    }
}

proof fn lemma_heads_from_weaken(orig: Seq<OwnedOffer>, k: int, bases: Seq<OwnedOffer>)
    requires
        forall|j: int| 0 <= j < bases.len() ==> heads_from(orig, k + 1, #[trigger] bases[j]),
    ensures
        forall|j: int| 0 <= j < bases.len() ==> heads_from(orig, k, #[trigger] bases[j]),
{
    assert forall|j: int| 0 <= j < bases.len() implies heads_from(orig, k, #[trigger] bases[j]) by {
        assert(heads_from(orig, k + 1, bases[j]));
        let kk = choose|kk: int| #![trigger is_last_base_candidate(orig, kk)]
            k + 1 <= kk && is_last_base_candidate(orig, kk) && orig[kk] == bases[j];
        assert(k <= kk && is_last_base_candidate(orig, kk) && orig[kk] == bases[j]);
    }
}

proof fn lemma_skip_offer(orig: Seq<OwnedOffer>, k: int, bases: Seq<OwnedOffer>)
    requires
        0 <= k < orig.len(),
        is_base_candidate(orig[k]) ==> exists|j: int|
            0 <= j < bases.len() && bases[j].slug@ == orig[k].slug@,
        forall|j: int| 0 <= j < bases.len() ==> heads_from(orig, k + 1, #[trigger] bases[j]),
        covered(orig, k + 1, bases),
    ensures
        forall|j: int| 0 <= j < bases.len() ==> heads_from(orig, k, #[trigger] bases[j]),
        covered(orig, k, bases),
{
    lemma_heads_from_weaken(orig, k, bases);
    assert forall|kk: int| k <= kk < orig.len() && is_base_candidate(#[trigger] orig[kk]) implies exists|
        j: int,
    | 0 <= j < bases.len() && bases[j].slug@ == orig[kk].slug@ by {
        if kk > k {
            assert(covered(orig, k + 1, bases));
        }
    }
}

/// Splits the offers into the heads of titles (the last full base game of each slug, in
/// no particular order) and the full games that name a base game (in their order).
fn collect_bases(products: Vec<OwnedOffer>) -> (r: (Vec<OwnedOffer>, Vec<OwnedOffer>))
    ensures
        forall|j: int| 0 <= j < r.0.len() ==> heads_from(products@, 0, #[trigger] r.0@[j]),
        distinct_slugs(r.0@),
        covered(products@, 0, r.0@),
        r.1@ == products@.filter(is_full_addon()),
{
    let ghost orig = products@;
    let ghost full = is_full_addon();
    let mut products = products;
    let mut bases: Vec<OwnedOffer> = Vec::new();
    let mut addons: Vec<OwnedOffer> = Vec::new();
    while products.len() > 0
        invariant
            products.len() <= orig.len(),
            products@ == orig.take(products.len() as int),
            full == is_full_addon(),
            addons@ == orig.subrange(products.len() as int, orig.len() as int).filter(full),
            forall|j: int|
                0 <= j < bases.len() ==> heads_from(orig, products.len() as int, #[trigger] bases@[j]),
            distinct_slugs(bases@),
            covered(orig, products.len() as int, bases@),
        decreases products.len(),
    {
        let ghost old_bases = bases@;
        let p = products.pop().unwrap();
        let ghost k = products.len() as int;
        assert(p == orig[k]);
        proof {
            let rest = orig.subrange(k + 1, orig.len() as int);
            assert(orig.subrange(k, orig.len() as int) =~= seq![p] + rest);
            rest.lemma_filter_prepend(p, full);
        }
        if full_game(&p) && p.product.product.base_item.base_game_slug.is_none() {
            let found = find_slug(&bases, p.slug.as_str());
            match found {
                Some(j) => {
                    proof {
                        lemma_skip_offer(orig, k, bases@);
                    }
                },
                None => {
                    proof {
                        lemma_push_base(orig, k, bases@);
                    }
                    bases.push(p);
                },
            }
        } else {
            proof {
                lemma_skip_offer(orig, k, bases@);
            }
            if full_game(&p) {
                addons.insert(0, p);
                proof {
                    assert(addons@ =~= seq![orig[k]] + orig.subrange(k + 1, orig.len() as int).filter(
                        full,
                    ));
                }
            }
        }
    }
    assert(orig.subrange(0, orig.len() as int) =~= orig);
    (bases, addons)
}

/// For each base, the add-ons that name it, in their order.
fn distribute_addons(bases: &Vec<OwnedOffer>, addons: Vec<OwnedOffer>) -> (r: Vec<
    Vec<OwnedOffer>,
>)
    requires
        forall|j1: int, j2: int|
            0 <= j1 < j2 < bases.len() ==> bases@[j1].slug@ != bases@[j2].slug@,
        forall|i: int| 0 <= i < addons.len() ==> is_full_addon()(#[trigger] addons@[i]),
    ensures
        r.len() == bases.len(),
        forall|j: int|
            0 <= j < bases.len() ==> (#[trigger] r@[j])@ == addons@.filter(
                is_addon_of(bases@[j].slug@),
            ),
{
    let ghost adds = addons@;
    let mut addons = addons;
    let mut per_title: Vec<Vec<OwnedOffer>> = Vec::new();
    let mut t: usize = 0;
    while t < bases.len()
        invariant
            t <= bases.len(),
            per_title.len() == t,
            forall|j: int| 0 <= j < t ==> (#[trigger] per_title@[j])@ == Seq::<OwnedOffer>::empty(),
        decreases bases.len() - t,
    {
        per_title.push(Vec::new());
        t = t + 1;
    }
    proof {
        assert forall|j: int| 0 <= j < bases.len() implies (#[trigger] per_title@[j])@
            == adds.subrange(adds.len() as int, adds.len() as int).filter(
            is_addon_of(bases@[j].slug@),
        ) by {
            reveal(Seq::filter);
            assert(adds.subrange(adds.len() as int, adds.len() as int) =~= Seq::empty());
        }
    }
    while addons.len() > 0
        invariant
            per_title.len() == bases.len(),
            addons.len() <= adds.len(),
            addons@ == adds.take(addons.len() as int),
            forall|i: int| 0 <= i < adds.len() ==> is_full_addon()(#[trigger] adds[i]),
            forall|j1: int, j2: int|
                0 <= j1 < j2 < bases.len() ==> bases@[j1].slug@ != bases@[j2].slug@,
            forall|j: int|
                0 <= j < bases.len() ==> (#[trigger] per_title@[j])@ == adds.subrange(
                    addons.len() as int,
                    adds.len() as int,
                ).filter(is_addon_of(bases@[j].slug@)),
        decreases addons.len(),
    {
        let a = addons.pop().unwrap();
        let ghost m = addons.len() as int;
        let ghost old_pt = per_title@;
        assert(a == adds[m]);
        assert(is_full_addon()(adds[m]));
        let ghost rest = adds.subrange(m + 1, adds.len() as int);
        proof {
            assert(adds.subrange(m, adds.len() as int) =~= seq![a] + rest);
            assert forall|j: int| 0 <= j < bases.len() implies #[trigger] (seq![a] + rest).filter(
                is_addon_of(bases@[j].slug@),
            ) == (if is_addon_of(bases@[j].slug@)(a) {
                seq![a]
            } else {
                Seq::empty()
            }) + rest.filter(is_addon_of(bases@[j].slug@)) by {
                rest.lemma_filter_prepend(a, is_addon_of(bases@[j].slug@));
            }
        }
        let idx = match &a.product.product.base_item.base_game_slug {
            Some(s) => find_slug(bases, s.as_str()),
            None => None,
        };
        match idx {
            Some(j) => {
                let mut v = per_title.remove(j);
                v.insert(0, a);
                per_title.insert(j, v);
                proof {
                    assert forall|jj: int| 0 <= jj < bases.len() implies (
                    #[trigger] per_title@[jj])@ == adds.subrange(m, adds.len() as int).filter(
                        is_addon_of(bases@[jj].slug@),
                    ) by {
                        let f = rest.filter(is_addon_of(bases@[jj].slug@));
                        if jj == j as int {
                            assert(per_title@[jj]@ =~= seq![a] + f);
                        } else {
                            assert(per_title@[jj] == old_pt[jj]);
                            assert(!is_addon_of(bases@[jj].slug@)(a));
                            assert(Seq::<OwnedOffer>::empty() + f =~= f);
                        }
                    }
                }
            },
            None => {
                proof {
                    assert forall|jj: int| 0 <= jj < bases.len() implies (
                    #[trigger] per_title@[jj])@ == adds.subrange(m, adds.len() as int).filter(
                        is_addon_of(bases@[jj].slug@),
                    ) by {
                        let f = rest.filter(is_addon_of(bases@[jj].slug@));
                        assert(!is_addon_of(bases@[jj].slug@)(a));
                        assert(Seq::<OwnedOffer>::empty() + f =~= f);
                    }
                }
            },
        }
    }
    assert(adds.subrange(0, adds.len() as int) =~= adds);
    per_title
}

/// Pairs each base with its add-ons.
fn zip_titles(bases: Vec<OwnedOffer>, per_title: Vec<Vec<OwnedOffer>>) -> (r: Vec<OwnedTitle>)
    requires
        bases.len() == per_title.len(),
    ensures
        r.len() == bases.len(),
        forall|i: int|
            0 <= i < r.len() ==> (#[trigger] r@[i]).base_offer == bases@[i] && r@[i].offers
                == per_title@[i],
{
    let ghost bs = bases@;
    let ghost pts = per_title@;
    let mut bases = bases;
    let mut per_title = per_title;
    let mut titles: Vec<OwnedTitle> = Vec::new();
    while bases.len() > 0
        invariant
            bases.len() == per_title.len(),
            bases.len() <= bs.len(),
            bs.len() == pts.len(),
            bases@ == bs.take(bases.len() as int),
            per_title@ == pts.take(bases.len() as int),
            titles.len() == bs.len() - bases.len(),
            forall|i: int|
                0 <= i < titles.len() ==> (#[trigger] titles@[i]).base_offer == bs[bases.len()
                    + i] && titles@[i].offers == pts[bases.len() + i],
        decreases bases.len(),
    {
        let b = bases.pop().unwrap();
        let o = per_title.pop().unwrap();
        titles.insert(0, OwnedTitle { base_offer: b, offers: o });
    }
    titles
}

proof fn lemma_titles(
    orig: Seq<OwnedOffer>,
    bs: Seq<OwnedOffer>,
    pts: Seq<Vec<OwnedOffer>>,
    titles: Seq<OwnedTitle>,
)
    requires
        forall|j: int| 0 <= j < bs.len() ==> heads_from(orig, 0, #[trigger] bs[j]),
        covered(orig, 0, bs),
        titles.len() == bs.len(),
        bs.len() == pts.len(),
        forall|i: int|
            0 <= i < titles.len() ==> (#[trigger] titles[i]).base_offer == bs[i] && titles[i].offers
                == pts[i],
        forall|j: int|
            0 <= j < bs.len() ==> (#[trigger] pts[j])@ == orig.filter(is_full_addon()).filter(
                is_addon_of(bs[j].slug@),
            ),
    ensures
        forall|i: int| 0 <= i < titles.len() ==> heads_title(orig, #[trigger] titles[i].base_offer),
        forall|k: int|
            0 <= k < orig.len() && is_base_candidate(#[trigger] orig[k]) ==> exists|i: int|
                0 <= i < titles.len() && titles[i].base_offer.slug@ == orig[k].slug@,
        forall|i: int|
            0 <= i < titles.len() ==> (#[trigger] titles[i]).offers@ == orig.filter(
                is_addon_of(titles[i].base_offer.slug@),
            ),
{
    assert forall|i: int| 0 <= i < titles.len() implies (#[trigger] titles[i]).offers@
        == orig.filter(is_addon_of(titles[i].base_offer.slug@)) by {
        assert(titles[i].offers == pts[i]);
        assert(pts[i]@ == orig.filter(is_full_addon()).filter(is_addon_of(bs[i].slug@)));
        lemma_filter_of_filter(orig, is_full_addon(), is_addon_of(bs[i].slug@));
    }
    assert forall|i: int| 0 <= i < titles.len() implies heads_title(
        orig,
        #[trigger] titles[i].base_offer,
    ) by {
        assert(titles[i].base_offer == bs[i]);
        assert(heads_from(orig, 0, bs[i]));
    }
    assert forall|k: int| 0 <= k < orig.len() && is_base_candidate(#[trigger] orig[k]) implies exists|
        i: int,
    | 0 <= i < titles.len() && titles[i].base_offer.slug@ == orig[k].slug@ by {
        assert(covered(orig, 0, bs));
        let j = choose|j: int| 0 <= j < bs.len() && bs[j].slug@ == orig[k].slug@;
        assert(titles[j].base_offer == bs[j]);
    }
}

/// Groups owned offers into titles. Each full base game heads a title, the last one of a
/// slug winning; its extra offers are the full games that name it as their base game, in
/// their order. Titles come in no particular order.
pub fn group_offers(products: Vec<OwnedOffer>) -> (r: Vec<OwnedTitle>)
    ensures
        forall|i: int| 0 <= i < r.len() ==> heads_title(products@, #[trigger] r@[i].base_offer),
        forall|i: int, j: int|
            0 <= i < j < r.len() ==> r@[i].base_offer.slug@ != r@[j].base_offer.slug@,
        forall|k: int|
            0 <= k < products.len() && is_base_candidate(#[trigger] products@[k]) ==> exists|
                i: int,
            |
                0 <= i < r.len() && r@[i].base_offer.slug@ == products@[k].slug@,
        forall|i: int|
            0 <= i < r.len() ==> (#[trigger] r@[i]).offers@ == products@.filter(
                is_addon_of(r@[i].base_offer.slug@),
            ),
{
    let ghost orig = products@;
    let (bases, addons) = collect_bases(products);
    proof {
        assert forall|i: int| 0 <= i < addons.len() implies is_full_addon()(
            #[trigger] addons@[i],
        ) by {
            orig.lemma_filter_pred(is_full_addon(), i);
        }
    }
    let per_title = distribute_addons(&bases, addons);
    let ghost bs = bases@;
    let ghost pts = per_title@;
    let titles = zip_titles(bases, per_title);
    proof {
        lemma_titles(orig, bs, pts, titles@);
    }
    titles
}


/// Catalog definitions with the given offer id.
pub open spec fn defines(offer_id: Seq<char>) -> spec_fn(ServiceLegacyOffer) -> bool {
    |d: ServiceLegacyOffer| d.offer_id@ == offer_id
}

/// The owned offers of the products that have a catalog definition: each product with the
/// first definition of its offer id, under the product's game slug.
pub open spec fn owned_offers_spec(products: Seq<ServiceUserGameProduct>, defs: Seq<ServiceLegacyOffer>) -> Seq<OwnedOffer>
    decreases products.len(),
{
    if products.len() == 0 {
        Seq::empty()
    } else {
        let p = products.last();
        let rest = owned_offers_spec(products.drop_last(), defs);
        match first_index(defs, defines(p.origin_offer_id@)) {
            Some(i) => rest.push(OwnedOffer { slug: p.product.game_slug, product: p, offer: defs[i] }),
            None => rest,
        }
    }
}

fn find_def(defs: &Vec<ServiceLegacyOffer>, offer_id: &str) -> (r: Option<usize>)
    ensures
        match first_index(defs@, defines(offer_id@)) {
            Some(i) => r == Some(i as usize),
            None => r is None,
        },
{
    let ghost p = defines(offer_id@);
    let mut i: usize = 0;
    while i < defs.len()
        invariant
            i <= defs@.len(),
            p == defines(offer_id@),
            forall|j: int| 0 <= j < i ==> !p(#[trigger] defs@[j]),
        decreases defs@.len() - i,
    {
        if str_eq(defs[i].offer_id.as_str(), offer_id) {
            proof {
                lemma_first_index_found(defs@, p, i as int);
            }
            return Some(i);
        }
        i = i + 1;
    }
    proof {
        lemma_first_index_none(defs@, p);
    }
    None
}

/// Pairs owned products with their catalog definitions; products without one are left out.
pub fn owned_offers(products: Vec<ServiceUserGameProduct>, defs: &Vec<ServiceLegacyOffer>) -> (r:
    Vec<OwnedOffer>)
    ensures
        r@ == owned_offers_spec(products@, defs@),
{
    let ghost orig = products@;
    let mut products = products;
    let mut pieces: Vec<OwnedOffer> = Vec::new();
    let ghost mut done: Seq<OwnedOffer> = Seq::empty();
    while products.len() > 0
        invariant
            products.len() <= orig.len(),
            products@ == orig.take(products.len() as int),
            owned_offers_spec(orig, defs@) == owned_offers_spec(products@, defs@) + pieces@,
        decreases products.len(),
    {
        let ghost old_products = products@;
        let p = products.pop().unwrap();
        proof {
            assert(old_products.drop_last() =~= products@);
            assert(old_products.last() == p);
            crate::search::lemma_first_index_props(defs@, defines(p.origin_offer_id@));
        }
        let oid = p.origin_offer_id.as_str();
        assert(oid@ == p.origin_offer_id@);
        let found = find_def(defs, oid);
        match found {
            Some(i) => {
                assert(first_index(defs@, defines(oid@)) is Some);
                let ghost k = first_index(defs@, defines(oid@))->0;
                assert(0 <= k < defs.len());
                assert(i == k as usize);
                assert(i as int == k);
                let ghost before = pieces@;
                let offer = defs[i].clone();
                let slug = p.product.game_slug.clone();
                let ghost made = OwnedOffer { slug: p.product.game_slug, product: p, offer: defs@[i as int] };
                assert(first_index(defs@, defines(p.origin_offer_id@)) == Some(i as int));
                assert(owned_offers_spec(old_products, defs@) == owned_offers_spec(products@, defs@).push(made));
                pieces.insert(0, OwnedOffer { slug, product: p, offer });
                assert(pieces@ =~= seq![made] + before);
                assert(owned_offers_spec(products@, defs@).push(made) + before
                    =~= owned_offers_spec(products@, defs@) + pieces@);
            },
            None => {
                assert(owned_offers_spec(old_products, defs@) == owned_offers_spec(products@, defs@));
            },
        }
    }
    assert(products@ =~= Seq::<ServiceUserGameProduct>::empty());
    assert(owned_offers_spec(products@, defs@) + pieces@ =~= pieces@);
    pieces
}

/// Lexicographic order of character sequences, by code point.
pub open spec fn lex_le(a: Seq<char>, b: Seq<char>) -> bool
    decreases a.len(),
{
    if a.len() == 0 {
        true
    } else if b.len() == 0 {
        false
    } else if (a[0] as u32) < (b[0] as u32) {
        true
    } else if (a[0] as u32) > (b[0] as u32) {
        false
    } else {
        lex_le(a.drop_first(), b.drop_first())
    }
}

proof fn lemma_lex_total(a: Seq<char>, b: Seq<char>)
    ensures
        lex_le(a, b) || lex_le(b, a),
    decreases a.len(),
{
    if a.len() > 0 && b.len() > 0 && (a[0] as u32) == (b[0] as u32) {
        lemma_lex_total(a.drop_first(), b.drop_first());
    }
}

proof fn lemma_lex_trans(a: Seq<char>, b: Seq<char>, c: Seq<char>)
    requires
        lex_le(a, b),
        lex_le(b, c),
    ensures
        lex_le(a, c),
    decreases a.len(),
{
    if a.len() > 0 && b.len() > 0 && c.len() > 0 && (a[0] as u32) == (b[0] as u32) && (b[0] as u32)
        == (c[0] as u32) {
        lemma_lex_trans(a.drop_first(), b.drop_first(), c.drop_first());
    }
}

fn lex_le_exec(a: &str, b: &str) -> (r: bool)
    ensures
        r == lex_le(a@, b@),
{
    let n = a.unicode_len();
    let m = b.unicode_len();
    let mut i: usize = 0;
    assert(a@.skip(0) =~= a@);
    assert(b@.skip(0) =~= b@);
    while i < n && i < m
        invariant
            n == a@.len(),
            m == b@.len(),
            i <= n,
            i <= m,
            lex_le(a@, b@) == lex_le(a@.skip(i as int), b@.skip(i as int)),
        decreases n - i,
    {
        let x = a.get_char(i) as u32;
        let y = b.get_char(i) as u32;
        if x < y {
            return true;
        }
        if x > y {
            return false;
        }
        assert(a@.skip(i as int).drop_first() =~= a@.skip(i + 1));
        assert(b@.skip(i as int).drop_first() =~= b@.skip(i + 1));
        i = i + 1;
    }
    i == n
}

/// The key titles are listed by: their lower-cased name.
pub open spec fn sort_key(t: OwnedTitle) -> Seq<char> {
    lowercase(title_name(t))
}

/// Titles listed by their lower-cased names.
pub open spec fn sorted_by_name(ts: Seq<OwnedTitle>) -> bool {
    forall|i: int, j: int| 0 <= i < j < ts.len() ==> lex_le(sort_key(ts[i]), sort_key(ts[j]))
}

proof fn lemma_insert_sorted(ks: Seq<Seq<char>>, p: int, k: Seq<char>)
    requires
        0 <= p <= ks.len(),
        forall|i: int, j: int| 0 <= i < j < ks.len() ==> lex_le(ks[i], ks[j]),
        forall|j: int| 0 <= j < p ==> lex_le(ks[j], k),
        p < ks.len() ==> !lex_le(ks[p], k),
    ensures
        forall|i: int, j: int|
            0 <= i < j < ks.len() + 1 ==> lex_le(#[trigger] ks.insert(p, k)[i], #[trigger] ks.insert(p, k)[j]),
{
    let n = ks.insert(p, k);
    if p < ks.len() {
        lemma_lex_total(ks[p], k);
    }
    assert forall|i: int, j: int| 0 <= i < j < ks.len() + 1 implies lex_le(
        #[trigger] n[i],
        #[trigger] n[j],
    ) by {
        if i < p && j < p {
            assert(n[i] == ks[i] && n[j] == ks[j]);
        } else if i < p && j == p {
            assert(n[i] == ks[i] && n[j] == k);
        } else if i < p && j > p {
            assert(n[i] == ks[i] && n[j] == ks[j - 1]);
        } else if i == p {
            assert(n[i] == k && n[j] == ks[j - 1]);
            if j - 1 > p {
                lemma_lex_trans(k, ks[p], ks[j - 1]);
            }
        } else {
            assert(n[i] == ks[i - 1] && n[j] == ks[j - 1]);
        }
    }
}

/// `t` placed into `s` after every leading title whose key is not above its own: after
/// the titles of the same name when `s` is sorted.
pub open spec fn insert_by_name(s: Seq<OwnedTitle>, t: OwnedTitle) -> Seq<OwnedTitle>
    decreases s.len(),
{
    if s.len() == 0 {
        seq![t]
    } else if lex_le(sort_key(s[0]), sort_key(t)) {
        seq![s[0]] + insert_by_name(s.drop_first(), t)
    } else {
        seq![t] + s
    }
}

/// The titles stably sorted by lower-cased name: each taken in turn and placed after the
/// titles already placed that do not come after it, so titles of the same name keep
/// their order.
pub open spec fn sort_by_name_spec(ts: Seq<OwnedTitle>) -> Seq<OwnedTitle>
    decreases ts.len(),
{
    if ts.len() == 0 {
        Seq::empty()
    } else {
        insert_by_name(sort_by_name_spec(ts.drop_last()), ts.last())
    }
}

proof fn lemma_insert_by_name_at(s: Seq<OwnedTitle>, t: OwnedTitle, p: int)
    requires
        0 <= p <= s.len(),
        forall|j: int| 0 <= j < p ==> lex_le(sort_key(#[trigger] s[j]), sort_key(t)),
        p < s.len() ==> !lex_le(sort_key(s[p]), sort_key(t)),
    ensures
        insert_by_name(s, t) == s.insert(p, t),
    decreases p,
{
    if p == 0 {
        if s.len() > 0 {
            assert(seq![t] + s =~= s.insert(0, t));
        } else {
            assert(seq![t] =~= s.insert(0, t));
        }
    } else {
        let d = s.drop_first();
        assert forall|j: int| 0 <= j < p - 1 implies lex_le(sort_key(#[trigger] d[j]), sort_key(t)) by {
            assert(d[j] == s[j + 1]);
        }
        if p - 1 < d.len() {
            assert(d[p - 1] == s[p]);
        }
        lemma_insert_by_name_at(d, t, p - 1);
        assert(lex_le(sort_key(s[0]), sort_key(t)));
        assert(seq![s[0]] + d.insert(p - 1, t) =~= s.insert(p, t));
    }
}

/// Orders titles by their lower-cased names; titles of the same name keep their order.
pub fn sort_titles(titles: Vec<OwnedTitle>) -> (r: Vec<OwnedTitle>)
    ensures
        r@ == sort_by_name_spec(titles@),
        r@.to_multiset() == titles@.to_multiset(),
        sorted_by_name(r@),
{
    broadcast use vstd::multiset::group_multiset_axioms;
    broadcast use vstd::seq_lib::to_multiset_insert;

    let ghost orig = titles@;
    let mut rest = titles;
    let mut sorted: Vec<OwnedTitle> = Vec::new();
    let mut keys: Vec<String> = Vec::new();
    let ghost mut done: int = 0;
    assert(rest@.to_multiset().add(sorted@.to_multiset()) =~= orig.to_multiset()) by {
        assert(sorted@ =~= Seq::<OwnedTitle>::empty());
        assert(sorted@.to_multiset() =~= Multiset::<OwnedTitle>::empty()) by {
            sorted@.to_multiset_ensures();
        }
    }
    assert(orig.take(0) =~= Seq::<OwnedTitle>::empty());
    assert(orig.skip(0) =~= orig);
    while rest.len() > 0
        invariant
            0 <= done <= orig.len(),
            rest@ == orig.skip(done),
            sorted@ == sort_by_name_spec(orig.take(done)),
            sorted.len() == keys.len(),
            forall|i: int| 0 <= i < keys.len() ==> (#[trigger] keys@[i])@ == sort_key(sorted@[i]),
            forall|i: int, j: int| 0 <= i < j < keys.len() ==> lex_le(keys@[i]@, keys@[j]@),
            rest@.to_multiset().add(sorted@.to_multiset()) == orig.to_multiset(),
        decreases rest.len(),
    {
        let ghost old_rest = rest@;
        let ghost old_sorted = sorted@;
        let ghost ks = views(keys@);
        let ghost old_keys = keys@;
        let t = rest.remove(0);
        assert(old_rest =~= rest@.insert(0, t));
        assert(t == orig[done]);
        assert(rest@ =~= orig.skip(done + 1));
        let name = t.name();
        let key = str_to_lowercase(name.as_str());
        let mut p: usize = 0;
        while p < keys.len() && lex_le_exec(keys[p].as_str(), key.as_str())
            invariant
                p <= keys.len(),
                forall|j: int| 0 <= j < p ==> lex_le(keys@[j]@, key@),
            decreases keys.len() - p,
        {
            p = p + 1;
        }
        proof {
            assert(ks.len() == keys.len());
            assert forall|i: int, j: int| 0 <= i < j < ks.len() implies lex_le(ks[i], ks[j]) by {
                assert(ks[i] == keys@[i]@ && ks[j] == keys@[j]@);
            }
            assert forall|j: int| 0 <= j < p implies lex_le(ks[j], key@) by {
                assert(ks[j] == keys@[j]@);
            }
            if p < ks.len() {
                assert(ks[p as int] == keys@[p as int]@);
            }
            lemma_insert_sorted(ks, p as int, key@);
            assert forall|j: int| 0 <= j < p implies lex_le(sort_key(#[trigger] old_sorted[j]), sort_key(t)) by {
                assert(keys@[j]@ == sort_key(old_sorted[j]));
            }
            if p < old_sorted.len() {
                assert(keys@[p as int]@ == sort_key(old_sorted[p as int]));
            }
            lemma_insert_by_name_at(old_sorted, t, p as int);
            assert(orig.take(done + 1).drop_last() =~= orig.take(done));
            assert(orig.take(done + 1).last() == t);
        }
        let ghost kv = key@;
        sorted.insert(p, t);
        keys.insert(p, key);
        proof {
            done = done + 1;
            assert(views(keys@) =~= ks.insert(p as int, kv));
            assert forall|i: int, j: int| 0 <= i < j < keys.len() implies lex_le(
                keys@[i]@,
                keys@[j]@,
            ) by {
                assert(keys@[i]@ == ks.insert(p as int, kv)[i]);
                assert(keys@[j]@ == ks.insert(p as int, kv)[j]);
            }
            assert forall|i: int| 0 <= i < keys.len() implies (#[trigger] keys@[i])@ == sort_key(
                sorted@[i],
            ) by {
                if i < p {
                    assert(keys@[i] == old_keys[i]);
                }
            }
            assert(sorted@ == old_sorted.insert(p as int, t));
            vstd::seq_lib::to_multiset_insert(old_sorted, p as int, t);
            assert(sorted@.to_multiset() == old_sorted.to_multiset().insert(t));
            vstd::seq_lib::to_multiset_insert(rest@, 0, t);
            assert(old_rest.to_multiset() == rest@.to_multiset().insert(t));
            assert(rest@.to_multiset().add(sorted@.to_multiset()) =~= orig.to_multiset());
        }
    }
    assert(done == orig.len());
    assert(orig.take(done) =~= orig);
    assert(rest@ =~= Seq::<OwnedTitle>::empty());
    assert(rest@.to_multiset() =~= Multiset::<OwnedTitle>::empty()) by {
        rest@.to_multiset_ensures();
    }
    assert(sorted@.to_multiset() =~= orig.to_multiset());
    assert forall|i: int, j: int| 0 <= i < j < sorted.len() implies lex_le(
        sort_key(sorted@[i]),
        sort_key(sorted@[j]),
    ) by {
        assert(keys@[i]@ == sort_key(sorted@[i]));
        assert(keys@[j]@ == sort_key(sorted@[j]));
    }
    sorted
}


/// Why a library request failed.
#[derive(Debug, Clone, PartialEq)]
pub enum LibraryError {
    /// The offer (by slug) has no manifest.
    NoManifest(String),
    /// The offer (by slug) was not installed.
    NotInstalled(String),
    /// The offer's (by slug) execute path was not found.
    NoPath(String),
    /// The offer's (by slug) version info is unavailable.
    NoVersion(String),
    /// The offer's (by slug) path key names no path after a `]`.
    PathKey(String),
}

/// Where the launcher records that a game is installed, under its data directory.
pub fn game_info_path(maxima_dir: &str, slug: &str) -> (r: String)
    ensures
        r@ == path_join(path_join(maxima_dir@, "gameinfo"@), slug@ + ".json"@),
{
    let dir = crate::text::path_join_exec(maxima_dir, "gameinfo");
    let file = crate::text::concat(slug, ".json");
    crate::text::path_join_exec(dir.as_str(), file.as_str())
}

impl OwnedOffer {
    /// The executable of an installed offer: the manifest's execute path (`manifest` is
    /// `None` when there is no manifest), else the catalog's override, resolved under the
    /// install directory.
    pub fn execute_path(&self, manifest: Option<Option<&str>>, install_path: &str) -> (r: Result<
        String,
        LibraryError,
    >)
        ensures
            match manifest {
                None => r == Err::<String, LibraryError>(LibraryError::NoManifest(self.slug)),
                Some(m) => {
                    let key: Option<Seq<char>> = match m {
                        Some(p) => Some(p@),
                        None => match self.offer.execute_path_override {
                            Some(o) => Some(o@),
                            None => None,
                        },
                    };
                    match key {
                        None => r == Err::<String, LibraryError>(LibraryError::NoPath(self.slug)),
                        Some(k) => match after_last_bracket(k) {
                            Some(rel) => r matches Ok(p) && p@ == path_join(install_path@, rel),
                            None => r == Err::<String, LibraryError>(LibraryError::PathKey(self.slug)),
                        },
                    }
                },
            },
    {
        let m = match manifest {
            Some(m) => m,
            None => return Err(LibraryError::NoManifest(self.slug.clone())),
        };
        let key: &str = match m {
            Some(p) => p,
            None => match &self.offer.execute_path_override {
                Some(o) => o.as_str(),
                None => return Err(LibraryError::NoPath(self.slug.clone())),
            },
        };
        match registry_path(key, install_path) {
            Some(p) => Ok(p),
            None => Err(LibraryError::PathKey(self.slug.clone())),
        }
    }

    /// The file whose presence shows the offer installed: the catalog's install-check key
    /// resolved under the install directory; an error when the catalog has none.
    pub fn install_check_path(&self, install_path: &str) -> (r: Result<String, ManifestError>)
        requires
            self.offer.install_check_override matches Some(k) ==> after_last_bracket(k@) is Some,
        ensures
            match self.offer.install_check_override {
                None => r == Err::<String, ManifestError>(ManifestError::NoInstallPath(self.slug)),
                Some(k) => r matches Ok(p) && p@ == path_join(install_path@, after_last_bracket(k@)->0),
            },
    {
        let key = match &self.offer.install_check_override {
            Some(k) => k,
            None => return Err(ManifestError::NoInstallPath(self.slug.clone())),
        };
        match registry_path(key.as_str(), install_path) {
            Some(p) => Ok(p),
            None => Err(ManifestError::NoInstallPath(self.slug.clone())),
        }
    }

    /// The version of an installed offer, from its manifest (`manifest_version` is `None`
    /// when there is no manifest).
    pub fn installed_version(&self, installed: bool, manifest_version: Option<Option<String>>) -> (r:
        Result<String, LibraryError>)
        ensures
            !installed ==> r == Err::<String, LibraryError>(LibraryError::NotInstalled(self.slug)),
            installed && manifest_version is None ==> r == Err::<String, LibraryError>(
                LibraryError::NoManifest(self.slug),
            ),
            installed && manifest_version == Some(None::<String>) ==> r == Err::<String, LibraryError>(
                LibraryError::NoVersion(self.slug),
            ),
            installed && (manifest_version matches Some(Some(v))) ==> r == Ok::<String, LibraryError>(
                manifest_version->0->0,
            ),
    {
        if !installed {
            return Err(LibraryError::NotInstalled(self.slug.clone()));
        }
        match manifest_version {
            None => Err(LibraryError::NoManifest(self.slug.clone())),
            Some(None) => Err(LibraryError::NoVersion(self.slug.clone())),
            Some(Some(v)) => Ok(v),
        }
    }
}

/// Titles whose base offer has the given offer id.
pub open spec fn base_offer_is(offer_id: Seq<char>) -> spec_fn(OwnedTitle) -> bool {
    |t: OwnedTitle| t.base_offer.offer.offer_id@ == offer_id
}

/// Titles whose base product has the given game slug.
pub open spec fn base_slug_is(slug: Seq<char>) -> spec_fn(OwnedTitle) -> bool {
    |t: OwnedTitle| t.base_offer.product.product.game_slug@ == slug
}

/// `titles` are the titles of `offers`: each headed by an offer that heads a title, one per
/// slug, every full base game heading one, each with the full games that name it.
pub open spec fn grouped(titles: Seq<OwnedTitle>, offers: Seq<OwnedOffer>) -> bool {
    &&& forall|i: int| 0 <= i < titles.len() ==> heads_title(offers, #[trigger] titles[i].base_offer)
    &&& forall|i: int, j: int| 0 <= i < j < titles.len() ==> titles[i].base_offer.slug@ != titles[j].base_offer.slug@
    &&& forall|k: int| 0 <= k < offers.len() && is_base_candidate(#[trigger] offers[k]) ==> exists|i: int| 0 <= i < titles.len() && titles[i].base_offer.slug@ == offers[k].slug@
    &&& forall|i: int| 0 <= i < titles.len() ==> (#[trigger] titles[i]).offers@ == offers.filter(is_addon_of(titles[i].base_offer.slug@))
}

proof fn lemma_owned_offer_slugs(products: Seq<ServiceUserGameProduct>, defs: Seq<ServiceLegacyOffer>)
    ensures
        forall|i: int| 0 <= i < owned_offers_spec(products, defs).len() ==> (#[trigger] owned_offers_spec(products, defs)[i]).slug
            == owned_offers_spec(products, defs)[i].product.product.game_slug,
    decreases products.len(),
{
    if products.len() > 0 {
        lemma_owned_offer_slugs(products.drop_last(), defs);
    }
}

/// How long the owned games stay fresh, in seconds.
pub const LIBRARY_REFRESH_SECS: u64 = 1200;

/// The owned games, sorted by name, and when they were last requested.
pub struct GameLibrary {
    pub library: Vec<OwnedTitle>,
    pub last_request: u64,
}

impl GameLibrary {
    pub fn new() -> (r: Self)
        ensures
            r.library@ == Seq::<OwnedTitle>::empty(),
            r.last_request == 0,
    {
        GameLibrary { library: Vec::new(), last_request: 0 }
    }

    /// Whether the games must be requested again at time `now` (seconds since the epoch).
    pub fn needs_update(&self, now: u64) -> (r: bool)
        requires
            now >= self.last_request,
        ensures
            r == (now - self.last_request > LIBRARY_REFRESH_SECS),
    {
        now - self.last_request > LIBRARY_REFRESH_SECS
    }

    /// Takes a fresh answer of the service: the owned products with their catalog
    /// definitions, grouped into titles and sorted by name.
    pub fn update(&mut self, products: Vec<ServiceUserGameProduct>, defs: &Vec<ServiceLegacyOffer>, now: u64)
        ensures
            final(self).last_request == now,
            sorted_by_name(final(self).library@),
            grouped(final(self).library@, owned_offers_spec(products@, defs@)),
    {
        let offers = owned_offers(products, defs);
        let ghost os = offers@;
        let titles = group_offers(offers);
        let ghost ts = titles@;
        let sorted = sort_titles(titles);
        proof {
            broadcast use vstd::seq_lib::group_to_multiset_ensures;
            broadcast use vstd::multiset::group_multiset_axioms;

            let ss = sorted@;
            assert(ts.no_duplicates()) by {
                assert forall|i: int, j: int| 0 <= i < ts.len() && 0 <= j < ts.len() && i != j implies ts[i] != ts[j] by {
                    if i < j {
                        assert(ts[i].base_offer.slug@ != ts[j].base_offer.slug@);
                    } else {
                        assert(ts[j].base_offer.slug@ != ts[i].base_offer.slug@);
                    }
                }
            }
            ts.lemma_multiset_has_no_duplicates();
            ss.lemma_multiset_has_no_duplicates_conv();
            assert forall|i: int| 0 <= i < ss.len() implies exists|j: int| 0 <= j < ts.len() && #[trigger] ts[j] == #[trigger] ss[i] by {
                assert(ss.contains(ss[i]));
                assert(ss.to_multiset().count(ss[i]) > 0);
                assert(ts.contains(ss[i]));
            }
            assert forall|i: int| 0 <= i < ss.len() implies heads_title(os, #[trigger] ss[i].base_offer) by {
                let a = choose|a: int| 0 <= a < ts.len() && ts[a] == ss[i];
                assert(heads_title(os, ts[a].base_offer));
            }
            assert forall|i: int| 0 <= i < ss.len() implies (#[trigger] ss[i]).offers@ == os.filter(is_addon_of(ss[i].base_offer.slug@)) by {
                let a = choose|a: int| 0 <= a < ts.len() && ts[a] == ss[i];
                assert(ts[a].offers@ == os.filter(is_addon_of(ts[a].base_offer.slug@)));
            }
            assert forall|i: int, j: int| 0 <= i < j < ss.len() implies ss[i].base_offer.slug@ != ss[j].base_offer.slug@ by {
                let a = choose|a: int| 0 <= a < ts.len() && ts[a] == ss[i];
                let b = choose|b: int| 0 <= b < ts.len() && ts[b] == ss[j];
                assert(ss[i] != ss[j]);
                assert(a != b);
                if a < b {
                    assert(ts[a].base_offer.slug@ != ts[b].base_offer.slug@);
                } else {
                    assert(ts[b].base_offer.slug@ != ts[a].base_offer.slug@);
                }
            }
            assert forall|k: int| 0 <= k < os.len() && is_base_candidate(#[trigger] os[k]) implies exists|i: int| 0 <= i < ss.len() && ss[i].base_offer.slug@ == os[k].slug@ by {
                let a = choose|a: int| 0 <= a < ts.len() && ts[a].base_offer.slug@ == os[k].slug@;
                assert(ts.contains(ts[a]));
                assert(ts.to_multiset().count(ts[a]) > 0);
                assert(ss.contains(ts[a]));
                let i = choose|i: int| 0 <= i < ss.len() && ss[i] == ts[a];
                assert(ss[i].base_offer.slug@ == os[k].slug@);
            }
        }
        self.library = sorted;
        self.last_request = now;
    }

    /// The title whose base offer has the given id.
    pub fn title_by_base_offer(&self, offer_id: &str) -> (r: Option<&OwnedTitle>)
        ensures
            match first_index(self.library@, base_offer_is(offer_id@)) {
                Some(i) => r == Some(&self.library@[i]),
                None => r is None,
            },
    {
        let ghost p = base_offer_is(offer_id@);
        let mut i: usize = 0;
        while i < self.library.len()
            invariant
                i <= self.library@.len(),
                p == base_offer_is(offer_id@),
                forall|j: int| 0 <= j < i ==> !p(#[trigger] self.library@[j]),
            decreases self.library@.len() - i,
        {
            if str_eq(self.library[i].base_offer.offer.offer_id.as_str(), offer_id) {
                proof {
                    lemma_first_index_found(self.library@, p, i as int);
                }
                return Some(&self.library[i]);
            }
            i = i + 1;
        }
        proof {
            lemma_first_index_none(self.library@, p);
        }
        None
    }

    /// The base offer of the title with the given base offer id.
    pub fn game_by_base_offer(&self, offer_id: &str) -> (r: Option<&OwnedOffer>)
        ensures
            match first_index(self.library@, base_offer_is(offer_id@)) {
                Some(i) => r == Some(&self.library@[i].base_offer),
                None => r is None,
            },
    {
        match self.title_by_base_offer(offer_id) {
            Some(t) => Some(&t.base_offer),
            None => None,
        }
    }

    /// The base offer of the title whose base game has the given slug.
    pub fn game_by_base_slug(&self, slug: &str) -> (r: Option<&OwnedOffer>)
        ensures
            match first_index(self.library@, base_slug_is(slug@)) {
                Some(i) => r == Some(&self.library@[i].base_offer),
                None => r is None,
            },
    {
        let ghost p = base_slug_is(slug@);
        let mut i: usize = 0;
        while i < self.library.len()
            invariant
                i <= self.library@.len(),
                p == base_slug_is(slug@),
                forall|j: int| 0 <= j < i ==> !p(#[trigger] self.library@[j]),
            decreases self.library@.len() - i,
        {
            if str_eq(self.library[i].base_offer.product.product.game_slug.as_str(), slug) {
                proof {
                    lemma_first_index_found(self.library@, p, i as int);
                }
                return Some(&self.library[i].base_offer);
            }
            i = i + 1;
        }
        proof {
            lemma_first_index_none(self.library@, p);
        }
        None
    }
}
/// After the owned games are taken in, every owned full base game is found by its game
/// slug, and the title found is headed by a full base game of that slug.
pub proof fn lemma_owned_game_found(
    products: Seq<ServiceUserGameProduct>,
    defs: Seq<ServiceLegacyOffer>,
    library: Seq<OwnedTitle>,
    k: int,
)
    requires
        grouped(library, owned_offers_spec(products, defs)),
        0 <= k < owned_offers_spec(products, defs).len(),
        is_base_candidate(owned_offers_spec(products, defs)[k]),
    ensures
        first_index(library, base_slug_is(owned_offers_spec(products, defs)[k].slug@)) matches Some(i)
            && is_base_candidate(library[i].base_offer) && library[i].base_offer.slug@
            == owned_offers_spec(products, defs)[k].slug@,
{
    let offers = owned_offers_spec(products, defs);
    let slug = offers[k].slug@;
    let p = base_slug_is(slug);
    lemma_owned_offer_slugs(products, defs);
    let i = choose|i: int| 0 <= i < library.len() && library[i].base_offer.slug@ == slug;
    assert(heads_title(offers, library[i].base_offer));
    let kk = choose|kk: int| #![trigger is_last_base_candidate(offers, kk)] is_last_base_candidate(offers, kk) && offers[kk] == library[i].base_offer;
    assert(offers[kk].slug == offers[kk].product.product.game_slug);
    assert(p(library[i]));
    lemma_first_index_props(library, p);
    match first_index(library, p) {
        Some(j) => {
            assert(p(library[j]));
            assert(heads_title(offers, library[j].base_offer));
            let kj = choose|kj: int| #![trigger is_last_base_candidate(offers, kj)] is_last_base_candidate(offers, kj) && offers[kj] == library[j].base_offer;
            assert(offers[kj].slug == offers[kj].product.product.game_slug);
            if library[j].base_offer.slug@ != slug {
                assert(j != i);
                if j < i {
                    assert(library[j].base_offer.slug@ != library[i].base_offer.slug@);
                } else {
                    assert(library[i].base_offer.slug@ != library[j].base_offer.slug@);
                }
            }
        },
        None => {
            assert(!p(library[i]));
        },
    }
}

} // verus!
