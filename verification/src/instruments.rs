//! The instrument marketplace.

use crate::page::{
    belongs_to_page, lemma_listing_start, lemma_listing_step, listing, reported_total, total_of,
};
use crate::sessions::{short_id, short_id_at};
use crate::store::{Store, StoreView};
use crate::table::values;
use crate::text::{contains_ignoring_case, contains_lowered, lowercase, lowercased};
use crate::types::{Instrument, InstrumentView};
use vstd::prelude::*;

verus! {

/// Whether an instrument is listed for a needle that its name holds if
/// `name_hit` and that its location holds if `location_hit`.
pub open spec fn instrument_listed_if(name_hit: bool, location_hit: bool) -> bool {
    name_hit || location_hit
}

/// Whether `needle` occurs in the name or in the location of the listing,
/// letter case aside, as a function value.
pub open spec fn instrument_filter(needle: Seq<char>) -> spec_fn(InstrumentView) -> bool {
    |i: InstrumentView|
        instrument_listed_if(
            contains_ignoring_case(i.name, needle),
            contains_ignoring_case(i.location, needle),
        )
}

/// Whether the listing `id` is an offer of `seller`.
pub open spec fn sells(instruments: Map<u32, InstrumentView>, id: u32, seller: Seq<char>) -> bool {
    instruments.contains_key(id) && instruments[id].seller_principal == seller
}

/// A listing as it is, as a function value.
pub open spec fn show_instrument() -> spec_fn(InstrumentView) -> InstrumentView {
    |i: InstrumentView| i
}

/// Whether an instrument is listed for a needle that its name holds if
/// `name_hit` and that its location holds if `location_hit`.
pub fn instrument_listed(name_hit: bool, location_hit: bool) -> (r: bool)
    ensures
        r == instrument_listed_if(name_hit, location_hit),
{
    name_hit || location_hit
}

/// One page, of fifteen, of the instruments whose name or location holds
/// `sub_name`, in the order of their ids, with the number of all such
/// instruments.
pub fn get_instruments(store: &Store, sub_name: &str, page_num: i32) -> (r: (Vec<Instrument>, i32))
    ensures
        r.0.deep_view() == listing(
            values(store@.instruments),
            instrument_filter(sub_name@),
            show_instrument(),
            page_num as int,
            15,
        ),
        r.1 == reported_total(
            values(store@.instruments).filter(instrument_filter(sub_name@)).len() as int,
        ),
{
    let needle = lowercase(sub_name);
    let ghost all = values(store@.instruments);
    let ghost keep = instrument_filter(sub_name@);
    let mut out: Vec<Instrument> = Vec::new();
    let mut count: usize = 0;
    let n = store.instruments.len();
    let mut i: usize = 0;
    proof {
        lemma_listing_start(all, keep, show_instrument(), page_num as int, 15);
        assert(out.deep_view() =~= Seq::<InstrumentView>::empty());
    }
    while i < n
        invariant
            i <= n,
            n == store@.instruments.len(),
            all == values(store@.instruments),
            keep == instrument_filter(sub_name@),
            needle@ == lowercased(sub_name@),
            count == all.take(i as int).filter(keep).len(),
            count <= i,
            out.deep_view() == listing(
                all.take(i as int),
                keep,
                show_instrument(),
                page_num as int,
                15,
            ),
        decreases n - i,
    {
        let instrument = store.instruments.value_at(i);
        proof {
            lemma_listing_step(all, keep, show_instrument(), i as int, page_num as int, 15);
            assert(all[i as int] == instrument@);
        }
        let name_hit = contains_lowered(instrument.name.as_str(), needle.as_str());
        let location_hit = contains_lowered(instrument.location.as_str(), needle.as_str());
        if instrument_listed(name_hit, location_hit) {
            if belongs_to_page(count, page_num, 15) {
                let ghost before = out.deep_view();
                out.push(instrument.clone());
                assert(out.deep_view() =~= before.push(instrument@));
            }
            count += 1;
        }
        i += 1;
    }
    assert(all.take(n as int) =~= all);
    (out, total_of(count))
}

/// Offers an instrument at the time `now`, under the id that `now` gives. A
/// listing that had this id is replaced.
pub fn add_instrument(
    store: &mut Store,
    now: u64,
    seller_principal: String,
    buyer_principal: String,
    username: String,
    name: String,
    location: String,
    product: String,
    comment: String,
    price: String,
    photos: Vec<Vec<u8>>,
) -> (r: bool)
    requires
        old(store).wf(),
    ensures
        final(store).wf(),
        r,
        final(store)@.instrument_map() == old(store)@.instrument_map().insert(
            short_id(now),
            (InstrumentView {
                id: short_id(now),
                seller_principal: seller_principal@,
                buyer_principal: buyer_principal@,
                username: username@,
                name: name@,
                location: location@,
                product: product@,
                comment: comment@,
                price: price@,
                photos: photos.deep_view(),
            }),
        ),
        final(store)@ == (StoreView { instruments: final(store)@.instruments, ..old(store)@ }),
{
    let id = short_id_at(now);
    let instrument = Instrument {
        id,
        seller_principal,
        buyer_principal,
        username,
        name,
        location,
        product,
        comment,
        price,
        photos,
    };
    let ghost written = instrument@;
    store.instruments.insert(id, instrument);
    proof {
        old(store)@.lemma_put_instrument(store@, id, written);
    }
    true
}

/// Takes the listing `id` off the market, which only its seller can do.
/// Nothing happens, and the answer is `false`, where there is no such listing
/// or it is somebody else's.
pub fn delete_instrument(store: &mut Store, id: u32, seller_principal: String) -> (r: bool)
    requires
        old(store).wf(),
    ensures
        final(store).wf(),
        r == sells(old(store)@.instrument_map(), id, seller_principal@),
        r ==> final(store)@.instrument_map() == old(store)@.instrument_map().remove(id),
        !r ==> final(store)@.instrument_map() == old(store)@.instrument_map(),
        final(store)@ == (StoreView { instruments: final(store)@.instruments, ..old(store)@ }),
{
    let at = match store.instruments.find(&id) {
        Some(at) => at,
        None => {
            return false;
        },
    };
    if store.instruments.value_at(at).seller_principal != seller_principal {
        return false;
    }
    store.instruments.remove_at(at);
    proof {
        old(store)@.lemma_cut_instrument(store@, id);
    }
    true
}

} // verus!
