//! The cart snapshot that an evaluation reads, and its mathematical view.

use vstd::prelude::*;

verus! {

/// A record saying whether a product belongs to a collection. A record with
/// `is_member == false` may be present and then counts as "not a member".
#[derive(Clone, Debug, PartialEq, Eq)]
pub struct CollectionMembership {
    pub collection_id: String,
    pub is_member: bool,
}

pub struct MembershipView {
    pub collection_id: Seq<char>,
    pub is_member: bool,
}

impl View for CollectionMembership {
    type V = MembershipView;

    open spec fn view(&self) -> MembershipView {
        MembershipView { collection_id: self.collection_id@, is_member: self.is_member }
    }
}

/// One entry of a product's discount schedule: the rate, in hundredths of a
/// percent, that the product advertises for a collection.
#[derive(Clone, Debug, PartialEq, Eq)]
pub struct CollectionDiscount {
    pub collection_id: String,
    pub rate: u64,
}

pub struct CollectionDiscountView {
    pub collection_id: Seq<char>,
    pub rate: u64,
}

impl View for CollectionDiscount {
    type V = CollectionDiscountView;

    open spec fn view(&self) -> CollectionDiscountView {
        CollectionDiscountView { collection_id: self.collection_id@, rate: self.rate }
    }
}

/// The outcome of reading an optional structured payload: it was not there,
/// it was there but did not have the expected structure, or it was read.
#[derive(Clone, Debug, PartialEq, Eq)]
pub enum Payload<T> {
    Absent,
    Malformed,
    Parsed(T),
}

pub enum ScheduleView {
    Absent,
    Malformed,
    Parsed(Seq<CollectionDiscountView>),
}

/// The views of the entries of a discount schedule, in order.
pub open spec fn entries_view(entries: Seq<CollectionDiscount>) -> Seq<CollectionDiscountView> {
    entries.map_values(|entry: CollectionDiscount| entry@)
}

/// The view of a product's discount schedule.
pub open spec fn schedule_view(schedule: Payload<Vec<CollectionDiscount>>) -> ScheduleView {
    match schedule {
        Payload::Absent => ScheduleView::Absent,
        Payload::Malformed => ScheduleView::Malformed,
        Payload::Parsed(entries) => ScheduleView::Parsed(entries_view(entries@)),
    }
}

#[derive(Clone, Debug, PartialEq, Eq)]
pub struct Product {
    pub in_collections: Vec<CollectionMembership>,
    pub schedule: Payload<Vec<CollectionDiscount>>,
}

pub struct ProductView {
    pub in_collections: Seq<MembershipView>,
    pub schedule: ScheduleView,
}

impl View for Product {
    type V = ProductView;

    open spec fn view(&self) -> ProductView {
        ProductView {
            in_collections: self.in_collections@.map_values(|m: CollectionMembership| m@),
            schedule: schedule_view(self.schedule),
        }
    }
}

#[derive(Clone, Debug, PartialEq, Eq)]
pub struct ProductVariant {
    pub id: String,
    pub product: Product,
}

pub struct ProductVariantView {
    pub id: Seq<char>,
    pub product: ProductView,
}

impl View for ProductVariant {
    type V = ProductVariantView;

    open spec fn view(&self) -> ProductVariantView {
        ProductVariantView { id: self.id@, product: self.product@ }
    }
}

/// What a cart line sells. Only a product variant carries data that a
/// discount rule reads.
#[derive(Clone, Debug, PartialEq, Eq)]
pub enum Merchandise {
    ProductVariant(ProductVariant),
    Other,
}

pub enum MerchandiseView {
    ProductVariant(ProductVariantView),
    Other,
}

impl View for Merchandise {
    type V = MerchandiseView;

    open spec fn view(&self) -> MerchandiseView {
        match *self {
            Merchandise::ProductVariant(variant) => MerchandiseView::ProductVariant(variant@),
            Merchandise::Other => MerchandiseView::Other,
        }
    }
}

/// One entry of the cart: `quantity` units at `unit_cost` hundredths of the
/// currency unit each.
#[derive(Clone, Debug, PartialEq, Eq)]
pub struct CartLine {
    pub id: String,
    pub quantity: u64,
    pub unit_cost: u64,
    pub merchandise: Merchandise,
}

pub struct CartLineView {
    pub id: Seq<char>,
    pub quantity: u64,
    pub unit_cost: u64,
    pub merchandise: MerchandiseView,
}

impl View for CartLine {
    type V = CartLineView;

    open spec fn view(&self) -> CartLineView {
        CartLineView {
            id: self.id@,
            quantity: self.quantity,
            unit_cost: self.unit_cost,
            merchandise: self.merchandise@,
        }
    }
}

/// The view of a whole cart: the views of its lines, in order.
pub open spec fn cart_view(lines: Seq<CartLine>) -> Seq<CartLineView> {
    lines.map_values(|line: CartLine| line@)
}

/// The views of a list of collection identifiers, in order.
pub open spec fn ids_view(ids: Seq<String>) -> Seq<Seq<char>> {
    ids.map_values(|id: String| id@)
}

impl ProductView {
    /// Some record names `collection` with the membership flag set.
    pub open spec fn is_member_of(self, collection: Seq<char>) -> bool {
        exists|j: int|
            0 <= j < self.in_collections.len() && {
                &&& (#[trigger] self.in_collections[j]).collection_id == collection
                &&& self.in_collections[j].is_member
            }
    }

    /// Some record names `collection`, whatever its membership flag says.
    pub open spec fn has_record_of(self, collection: Seq<char>) -> bool {
        exists|j: int|
            0 <= j < self.in_collections.len() && (
            #[trigger] self.in_collections[j]).collection_id == collection
    }

    /// Some record with the membership flag set names one of `collections`.
    pub open spec fn is_member_of_any(self, collections: Seq<Seq<char>>) -> bool {
        exists|j: int|
            0 <= j < self.in_collections.len() && {
                &&& (#[trigger] self.in_collections[j]).is_member
                &&& collections.contains(self.in_collections[j].collection_id)
            }
    }
}

/// Whether `ids` holds `id`.
pub fn contains_id(ids: &Vec<String>, id: &String) -> (found: bool)
    ensures
        found == ids_view(ids@).contains(id@),
{
    let mut k: usize = 0;
    while k < ids.len()
        invariant
            k <= ids.len(),
            forall|i: int| 0 <= i < k ==> ids_view(ids@)[i] != id@,
        decreases ids.len() - k,
    {
        if ids[k] == *id {
            assert(ids_view(ids@)[k as int] == id@);
            return true;
        }
        k += 1;
    }
    false
}

impl Product {
    /// Whether some record names `collection` with the membership flag set.
    pub fn is_member_of(&self, collection: &String) -> (found: bool)
        ensures
            found == self@.is_member_of(collection@),
    {
        let mut j: usize = 0;
        while j < self.in_collections.len()
            invariant
                j <= self.in_collections.len(),
                forall|i: int|
                    0 <= i < j ==> !({
                        &&& (#[trigger] self@.in_collections[i]).collection_id == collection@
                        &&& self@.in_collections[i].is_member
                    }),
            decreases self.in_collections.len() - j,
        {
            let record = &self.in_collections[j];
            if record.is_member && record.collection_id == *collection {
                assert(self@.in_collections[j as int] == record@);
                return true;
            }
            j += 1;
        }
        false
    }

    /// Whether some record names `collection`, whatever its flag says.
    pub fn has_record_of(&self, collection: &String) -> (found: bool)
        ensures
            found == self@.has_record_of(collection@),
    {
        let mut j: usize = 0;
        while j < self.in_collections.len()
            invariant
                j <= self.in_collections.len(),
                forall|i: int|
                    0 <= i < j ==> (#[trigger] self@.in_collections[i]).collection_id
                        != collection@,
            decreases self.in_collections.len() - j,
        {
            if self.in_collections[j].collection_id == *collection {
                assert(self@.in_collections[j as int] == self.in_collections[j as int]@);
                return true;
            }
            j += 1;
        }
        false
    }

    /// Whether some record with the membership flag set names one of
    /// `collections`.
    pub fn is_member_of_any(&self, collections: &Vec<String>) -> (found: bool)
        ensures
            found == self@.is_member_of_any(ids_view(collections@)),
    {
        let mut j: usize = 0;
        while j < self.in_collections.len()
            invariant
                j <= self.in_collections.len(),
                forall|i: int|
                    0 <= i < j ==> !({
                        &&& (#[trigger] self@.in_collections[i]).is_member
                        &&& ids_view(collections@).contains(
                            self@.in_collections[i].collection_id,
                        )
                    }),
            decreases self.in_collections.len() - j,
        {
            let record = &self.in_collections[j];
            if record.is_member && contains_id(collections, &record.collection_id) {
                assert(self@.in_collections[j as int] == record@);
                return true;
            }
            j += 1;
        }
        false
    }
}

} // verus!
