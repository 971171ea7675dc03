//! Stock counters: one group of counters for each product, one counter for
//! each size.

use vstd::prelude::*;
use crate::catalog::Size;

verus! {

/// The stock of one product: one counter for each size.
#[derive(Clone, Copy, Debug, PartialEq, Eq, Structural)]
pub struct SizeGroup {
    pub id: i32,
    pub product_id: Option<i32>,
    pub single_size: i32,
    pub s: i32,
    pub m: i32,
    pub l: i32,
    pub xl: i32,
    pub xxl: i32,
}

impl SizeGroup {
    /// The units in stock of one size.
    pub open spec fn spec_counter(self, size: Size) -> i32 {
        match size {
            Size::Single => self.single_size,
            Size::S => self.s,
            Size::M => self.m,
            Size::L => self.l,
            Size::XL => self.xl,
            Size::XXL => self.xxl,
        }
    }

    /// This group with one counter set to `units` and the others as they are.
    pub open spec fn spec_with_counter(self, size: Size, units: i32) -> SizeGroup {
        match size {
            Size::Single => SizeGroup { single_size: units, ..self },
            Size::S => SizeGroup { s: units, ..self },
            Size::M => SizeGroup { m: units, ..self },
            Size::L => SizeGroup { l: units, ..self },
            Size::XL => SizeGroup { xl: units, ..self },
            Size::XXL => SizeGroup { xxl: units, ..self },
        }
    }

    /// No counter is below zero.
    pub open spec fn in_stock_range(self) -> bool {
        &&& self.single_size >= 0
        &&& self.s >= 0
        &&& self.m >= 0
        &&& self.l >= 0
        &&& self.xl >= 0
        &&& self.xxl >= 0
    }

    /// A group that holds no units of any size.
    pub fn empty(id: i32, product_id: Option<i32>) -> (r: SizeGroup)
        ensures
            r == (SizeGroup { id, product_id, single_size: 0, s: 0, m: 0, l: 0, xl: 0, xxl: 0 }),
            r.in_stock_range(),
    {
        SizeGroup { id, product_id, single_size: 0, s: 0, m: 0, l: 0, xl: 0, xxl: 0 }
    }

    #[verifier::when_used_as_spec(spec_counter)]
    pub fn counter(self, size: Size) -> (r: i32)
        ensures
            r == self.spec_counter(size),
    {
        match size {
            Size::Single => self.single_size,
            Size::S => self.s,
            Size::M => self.m,
            Size::L => self.l,
            Size::XL => self.xl,
            Size::XXL => self.xxl,
        }
    }

    #[verifier::when_used_as_spec(spec_with_counter)]
    pub fn with_counter(self, size: Size, units: i32) -> (r: SizeGroup)
        ensures
            r == self.spec_with_counter(size, units),
    {
        let mut group = self;
        match size {
            Size::Single => { group.single_size = units; }
            Size::S => { group.s = units; }
            Size::M => { group.m = units; }
            Size::L => { group.l = units; }
            Size::XL => { group.xl = units; }
            Size::XXL => { group.xxl = units; }
        }
        group
    }

    /// Whether no counter is below zero.
    pub fn is_in_stock_range(&self) -> (r: bool)
        ensures
            r == self.in_stock_range(),
    {
        self.single_size >= 0 && self.s >= 0 && self.m >= 0 && self.l >= 0 && self.xl >= 0
            && self.xxl >= 0
    }

    /// Setting a counter changes that counter and no other; the group keeps
    /// its id and its product.
    pub proof fn law_with_counter(self, size: Size, units: i32, other: Size)
        ensures
            self.spec_with_counter(size, units).spec_counter(size) == units,
            other != size ==> self.spec_with_counter(size, units).spec_counter(other)
                == self.spec_counter(other),
            self.spec_with_counter(size, units).id == self.id,
            self.spec_with_counter(size, units).product_id == self.product_id,
            self.in_stock_range() && units >= 0 ==> self.spec_with_counter(
                size,
                units,
            ).in_stock_range(),
    {
    }
}

} // verus!
