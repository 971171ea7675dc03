//! What the catalog holds: products, categories and the sizes they come in.

use vstd::prelude::*;
use crate::text::clone_text;

verus! {

/// The sizes in which a product may be stocked. A product that comes in one
/// size only is stocked under `Single`.
#[derive(Clone, Copy, Debug, PartialEq, Eq, Structural)]
pub enum Size {
    Single,
    S,
    M,
    L,
    XL,
    XXL,
}

impl Size {
    /// The label under which a size is written in carts and order lines.
    pub open spec fn spec_label(self) -> Seq<char> {
        match self {
            Size::Single => "single"@,
            Size::S => "S"@,
            Size::M => "M"@,
            Size::L => "L"@,
            Size::XL => "XL"@,
            Size::XXL => "XXL"@,
        }
    }

    /// The size that a label names, if it names one.
    pub open spec fn spec_from_label(label: Seq<char>) -> Option<Size> {
        if label == "single"@ {
            Some(Size::Single)
        } else if label == "S"@ {
            Some(Size::S)
        } else if label == "M"@ {
            Some(Size::M)
        } else if label == "L"@ {
            Some(Size::L)
        } else if label == "XL"@ {
            Some(Size::XL)
        } else if label == "XXL"@ {
            Some(Size::XXL)
        } else {
            None
        }
    }

    pub fn label(self) -> (r: &'static str)
        ensures
            r@ == self.spec_label(),
    {
        match self {
            Size::Single => "single",
            Size::S => "S",
            Size::M => "M",
            Size::L => "L",
            Size::XL => "XL",
            Size::XXL => "XXL",
        }
    }

    pub fn from_label(label: &str) -> (r: Option<Size>)
        ensures
            r == Size::spec_from_label(label@),
    {
        let given = label.to_owned();
        if given == "single".to_owned() {
            Some(Size::Single)
        } else if given == "S".to_owned() {
            Some(Size::S)
        } else if given == "M".to_owned() {
            Some(Size::M)
        } else if given == "L".to_owned() {
            Some(Size::L)
        } else if given == "XL".to_owned() {
            Some(Size::XL)
        } else if given == "XXL".to_owned() {
            Some(Size::XXL)
        } else {
            None
        }
    }

    /// Reading a size's own label gives the size back.
    pub proof fn law_label_round_trip(size: Size)
        ensures
            Size::spec_from_label(size.spec_label()) == Some(size),
    {
        reveal_strlit("single");
        reveal_strlit("S");
        reveal_strlit("M");
        reveal_strlit("L");
        reveal_strlit("XL");
        reveal_strlit("XXL");
        assert("single"@.len() == 6);
        assert("S"@.len() == 1);
        assert("M"@.len() == 1);
        assert("L"@.len() == 1);
        assert("XL"@.len() == 2);
        assert("XXL"@.len() == 3);
        assert("S"@[0] == 'S');
        assert("M"@[0] == 'M');
        assert("L"@[0] == 'L');
    }
}

/// What a catalog record says of a product. The price is an amount in minor
/// units.
#[derive(Debug, PartialEq, Eq)]
pub struct Product {
    pub name: String,
    pub description: Option<String>,
    pub primary_image_id: Option<i32>,
    pub price: i32,
    pub stock_quantity: Option<i32>,
    pub size_id: Option<i32>,
    pub category_id: Option<i32>,
}

impl Clone for Product {
    fn clone(&self) -> (r: Self)
        ensures
            r == *self,
    {
        Product {
            name: self.name.clone(),
            description: clone_text(&self.description),
            primary_image_id: self.primary_image_id,
            price: self.price,
            stock_quantity: self.stock_quantity,
            size_id: self.size_id,
            category_id: self.category_id,
        }
    }
}

/// A product as the catalog holds it, under its id.
#[derive(Debug, PartialEq, Eq)]
pub struct CatalogEntry {
    pub id: i32,
    pub product: Product,
}

impl Clone for CatalogEntry {
    fn clone(&self) -> (r: Self)
        ensures
            r == *self,
    {
        CatalogEntry { id: self.id, product: self.product.clone() }
    }
}

impl CatalogEntry {
    /// This entry without its category, if that is the category given.
    pub open spec fn without_category(self, category_id: i32) -> CatalogEntry {
        if self.product.category_id == Some(category_id) {
            CatalogEntry { product: Product { category_id: None, ..self.product }, ..self }
        } else {
            self
        }
    }

    /// This entry without its primary image, if that is the image given.
    pub open spec fn without_image(self, image_id: i32) -> CatalogEntry {
        if self.product.primary_image_id == Some(image_id) {
            CatalogEntry { product: Product { primary_image_id: None, ..self.product }, ..self }
        } else {
            self
        }
    }
}

/// A product category. No two categories of a catalog share a name.
#[derive(Debug, PartialEq, Eq)]
pub struct Category {
    pub id: i32,
    pub name: String,
}

impl Clone for Category {
    fn clone(&self) -> (r: Self)
        ensures
            r == *self,
    {
        Category { id: self.id, name: self.name.clone() }
    }
}

} // verus!
