//! Catalog products and the product-line parser.
//!
//! A product line holds whitespace-separated fields
//! `id name category price [label1,label2,...]`. A line with fewer than
//! four tokens, or whose price token is not a floating-point numeral,
//! yields the "empty" sentinel product (empty name), which callers must
//! discard. The category token is matched case-insensitively against a
//! fixed vocabulary; anything else maps to the `NoCategory` variant. The
//! fifth token, if present, is split on commas into lowercased labels.

use vstd::prelude::*;

use crate::parse::is_float_token;
use crate::parse::is_float_value;
use crate::parse::split_exec;
use crate::parse::split_on;
use crate::text::eq_lit;
use crate::text::push_all;
use crate::text::lower_seq;
use crate::text::push_lit;
use crate::text::to_lower;

verus! {

/// The fixed category vocabulary. A category token that matches none of
/// the named variants (case-insensitively) falls back to `NoCategory`.
#[derive(Clone, Copy, Debug, PartialEq, Eq, Structural)]
pub enum ProductCategory {
    NoCategory,
    Gym,
    Technology,
    Tablegames,
    Videogames,
    Television,
    Tables,
}

/// The textual name of a category, as the reports print it.
pub open spec fn category_name(c: ProductCategory) -> Seq<char> {
    match c {
        ProductCategory::NoCategory => "None"@,
        ProductCategory::Gym => "Gym"@,
        ProductCategory::Technology => "Technology"@,
        ProductCategory::Tablegames => "Tablegames"@,
        ProductCategory::Videogames => "Videogames"@,
        ProductCategory::Television => "Television"@,
        ProductCategory::Tables => "Tables"@,
    }
}

/// Appends the textual name of `c` to `out`.
pub fn push_category_name(out: &mut Vec<char>, c: ProductCategory)
    ensures
        final(out)@ == old(out)@ + category_name(c),
{
    match c {
        ProductCategory::NoCategory => push_lit(out, "None"),
        ProductCategory::Gym => push_lit(out, "Gym"),
        ProductCategory::Technology => push_lit(out, "Technology"),
        ProductCategory::Tablegames => push_lit(out, "Tablegames"),
        ProductCategory::Videogames => push_lit(out, "Videogames"),
        ProductCategory::Television => push_lit(out, "Television"),
        ProductCategory::Tables => push_lit(out, "Tables"),
    }
}

/// The category a token names, compared case-insensitively.
pub open spec fn category_of_token(t: Seq<char>) -> ProductCategory {
    let l = lower_seq(t);
    if l == "gym"@ {
        ProductCategory::Gym
    } else if l == "technology"@ {
        ProductCategory::Technology
    } else if l == "tablegames"@ {
        ProductCategory::Tablegames
    } else if l == "videogames"@ {
        ProductCategory::Videogames
    } else if l == "television"@ {
        ProductCategory::Television
    } else if l == "tables"@ {
        ProductCategory::Tables
    } else {
        ProductCategory::NoCategory
    }
}

/// Maps a category token to its category.
pub fn category_from_token(t: &Vec<char>) -> (c: ProductCategory)
    ensures
        c == category_of_token(t@),
{
    let l = to_lower(t);
    if eq_lit(&l, "gym") {
        ProductCategory::Gym
    } else if eq_lit(&l, "technology") {
        ProductCategory::Technology
    } else if eq_lit(&l, "tablegames") {
        ProductCategory::Tablegames
    } else if eq_lit(&l, "videogames") {
        ProductCategory::Videogames
    } else if eq_lit(&l, "television") {
        ProductCategory::Television
    } else if eq_lit(&l, "tables") {
        ProductCategory::Tables
    } else {
        ProductCategory::NoCategory
    }
}

/// An immutable catalog record. Identity is the `id` field; the price is
/// kept as its validated numeral token, exactly as it stood in the
/// source line.
pub struct Product {
    id: Vec<char>,
    name: Vec<char>,
    category: ProductCategory,
    price: Vec<char>,
    labels: Vec<Vec<char>>,
}

/// The mathematical content of a [`Product`].
#[verifier::ext_equal]
pub ghost struct ProductView {
    pub id: Seq<char>,
    pub name: Seq<char>,
    pub category: ProductCategory,
    pub price: Seq<char>,
    pub labels: Seq<Seq<char>>,
}

impl View for Product {
    type V = ProductView;

    closed spec fn view(&self) -> ProductView {
        ProductView {
            id: self.id@,
            name: self.name@,
            category: self.category,
            price: self.price@,
            labels: self.labels.deep_view(),
        }
    }
}

impl DeepView for Product {
    type V = ProductView;

    open spec fn deep_view(&self) -> ProductView {
        self.view()
    }
}

/// The "empty" sentinel: empty id, name and labels, no category, price
/// zero. Parsing a malformed line yields this value.
pub open spec fn empty_product() -> ProductView {
    ProductView {
        id: Seq::empty(),
        name: Seq::empty(),
        category: ProductCategory::NoCategory,
        price: seq!['0'],
        labels: Seq::empty(),
    }
}

impl Product {
    /// The empty sentinel product.
    pub fn new() -> (p: Product)
        ensures
            p@ == empty_product(),
    {
        let p = Product {
            id: Vec::new(),
            name: Vec::new(),
            category: ProductCategory::NoCategory,
            price: vec!['0'],
            labels: Vec::new(),
        };
        proof {
            assert(p@.price =~= empty_product().price);
            assert(p@.labels =~= empty_product().labels);
            assert(p@ =~= empty_product());
        }
        p
    }

    pub fn get_id(&self) -> (r: &Vec<char>)
        ensures
            r@ == self@.id,
    {
        &self.id
    }

    pub fn get_name(&self) -> (r: &Vec<char>)
        ensures
            r@ == self@.name,
    {
        &self.name
    }

    pub fn get_category(&self) -> (r: ProductCategory)
        ensures
            r == self@.category,
    {
        self.category
    }

    pub fn get_price(&self) -> (r: &Vec<char>)
        ensures
            r@ == self@.price,
    {
        &self.price
    }

    pub fn get_labels(&self) -> (r: &Vec<Vec<char>>)
        ensures
            r.deep_view() == self@.labels,
    {
        &self.labels
    }

    /// Whether this is the sentinel a malformed line parses to; such a
    /// product is never added to the store.
    pub fn is_empty(&self) -> (r: bool)
        ensures
            r == (self@.name.len() == 0),
    {
        self.name.len() == 0
    }

    /// Appends the display string
    /// `Product with id: <id>, name: <name>, category: <Category>, and
    /// price: $<price>` to `out`.
    pub fn push_display(&self, out: &mut Vec<char>)
        ensures
            final(out)@ == old(out)@ + product_display(self@),
    {
        push_lit(out, "Product with id: ");
        push_all(out, &self.id);
        push_lit(out, ", name: ");
        push_all(out, &self.name);
        push_lit(out, ", category: ");
        push_category_name(out, self.category);
        push_lit(out, ", and price: $");
        push_all(out, &self.price);
    }
}

/// What a product line parses to: the sentinel when it has fewer than
/// four tokens or a malformed price token, and otherwise a product made
/// of the first five tokens (any further tokens are ignored).
pub open spec fn parse_product_spec(s: Seq<char>) -> ProductView {
    let toks = split_on(s, ' ');
    if toks.len() < 4 {
        empty_product()
    } else if !is_float_value(toks[3]) {
        empty_product()
    } else {
        ProductView {
            id: toks[0],
            name: toks[1],
            category: category_of_token(toks[2]),
            price: toks[3],
            labels: if toks.len() >= 5 {
                split_on(toks[4], ',').map_values(|l: Seq<char>| lower_seq(l))
            } else {
                Seq::empty()
            },
        }
    }
}

impl Product {
    /// Parses one line of the products source.
    pub fn from_line(line: &Vec<char>) -> (p: Product)
        ensures
            p@ == parse_product_spec(line@),
    {
        let mut toks = split_exec(line, ' ');
        let ghost stoks = split_on(line@, ' ');
        if toks.len() < 4 {
            return Product::new();
        }
        proof {
            assert(toks.deep_view()[3] == toks@[3]@);
        }
        if !is_float_token(&toks[3]) {
            return Product::new();
        }
        proof {
            assert(toks.deep_view()[2] == toks@[2]@);
        }
        let category = category_from_token(&toks[2]);
        let labels: Vec<Vec<char>> = if toks.len() >= 5 {
            proof {
                assert(toks.deep_view()[4] == toks@[4]@);
            }
            let parts = split_exec(&toks[4], ',');
            let mut ls: Vec<Vec<char>> = Vec::new();
            let mut i: usize = 0;
            while i < parts.len()
                invariant
                    i <= parts.len(),
                    ls@.len() == i,
                    forall|k: int| 0 <= k < i ==> ls.deep_view()[k] == lower_seq(
                        #[trigger] parts.deep_view()[k],
                    ),
                decreases parts.len() - i,
            {
                proof {
                    assert(parts.deep_view()[i as int] == parts@[i as int]@);
                }
                ls.push(to_lower(&parts[i]));
                i = i + 1;
            }
            proof {
                assert(ls.deep_view() =~= split_on(stoks[4], ',').map_values(
                    |l: Seq<char>| lower_seq(l),
                ));
            }
            ls
        } else {
            Vec::new()
        };
        let price = toks.remove(3);
        let name = toks.remove(1);
        let id = toks.remove(0);
        proof {
            assert(id@ == stoks[0]);
            assert(name@ == stoks[1]);
            assert(price@ == stoks[3]);
        }
        let p = Product { id, name, category, price, labels };
        proof {
            assert(p@ =~~= parse_product_spec(line@));
        }
        p
    }
}

/// The display string of a product, used by every report.
pub open spec fn product_display(p: ProductView) -> Seq<char> {
    "Product with id: "@ + p.id + ", name: "@ + p.name + ", category: "@ + category_name(p.category)
        + ", and price: $"@ + p.price
}

} // verus!
