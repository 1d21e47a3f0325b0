use vstd::prelude::*;
use vstd::string::StringSliceAdditionalSpecFns;
use vstd::slice::slice_subrange;

use crate::banner::first_match_idx;
use crate::banner::lemma_first_match_idx_is;
use crate::banner::lemma_first_match_idx_none;
use crate::text::string_from_utf8;
use crate::text::subrange_vec;
use crate::text::trim_slice;
use crate::text::trim_spec;

verus! {

// What the build step hands the streaming core: the built products, the one
// that can be launched, and the build directory scraped from the build tool's
// settings dump. Running the build tool is process work; classifying its
// output is verified here.

/// What kind of artifact a build produced.
#[derive(Debug, Clone, Copy, PartialEq, Eq, Structural)]
pub enum ProductType {
    Application,
    Framework,
    StaticLibrary,
    DynamicLibrary,
    Bundle,
    UnitTest,
    UITest,
    AppExtension,
    Unknown,
}

/// One build product found in the build directory.
#[derive(Debug)]
pub struct BuildProduct {
    pub name: String,
    pub path: String,
    pub product_type: ProductType,
    pub is_launchable: bool,
}

impl Clone for BuildProduct {
    fn clone(&self) -> (r: Self)
        ensures
            r == *self,
    {
        BuildProduct {
            name: self.name.clone(),
            path: self.path.clone(),
            product_type: self.product_type,
            is_launchable: self.is_launchable,
        }
    }
}

/// The predicate that keeps a product: it can be launched.
pub open spec fn launchable_pred() -> spec_fn(BuildProduct) -> bool {
    |p: BuildProduct| p.is_launchable
}

/// The launchable products, in order: exactly the products marked
/// launchable, nothing else.
pub fn get_launchable_products(products: &Vec<BuildProduct>) -> (r: Vec<BuildProduct>)
    ensures
        r@ == products@.filter(launchable_pred()),
{
    let mut out: Vec<BuildProduct> = Vec::new();
    let n = products.len();
    let mut i: usize = 0;
    proof {
        reveal(Seq::filter);
        assert(products@.subrange(0, 0).filter(launchable_pred()) =~= Seq::<BuildProduct>::empty());
    }
    while i < n
        invariant
            i <= n,
            n == products@.len(),
            out@ == products@.subrange(0, i as int).filter(launchable_pred()),
        decreases n - i,
    {
        proof {
            reveal(Seq::filter);
            let pre = products@.subrange(0, i as int + 1);
            assert(pre.drop_last() =~= products@.subrange(0, i as int));
            assert(pre.last() == products@[i as int]);
        }
        if products[i].is_launchable {
            out.push(products[i].clone());
        }
        i = i + 1;
    }
    proof {
        assert(products@.subrange(0, n as int) =~= products@);
    }
    out
}

/// How a file in the build directory classifies as a product, by its name:
/// the artifact kind, and whether it can be launched on a simulator. A name
/// matching no known artifact suffix is no product at all.
pub open spec fn spec_classify_product(name: Seq<u8>) -> Option<(ProductType, bool)> {
    if crate::text::has_suffix(name, ".app".spec_bytes()) {
        Some((ProductType::Application, true))
    } else if crate::text::has_suffix(name, ".framework".spec_bytes()) {
        Some((ProductType::Framework, false))
    } else if crate::text::has_suffix(name, ".a".spec_bytes()) {
        Some((ProductType::StaticLibrary, false))
    } else if crate::text::has_suffix(name, ".dylib".spec_bytes()) {
        Some((ProductType::DynamicLibrary, false))
    } else if crate::text::has_suffix(name, ".bundle".spec_bytes()) {
        Some((ProductType::Bundle, false))
    } else if crate::text::has_suffix(name, ".xctest".spec_bytes()) {
        if first_match_idx(crate::text::lower_bytes(name), "uitest".spec_bytes()) >= 0 {
            Some((ProductType::UITest, false))
        } else {
            Some((ProductType::UnitTest, false))
        }
    } else if crate::text::has_suffix(name, ".appex".spec_bytes()) {
        Some((ProductType::AppExtension, false))
    } else {
        None
    }
}

/// Classifies one file name found in the build directory.
pub fn classify_product(name: &str) -> (r: Option<(ProductType, bool)>)
    ensures
        r == spec_classify_product(name.spec_bytes()),
{
    let b = name.as_bytes();
    if crate::text::ends_with_bytes(b, ".app".as_bytes()) {
        Some((ProductType::Application, true))
    } else if crate::text::ends_with_bytes(b, ".framework".as_bytes()) {
        Some((ProductType::Framework, false))
    } else if crate::text::ends_with_bytes(b, ".a".as_bytes()) {
        Some((ProductType::StaticLibrary, false))
    } else if crate::text::ends_with_bytes(b, ".dylib".as_bytes()) {
        Some((ProductType::DynamicLibrary, false))
    } else if crate::text::ends_with_bytes(b, ".bundle".as_bytes()) {
        Some((ProductType::Bundle, false))
    } else if crate::text::ends_with_bytes(b, ".xctest".as_bytes()) {
        let lower = crate::text::to_lower_bytes(b);
        let found = crate::text::find_subslice(lower.as_slice(), "uitest".as_bytes());
        proof {
            match found {
                Some(i) => {
                    crate::banner::lemma_first_match_idx_is(
                        crate::text::lower_bytes(name.spec_bytes()),
                        "uitest".spec_bytes(),
                        i as int,
                    );
                },
                None => {
                    crate::banner::lemma_first_match_idx_none(
                        crate::text::lower_bytes(name.spec_bytes()),
                        "uitest".spec_bytes(),
                    );
                },
            }
        }
        if found.is_some() {
            Some((ProductType::UITest, false))
        } else {
            Some((ProductType::UnitTest, false))
        }
    } else if crate::text::ends_with_bytes(b, ".appex".as_bytes()) {
        Some((ProductType::AppExtension, false))
    } else {
        None
    }
}

/// The `CONFIGURATION_BUILD_DIR = ` value in a build-settings dump: each
/// newline-separated line is trimmed; the first one carrying the prefix gives
/// the value, exactly the rest of that trimmed line.
pub open spec fn find_dir_in(v: Seq<u8>) -> Option<Seq<u8>>
    decreases v.len(),
{
    let i = first_match_idx(v, seq![10u8]);
    let piece = if i < 0 || i >= v.len() {
        v
    } else {
        v.subrange(0, i)
    };
    let t = trim_spec(piece);
    let p = "CONFIGURATION_BUILD_DIR = ".spec_bytes();
    if t.len() >= p.len() && t.subrange(0, p.len() as int) == p {
        Some(t.subrange(p.len() as int, t.len() as int))
    } else if i < 0 || i >= v.len() {
        None
    } else {
        find_dir_in(v.subrange(i + 1, v.len() as int))
    }
}

fn find_dir_in_exec(v: &[u8]) -> (r: Option<Vec<u8>>)
    ensures
        match r {
            Some(out) => find_dir_in(v@) matches Some(s) && out@ == s,
            None => find_dir_in(v@) is None,
        },
    decreases v@.len(),
{
    let mut nl: Vec<u8> = Vec::new();
    nl.push(10u8);
    proof {
        assert(nl@ =~= seq![10u8]);
    }
    let n = v.len();
    let found = crate::text::find_subslice(v, nl.as_slice());
    proof {
        match found {
            Some(i) => {
                lemma_first_match_idx_is(v@, seq![10u8], i as int);
            },
            None => {
                lemma_first_match_idx_none(v@, seq![10u8]);
            },
        }
    }
    let piece: &[u8] = match found {
        Some(i) => slice_subrange(v, 0, i),
        None => v,
    };
    let t = trim_slice(piece);
    let prefix = "CONFIGURATION_BUILD_DIR = ";
    let prefix_bytes = prefix.as_bytes();
    if crate::text::starts_with_bytes(t, prefix_bytes) {
        return Some(subrange_vec(t, prefix_bytes.len(), t.len()));
    }
    match found {
        Some(i) => {
            let tail = slice_subrange(v, i + 1, n);
            find_dir_in_exec(tail)
        },
        None => None,
    }
}

/// Scrapes the build directory out of the build tool's settings dump; `None`
/// when no line carries it (or, never in practice, when the value's bytes are
/// not valid text).
pub fn extract_build_dir(output: &str) -> (r: Option<String>)
    ensures
        match find_dir_in(output.spec_bytes()) {
            Some(value) => {
                if vstd::utf8::valid_utf8(value) {
                    r matches Some(s) && vstd::utf8::encode_utf8(s@) == value
                } else {
                    r is None
                }
            },
            None => r is None,
        },
{
    let bytes = output.as_bytes();
    match find_dir_in_exec(bytes) {
        Some(value) => string_from_utf8(value),
        None => None,
    }
}

/// A built product of the project-level build service.
#[derive(Debug)]
pub struct Product {
    /// Product name.
    pub name: String,
    /// Path of the built bundle.
    pub path: String,
}

impl Clone for Product {
    fn clone(&self) -> (r: Self)
        ensures
            r == *self,
    {
        Product { name: self.name.clone(), path: self.path.clone() }
    }
}

/// Result of building a scheme.
#[derive(Debug)]
pub struct BuildResult {
    /// Whether the build succeeded.
    pub success: bool,
    /// The build directory.
    pub build_dir: String,
    /// The built products.
    pub products: Vec<Product>,
}

} // verus!
