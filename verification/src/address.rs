//! Addresses of the routes that a repository serves.
//!
//! A repository is named by a base address. Route addresses are formed by
//! plain concatenation, which is unambiguous once the base ends with `/`.

use vstd::prelude::*;
use vstd::string::*;
use crate::category::Category;

verus! {

/// Whether `url` ends with a path separator.
pub open spec fn ends_with_slash(url: Seq<char>) -> bool {
    url.len() > 0 && url.last() == '/'
}

/// `url`, with a path separator added unless it already ends with one.
pub open spec fn normalized(url: Seq<char>) -> Seq<char> {
    if ends_with_slash(url) {
        url
    } else {
        url.push('/')
    }
}

/// Address of the request that creates the repository at `base`.
pub open spec fn create_address(base: Seq<char>) -> Seq<char> {
    base + "?create=true"@
}

/// Address of the configuration object of the repository at `base`.
pub open spec fn config_address(base: Seq<char>) -> Seq<char> {
    base + "config"@
}

/// Address of the listing of `category` in the repository at `base`.
pub open spec fn listing_address(base: Seq<char>, category: Category) -> Seq<char> {
    base + category.label() + "/"@
}

/// Address of the object `name` of `category` in the repository at `base`.
pub open spec fn object_address(base: Seq<char>, category: Category, name: Seq<char>) -> Seq<
    char,
> {
    base + category.label() + "/"@ + name
}

/// Returns `url` with a trailing path separator, adding one if it is missing.
pub fn normalize_url(url: &str) -> (out: String)
    ensures
        out@ == normalized(url@),
        ends_with_slash(out@),
{
    let length: usize = url.unicode_len();
    let mut out = String::from_str(url);
    if length > 0 && url.get_char(length - 1) == '/' {
        out
    } else {
        proof {
            reveal_strlit("/");
        }
        out.append("/");
        out
    }
}

/// Address of the request that creates the repository at `base`.
pub fn create_url(base: &str) -> (url: String)
    ensures
        url@ == create_address(base@),
{
    let mut url = String::from_str(base);
    url.append("?create=true");
    url
}

/// Address of the configuration object of the repository at `base`.
pub fn config_url(base: &str) -> (url: String)
    ensures
        url@ == config_address(base@),
{
    let mut url = String::from_str(base);
    url.append("config");
    url
}

/// Address of the listing of `category` in the repository at `base`.
pub fn listing_url(base: &str, category: Category) -> (url: String)
    ensures
        url@ == listing_address(base@, category),
{
    let mut url = String::from_str(base);
    url.append(category.name());
    url.append("/");
    url
}

/// Address of the object `name` of `category` in the repository at `base`.
pub fn object_url(base: &str, category: Category, name: &str) -> (url: String)
    ensures
        url@ == object_address(base@, category, name@),
{
    let mut url = String::from_str(base);
    url.append(category.name());
    url.append("/");
    url.append(name);
    url
}

/// Normalizing an address twice changes nothing more than normalizing it
/// once, and a normalized address always ends with a path separator.
pub proof fn lemma_normalized_is_stable(url: Seq<char>)
    ensures
        ends_with_slash(normalized(url)),
        normalized(normalized(url)) == normalized(url),
        ends_with_slash(url) ==> normalized(url) == url,
{
}

/// Within one repository an address names one object: the addresses of two
/// objects are equal only if both the categories and the names are.
pub proof fn lemma_object_address_names_one_object(
    base: Seq<char>,
    category: Category,
    name: Seq<char>,
    other_category: Category,
    other_name: Seq<char>,
)
    requires
        object_address(base, category, name) == object_address(base, other_category, other_name),
    ensures
        category == other_category,
        name == other_name,
{
    reveal_strlit("data");
    reveal_strlit("keys");
    reveal_strlit("locks");
    reveal_strlit("snapshots");
    reveal_strlit("index");
    reveal_strlit("/");
    let address = object_address(base, category, name);
    let other = object_address(base, other_category, other_name);
    let at = base.len() as int;
    assert(address[at] == category.label()[0]);
    assert(other[at] == other_category.label()[0]);
    assert(category == other_category);
    let head = base + category.label() + "/"@;
    assert(address.len() == head.len() + name.len());
    assert(other.len() == head.len() + other_name.len());
    assert forall|k: int| 0 <= k < name.len() implies name[k] == other_name[k] by {
        assert(address[head.len() + k] == name[k]);
        assert(other[head.len() + k] == other_name[k]);
    }
    assert(name =~= other_name);
}

/// Within one repository the routes do not collide: the configuration, the
/// create request, and the listings and objects of the categories all have
/// different addresses.
pub proof fn lemma_routes_do_not_collide(base: Seq<char>, category: Category, name: Seq<char>)
    ensures
        config_address(base) != create_address(base),
        config_address(base) != object_address(base, category, name),
        create_address(base) != object_address(base, category, name),
        config_address(base) != listing_address(base, category),
        create_address(base) != listing_address(base, category),
{
    reveal_strlit("data");
    reveal_strlit("keys");
    reveal_strlit("locks");
    reveal_strlit("snapshots");
    reveal_strlit("index");
    reveal_strlit("/");
    reveal_strlit("config");
    reveal_strlit("?create=true");
    let at = base.len() as int;
    assert(config_address(base)[at] == 'c');
    assert(create_address(base)[at] == '?');
    assert(object_address(base, category, name)[at] == category.label()[0]);
    assert(listing_address(base, category)[at] == category.label()[0]);
}

} // verus!
