//! Reading alias declarations `#[alias(name = "content", ...)]` from a
//! trait's attributes: syn splits each attribute into its items, and the
//! library decides which are well formed and what they declare.
use vstd::prelude::*;

use syn::meta::ParseNestedMeta;
use syn::Attribute;

use crate::alias::{extracted, insert_entry, AliasError, AliasManager, Entries, MethodAttribute};

verus! {

#[verifier::external_type_specification]
#[verifier::external_body]
pub struct ExAttribute(syn::Attribute);

#[verifier::external_type_specification]
#[verifier::external_body]
pub struct ExParseNestedMeta<'a>(syn::meta::ParseNestedMeta<'a>);

/// One item `path = "content"` of an alias attribute, as syn reads it.
#[derive(Debug)]
pub struct AliasItem {
    /// The item's path, when it is a single identifier.
    pub name: Option<String>,
    /// What follows the path: `None` when no `=` does; after `=`, the string
    /// literal's value, or the message of syn's error when none follows.
    pub content: Option<Result<String, String>>,
}

/// One attribute of a trait, as alias reading sees it: whether its path is
/// `alias`; if so its items in order, up to the first one that is not
/// `name = "content"`, and the message of the error that ended syn's reading
/// of the list, if one did.
#[derive(Debug)]
pub struct AliasAttribute {
    pub is_alias: bool,
    pub items: Vec<AliasItem>,
    pub syntax_error: Option<String>,
}

/// An item as plain values.
pub struct AliasItemView {
    pub name: Option<Seq<char>>,
    pub content: Option<Result<Seq<char>, Seq<char>>>,
}

/// An attribute as plain values.
pub struct AliasAttributeView {
    pub is_alias: bool,
    pub items: Seq<AliasItemView>,
    pub syntax_error: Option<Seq<char>>,
}

pub open spec fn item_view(i: AliasItem) -> AliasItemView {
    AliasItemView {
        name: match i.name {
            Some(n) => Some(n@),
            None => None,
        },
        content: match i.content {
            Some(Ok(c)) => Some(Ok(c@)),
            Some(Err(m)) => Some(Err(m@)),
            None => None,
        },
    }
}

pub open spec fn attribute_view(a: AliasAttribute) -> AliasAttributeView {
    AliasAttributeView {
        is_alias: a.is_alias,
        items: a.items@.map_values(|i: AliasItem| item_view(i)),
        syntax_error: match a.syntax_error {
            Some(m) => Some(m@),
            None => None,
        },
    }
}

/// The error an item raises, if any: a path that is not one identifier, a
/// missing `= "content"`, or syn's error on what follows `=`.
pub open spec fn item_error(i: AliasItemView) -> Option<Seq<char>> {
    match i.name {
        None => Some("Expected alias name"@),
        Some(_) => match i.content {
            None => Some("Expected alias = \"content\" format"@),
            Some(Err(m)) => Some(m),
            Some(Ok(_)) => None,
        },
    }
}

/// The aliases `acc` with the items declared in order (a later declaration
/// of a name replacing an earlier one), or the first item's error.
pub open spec fn load_items(items: Seq<AliasItemView>, acc: Entries) -> Result<Entries, Seq<char>>
    decreases items.len(),
{
    if items.len() == 0 {
        Ok(acc)
    } else {
        match item_error(items[0]) {
            Some(m) => Err(m),
            None => load_items(
                items.skip(1),
                insert_entry(acc, items[0].name.unwrap(), items[0].content.unwrap()->Ok_0),
            ),
        }
    }
}

/// The aliases `acc` with those of the `alias` attributes declared in order,
/// or the first error: an item's, or else the one that ended syn's reading
/// of an attribute.
pub open spec fn load_attributes(attrs: Seq<AliasAttributeView>, acc: Entries) -> Result<
    Entries,
    Seq<char>,
>
    decreases attrs.len(),
{
    if attrs.len() == 0 {
        Ok(acc)
    } else if !attrs[0].is_alias {
        load_attributes(attrs.skip(1), acc)
    } else {
        match load_items(attrs[0].items, acc) {
            Err(m) => Err(m),
            Ok(a) => match attrs[0].syntax_error {
                Some(m) => Err(m),
                None => load_attributes(attrs.skip(1), a),
            },
        }
    }
}

/// The aliases that a trait's attributes declare, or the first error.
pub open spec fn declared_aliases(attrs: Seq<AliasAttributeView>) -> Result<Entries, Seq<char>> {
    load_attributes(attrs, Seq::empty())
}

/// Whether an item is `name = "content"`.
pub fn item_is_complete(item: &AliasItem) -> (r: bool)
    ensures
        r == (item_error(item_view(*item)) is None),
{
    match (&item.name, &item.content) {
        (Some(_), Some(Ok(_))) => true,
        _ => false,
    }
}

/// Whether an attribute's path is the identifier `alias` (`Path::is_ident`).
pub uninterp spec fn path_is_alias(attr: Attribute) -> bool;

/// The items of an alias attribute and the error that ended their reading,
/// as `nested_alias_items` reads them.
pub uninterp spec fn alias_items_of(attr: Attribute) -> (Seq<AliasItemView>, Option<Seq<char>>);

/// `attr.path().is_ident("alias")`.
#[verifier::external_body]
fn attribute_is_alias(attr: &Attribute) -> (r: bool)
    ensures
        r == path_is_alias(*attr),
{
    attr.path().is_ident("alias")
}

/// Reads one item of a nested list with syn: its path as an identifier
/// (`Path::get_ident`), then, when `=` follows, a string literal (`LitStr`).
#[verifier::external_body]
fn read_alias_item(meta: &ParseNestedMeta) -> AliasItem {
    let name = meta.path.get_ident().map(|i| i.to_string());
    let content = match meta.input.parse::<syn::token::Eq>() {
        Ok(_) => Some(meta.input.parse::<syn::LitStr>().map(|l| l.value()).map_err(|e| e.to_string())),
        Err(_) => None,
    };
    AliasItem { name, content }
}

/// Reads the nested list of an attribute with `Attribute::parse_nested_meta`,
/// item by item (`read_alias_item`), stopping after the first item that
/// `item_is_complete` refuses; with the message of the error that ended the
/// reading, if one did.
#[verifier::external_body]
fn nested_alias_items(attr: &Attribute) -> (r: (Vec<AliasItem>, Option<String>))
    ensures
        (r.0@.map_values(|i: AliasItem| item_view(i)), match r.1 {
            Some(m) => Some(m@),
            None => None,
        }) == alias_items_of(*attr),
{
    let mut items = Vec::new();
    let read = attr.parse_nested_meta(|meta| {
        let item = read_alias_item(&meta);
        let complete = item_is_complete(&item);
        items.push(item);
        if complete { Ok(()) } else { Err(meta.error("")) }
    });
    (items, read.err().map(|e| e.to_string()))
}

/// What alias extraction reads of a method's attribute: whether its path is
/// `sqlx_data_aliases`, and its string value when it has the form
/// `path = "..."`.
pub uninterp spec fn method_attribute_of(attr: Attribute) -> (bool, Option<Seq<char>>);

/// A read method attribute as plain values.
pub open spec fn method_attribute_view(a: MethodAttribute) -> (bool, Option<Seq<char>>) {
    (
        a.is_alias_list,
        match a.string_value {
            Some(v) => Some(v@),
            None => None,
        },
    )
}

/// Reads a method's attribute: `attr.path().is_ident("sqlx_data_aliases")`,
/// and the value of a `Meta::NameValue` whose value is a string literal.
#[verifier::external_body]
fn read_method_attribute(attr: &Attribute) -> (r: MethodAttribute)
    ensures
        method_attribute_view(r) == method_attribute_of(*attr),
{
    let string_value = match &attr.meta {
        syn::Meta::NameValue(meta) => match &meta.value {
            syn::Expr::Lit(expr_lit) => match &expr_lit.lit {
                syn::Lit::Str(lit_str) => Some(lit_str.value()),
                _ => None,
            },
            _ => None,
        },
        _ => None,
    };
    MethodAttribute { is_alias_list: attr.path().is_ident("sqlx_data_aliases"), string_value }
}

/// What alias reading sees of an attribute.
pub open spec fn alias_attribute_of(attr: Attribute) -> AliasAttributeView {
    if path_is_alias(attr) {
        AliasAttributeView {
            is_alias: true,
            items: alias_items_of(attr).0,
            syntax_error: alias_items_of(attr).1,
        }
    } else {
        AliasAttributeView { is_alias: false, items: Seq::empty(), syntax_error: None }
    }
}

impl AliasManager {
    /// The aliases declared by alias attributes (see `declared_aliases`).
    pub fn from_alias_items(attrs: &[AliasAttribute]) -> (r: Result<AliasManager, AliasError>)
        ensures
            match r {
                Ok(m) => declared_aliases(attrs@.map_values(|a: AliasAttribute| attribute_view(a)))
                    == Ok::<Entries, Seq<char>>(m@),
                Err(AliasError::InvalidAttribute(msg)) => declared_aliases(
                    attrs@.map_values(|a: AliasAttribute| attribute_view(a)),
                ) == Err::<Entries, Seq<char>>(msg@),
                Err(_) => false,
            },
    {
        let ghost views = attrs@.map_values(|a: AliasAttribute| attribute_view(a));
        let mut m = AliasManager::new();
        let mut i: usize = 0;
        assert(views.skip(0) =~= views);
        while i < attrs.len()
            invariant
                views == attrs@.map_values(|a: AliasAttribute| attribute_view(a)),
                i <= attrs@.len(),
                declared_aliases(views) == load_attributes(views.skip(i as int), m@),
            decreases attrs.len() - i,
        {
            assert(views.skip(i as int).skip(1) =~= views.skip(i + 1));
            assert(views.skip(i as int)[0] == attribute_view(attrs@[i as int]));
            let attr = &attrs[i];
            if attr.is_alias {
                let ghost items = views[i as int].items;
                let ghost acc0 = m@;
                let mut j: usize = 0;
                assert(items.skip(0) =~= items);
                while j < attr.items.len()
                    invariant
                        views == attrs@.map_values(|a: AliasAttribute| attribute_view(a)),
                        i < attrs@.len(),
                        attr == attrs@[i as int],
                        items == views[i as int].items,
                        items == attr.items@.map_values(|x: AliasItem| item_view(x)),
                        j <= attr.items@.len(),
                        load_items(items, acc0) == load_items(items.skip(j as int), m@),
                        declared_aliases(views) == load_attributes(views.skip(i as int), acc0),
                        views.skip(i as int)[0] == views[i as int],
                        views[i as int] == attribute_view(*attr),
                        attr.is_alias,
                    decreases attr.items.len() - j,
                {
                    assert(items.skip(j as int).skip(1) =~= items.skip(j + 1));
                    assert(items.skip(j as int)[0] == item_view(attr.items@[j as int]));
                    let item = &attr.items[j];
                    match (&item.name, &item.content) {
                        (Some(n), Some(Ok(c))) => {
                            m.add_alias(n.clone(), c.clone());
                        },
                        (None, _) => {
                            let msg = String::from_str("Expected alias name");
                            proof {
                                reveal_strlit("Expected alias name");
                            }
                            assert(load_items(items, acc0) == Err::<Entries, Seq<char>>(msg@));
                            assert(views.skip(i as int)[0].items == items);
                            assert(declared_aliases(views) == Err::<Entries, Seq<char>>(msg@));
                            return Err(AliasError::InvalidAttribute(msg));
                        },
                        (Some(_), None) => {
                            let msg = String::from_str("Expected alias = \"content\" format");
                            proof {
                                reveal_strlit("Expected alias = \"content\" format");
                            }
                            assert(load_items(items, acc0) == Err::<Entries, Seq<char>>(msg@));
                            assert(views.skip(i as int)[0].items == items);
                            assert(declared_aliases(views) == Err::<Entries, Seq<char>>(msg@));
                            return Err(AliasError::InvalidAttribute(msg));
                        },
                        (Some(_), Some(Err(msg))) => {
                            return Err(AliasError::InvalidAttribute(msg.clone()));
                        },
                    }
                    j += 1;
                }
                assert(items.skip(j as int) =~= Seq::<AliasItemView>::empty());
                match &attr.syntax_error {
                    Some(msg) => {
                        return Err(AliasError::InvalidAttribute(msg.clone()));
                    },
                    None => {},
                }
            }
            i += 1;
        }
        assert(views.skip(i as int) =~= Seq::<AliasAttributeView>::empty());
        Ok(m)
    }

    /// The aliases declared by a trait's `#[alias(name = "content", ...)]`
    /// attributes, in order, other attributes skipped (see `declared_aliases`
    /// and `alias_attribute_of`); the first malformed item or list is an
    /// error.
    pub fn parse_from_attributes(attrs: &[Attribute]) -> (r: Result<AliasManager, AliasError>)
        ensures
            match r {
                Ok(m) => declared_aliases(attrs@.map_values(|a: Attribute| alias_attribute_of(a)))
                    == Ok::<Entries, Seq<char>>(m@),
                Err(AliasError::InvalidAttribute(msg)) => declared_aliases(
                    attrs@.map_values(|a: Attribute| alias_attribute_of(a)),
                ) == Err::<Entries, Seq<char>>(msg@),
                Err(_) => false,
            },
    {
        let mut read: Vec<AliasAttribute> = Vec::new();
        let mut i: usize = 0;
        while i < attrs.len()
            invariant
                i <= attrs@.len(),
                read@.len() == i,
                forall|k: int|
                    0 <= k < i ==> attribute_view(#[trigger] read@[k]) == alias_attribute_of(
                        attrs@[k],
                    ),
            decreases attrs.len() - i,
        {
            if attribute_is_alias(&attrs[i]) {
                let (items, syntax_error) = nested_alias_items(&attrs[i]);
                let a = AliasAttribute { is_alias: true, items, syntax_error };
                assert(attribute_view(a).items =~= alias_items_of(attrs@[i as int]).0);
                read.push(a);
            } else {
                let a = AliasAttribute { is_alias: false, items: Vec::new(), syntax_error: None };
                assert(attribute_view(a).items =~= Seq::<AliasItemView>::empty());
                read.push(a);
            }
            i += 1;
        }
        assert(read@.map_values(|a: AliasAttribute| attribute_view(a)) =~= attrs@.map_values(
            |a: Attribute| alias_attribute_of(a),
        ));
        AliasManager::from_alias_items(read.as_slice())
    }

    /// The aliases injected into a method as `#[sqlx_data_aliases = "..."]`:
    /// its attributes read as `MethodAttribute`s (`method_attribute_of`) and
    /// handed to `from_method_attributes`.
    pub fn extract_from_method_attributes(attrs: &[Attribute]) -> (r: Result<
        AliasManager,
        AliasError,
    >)
        ensures
            exists|read: Seq<MethodAttribute>|
                #![trigger extracted(read)]
                read.len() == attrs@.len() && (forall|k: int|
                    0 <= k < read.len() ==> method_attribute_view(#[trigger] read[k])
                        == method_attribute_of(attrs@[k])) && match r {
                    Ok(m) => extracted(read) == Ok::<Entries, Seq<char>>(m@),
                    Err(AliasError::InvalidInjection(p)) => extracted(read) == Err::<
                        Entries,
                        Seq<char>,
                    >(p@),
                    Err(_) => false,
                },
    {
        let mut read: Vec<MethodAttribute> = Vec::new();
        let mut i: usize = 0;
        while i < attrs.len()
            invariant
                i <= attrs@.len(),
                read@.len() == i,
                forall|k: int|
                    0 <= k < i ==> method_attribute_view(#[trigger] read@[k]) == method_attribute_of(
                        attrs@[k],
                    ),
            decreases attrs.len() - i,
        {
            read.push(read_method_attribute(&attrs[i]));
            i += 1;
        }
        let r = AliasManager::from_method_attributes(read.as_slice());
        r
    }
}

} // verus!
