//! Where an Iceberg table lies: the namespace, the table name and the
//! warehouse that a location names, and the configuration for a new
//! contract.

use vstd::prelude::*;
use vstd::string::StringExecFns;
use crate::config::{CatalogType, IcebergConfig};
use crate::error::{concat2, concat3};
use crate::text::{keep_nonempty, nonempty_pieces, same_text, split, split_chars, starts_with,
    string_of, to_chars};

verus! {

/// A location without its scheme, where the scheme is `s3://`, `file://`
/// or `hdfs://`.
pub open spec fn without_scheme(location: Seq<char>) -> Seq<char> {
    if "s3://"@.is_prefix_of(location) {
        location.skip("s3://"@.len() as int)
    } else if "file://"@.is_prefix_of(location) {
        location.skip("file://"@.len() as int)
    } else if "hdfs://"@.is_prefix_of(location) {
        location.skip("hdfs://"@.len() as int)
    } else {
        location
    }
}

/// The finding for a location with fewer than two path components.
pub open spec fn invalid_location(location: Seq<char>) -> Seq<char> {
    "Invalid Iceberg location format: "@ + location
        + ". Expected format: <warehouse>/<namespace>/<table>"@
}

/// The namespace and the table name of a location: the last path component
/// is the table name, the one before it the namespace, whose levels are
/// separated by dots. Empty path components do not count.
pub open spec fn location_parts(location: Seq<char>) -> Result<(Seq<Seq<char>>, Seq<char>), Seq<char>> {
    let parts = nonempty_pieces(without_scheme(location), '/');
    if parts.len() < 2 {
        Err(invalid_location(location))
    } else {
        Ok((split(parts[parts.len() - 2], '.'), parts.last()))
    }
}

/// The warehouse of an `s3://` location: bucket and first path component
/// where at least two components follow the bucket, else the bucket alone.
/// Other locations have none.
pub open spec fn warehouse_of(location: Seq<char>) -> Option<Seq<char>> {
    if "s3://"@.is_prefix_of(location) {
        let parts = nonempty_pieces(location.skip("s3://"@.len() as int), '/');
        if parts.len() >= 3 {
            Some("s3://"@ + parts[0] + "/"@ + parts[1])
        } else if parts.len() >= 1 {
            Some("s3://"@ + parts[0])
        } else {
            None
        }
    } else {
        None
    }
}

/// The characters of `text` behind `prefix`, where `text` begins with it.
pub fn strip_prefix(text: &str, prefix: &str) -> (r: Option<Vec<char>>)
    ensures
        match r {
            Some(rest) => prefix@.is_prefix_of(text@) && rest@ == text@.skip(prefix@.len() as int),
            None => !prefix@.is_prefix_of(text@),
        },
{
    if !starts_with(text, prefix) {
        return None;
    }
    let chars = to_chars(text);
    let skip = to_chars(prefix).len();
    let mut rest: Vec<char> = Vec::new();
    let mut i: usize = skip;
    while i < chars.len()
        invariant
            skip <= i <= chars.len(),
            rest@ == chars@.subrange(skip as int, i as int),
        decreases chars.len() - i,
    {
        rest.push(chars[i]);
        i += 1;
    }
    Some(rest)
}

/// The namespace and the table name that a location names.
pub fn parse_iceberg_location(location: &str) -> (r: Result<(Vec<String>, String), String>)
    ensures
        match r {
            Ok(pair) => location_parts(location@) == Ok::<
                (Seq<Seq<char>>, Seq<char>),
                Seq<char>,
            >((pair.0.deep_view(), pair.1@)),
            Err(m) => location_parts(location@) == Err::<(Seq<Seq<char>>, Seq<char>), Seq<char>>(
                m@,
            ),
        },
{
    let path: Vec<char> = match strip_prefix(location, "s3://") {
        Some(rest) => rest,
        None => match strip_prefix(location, "file://") {
            Some(rest) => rest,
            None => match strip_prefix(location, "hdfs://") {
                Some(rest) => rest,
                None => to_chars(location),
            },
        },
    };
    let parts = keep_nonempty(split_chars(&path, '/'));
    if parts.len() < 2 {
        return Err(
            concat3(
                "Invalid Iceberg location format: ",
                location,
                ". Expected format: <warehouse>/<namespace>/<table>",
            ),
        );
    }
    let table_name = parts[parts.len() - 1].clone();
    let namespace_part = to_chars(parts[parts.len() - 2].as_str());
    let namespace = split_chars(&namespace_part, '.');
    proof {
        let all = parts.deep_view();
        assert(all[all.len() - 2] == parts@[parts@.len() - 2]@);
        assert(all.last() == parts@[parts@.len() - 1]@);
    }
    Ok((namespace, table_name))
}

/// The warehouse that an `s3://` location names.
pub fn extract_warehouse_from_location(location: &str) -> (r: Option<String>)
    ensures
        match r {
            Some(w) => warehouse_of(location@) == Some(w@),
            None => warehouse_of(location@) is None,
        },
{
    match strip_prefix(location, "s3://") {
        None => None,
        Some(path) => {
            let parts = keep_nonempty(split_chars(&path, '/'));
            proof {
                let all = parts.deep_view();
                if all.len() >= 1 {
                    assert(all[0] == parts@[0]@);
                }
                if all.len() >= 2 {
                    assert(all[1] == parts@[1]@);
                }
            }
            if parts.len() >= 3 {
                let mut w = concat3("s3://", parts[0].as_str(), "/");
                w.append(parts[1].as_str());
                Some(w)
            } else if parts.len() >= 1 {
                Some(concat2("s3://", parts[0].as_str()))
            } else {
                None
            }
        },
    }
}

/// The position of the first `://` in a text, or the text's length where
/// there is none.
pub open spec fn scheme_end(text: Seq<char>) -> int
    decreases text.len(),
{
    if text.len() == 0 || "://"@.is_prefix_of(text) {
        0
    } else {
        1 + scheme_end(text.drop_first())
    }
}

/// The scheme for reading the files of a warehouse: what stands before the
/// first `://` of the warehouse, the whole of it where there is none, and
/// `file` without a warehouse.
pub open spec fn scheme_of(warehouse: Option<Seq<char>>) -> Seq<char> {
    match warehouse {
        Some(w) => w.take(scheme_end(w)),
        None => "file"@,
    }
}

/// The first `://` of a text stands behind `n` positions at which none
/// begins.
proof fn lemma_scheme_end(text: Seq<char>, n: int)
    requires
        0 <= n <= text.len(),
        forall|i: int| 0 <= i < n ==> !"://"@.is_prefix_of(#[trigger] text.skip(i)),
        n == text.len() || "://"@.is_prefix_of(text.skip(n)),
    ensures
        scheme_end(text) == n,
    decreases n,
{
    assert(text.skip(0) =~= text);
    if n > 0 {
        let t = text.drop_first();
        assert forall|i: int| 0 <= i < n - 1 implies !"://"@.is_prefix_of(#[trigger] t.skip(i)) by {
            assert(t.skip(i) =~= text.skip(i + 1));
        }
        if n < text.len() {
            assert(t.skip(n - 1) =~= text.skip(n));
        }
        lemma_scheme_end(t, n - 1);
    }
}

/// The scheme for reading the files of a warehouse.
pub fn warehouse_scheme(warehouse: Option<&str>) -> (r: String)
    ensures
        r@ == scheme_of(crate::format::text_of(warehouse)),
{
    match warehouse {
        None => "file".to_owned(),
        Some(w) => {
            let chars = to_chars(w);
            let n = chars.len();
            let mut i: usize = 0;
            proof {
                reveal_strlit("://");
            }
            while i < n && !(n - i >= 3 && chars[i] == ':' && chars[i + 1] == '/' && chars[i + 2]
                == '/')
                invariant
                    i <= n == chars.len(),
                    "://"@.len() == 3,
                    "://"@[0] == ':',
                    "://"@[1] == '/',
                    "://"@[2] == '/',
                    forall|j: int| 0 <= j < i ==> !"://"@.is_prefix_of(#[trigger] chars@.skip(j)),
                decreases n - i,
            {
                proof {
                    let rest = chars@.skip(i as int);
                    if "://"@.is_prefix_of(rest) {
                        assert(rest.subrange(0, 3)[0] == rest[0]);
                        assert(rest.subrange(0, 3)[1] == rest[1]);
                        assert(rest.subrange(0, 3)[2] == rest[2]);
                    }
                }
                i += 1;
            }
            proof {
                if i < n {
                    let rest = chars@.skip(i as int);
                    assert("://"@ =~= rest.subrange(0, 3));
                }
                lemma_scheme_end(chars@, i as int);
            }
            let r = string_of(&chars, 0, i);
            r
        },
    }
}

/// The message for a catalog type that is not known.
pub open spec fn unsupported_catalog(catalog_type: Seq<char>) -> Seq<char> {
    "Unsupported catalog type: "@ + catalog_type + ". Supported types: rest, glue, hms"@
}

/// The warehouse that is used where none is given.
pub open spec fn default_warehouse() -> Seq<char> {
    "/warehouse"@
}

/// What keeps a configuration for a new contract from being made, if
/// anything.
pub open spec fn init_fault(
    catalog_type: Seq<char>,
    namespace: Option<String>,
    table: Option<String>,
) -> Option<Seq<char>> {
    if namespace is None {
        Some("Namespace is required for Iceberg init"@)
    } else if table is None {
        Some("Table name is required for Iceberg init"@)
    } else if catalog_type != "rest"@ && catalog_type != "glue"@ && catalog_type != "hms"@ {
        Some(unsupported_catalog(catalog_type))
    } else if table.unwrap()@.len() == 0 {
        Some("Invalid Iceberg configuration: "@ + "table_name cannot be empty"@)
    } else {
        None
    }
}

/// Whether `catalog` is the catalog that `catalog_type` asks for: for
/// `rest` and `hms` the source is the catalog's address and the warehouse
/// is the one given, or `/warehouse`; for `glue` the source is the
/// warehouse.
pub open spec fn is_init_catalog(
    catalog: CatalogType,
    source: Seq<char>,
    catalog_type: Seq<char>,
    warehouse: Option<String>,
) -> bool {
    let place = match warehouse {
        Some(w) => w@,
        None => default_warehouse(),
    };
    if catalog_type == "rest"@ {
        catalog matches CatalogType::Rest { uri, warehouse: w } && uri@ == source && w@ == place
    } else if catalog_type == "glue"@ {
        catalog matches CatalogType::Glue { warehouse: w, catalog_id, region } && w@ == source
            && catalog_id is None && region is None
    } else {
        catalog matches CatalogType::Hms { uri, warehouse: w } && uri@ == source && w@ == place
    }
}

/// The configuration for a new contract from a table: the catalog that
/// `catalog_type` names (`rest`, `glue` or `hms`), the levels of the
/// dot-separated namespace, and the table name. `warehouse` is the
/// warehouse that the environment sets, if it sets one.
pub fn build_iceberg_config(
    source: &str,
    catalog_type: &str,
    namespace: Option<String>,
    table: Option<String>,
    warehouse: Option<String>,
) -> (r: Result<IcebergConfig, String>)
    ensures
        match r {
            Ok(c) => {
                &&& init_fault(catalog_type@, namespace, table) is None
                &&& is_init_catalog(c.catalog, source@, catalog_type@, warehouse)
                &&& c.namespace.deep_view() == split(namespace.unwrap()@, '.')
                &&& c.table_name@ == table.unwrap()@
                &&& c.properties@ == Map::<Seq<char>, Seq<char>>::empty()
            },
            Err(m) => init_fault(catalog_type@, namespace, table) == Some(m@),
        },
{
    let levels = match &namespace {
        Some(ns) => split_chars(&to_chars(ns.as_str()), '.'),
        None => {
            return Err("Namespace is required for Iceberg init".to_owned());
        },
    };
    let table_name = match &table {
        Some(t) => t.as_str(),
        None => {
            return Err("Table name is required for Iceberg init".to_owned());
        },
    };
    let place = match &warehouse {
        Some(w) => w.clone(),
        None => "/warehouse".to_owned(),
    };
    let builder = if same_text(catalog_type, "rest") {
        IcebergConfig::builder().rest_catalog(source, place.as_str())
    } else if same_text(catalog_type, "glue") {
        IcebergConfig::builder().glue_catalog(source)
    } else if same_text(catalog_type, "hms") {
        IcebergConfig::builder().hms_catalog(source, place.as_str())
    } else {
        return Err(
            concat3("Unsupported catalog type: ", catalog_type, ". Supported types: rest, glue, hms"),
        );
    };
    proof {
        crate::text::lemma_split_has_pieces(namespace.unwrap()@, '.');
    }
    match builder.namespace(levels).table_name(table_name).build() {
        Ok(c) => Ok(c),
        Err(e) => Err(e.to_string()),
    }
}

} // verus!
