//! How to reach an Apache Iceberg table: the catalog, the namespace and the
//! table's name.

use vstd::prelude::*;
use vstd::string::StringExecFns;
use crate::error::{concat2, concat3};
use crate::text::{join, joined};
use crate::properties::Properties;

verus! {

/// What can go wrong with an Iceberg table.
#[derive(Debug, Clone, PartialEq, Eq)]
pub enum IcebergError {
    /// The catalog could not be reached.
    ConnectionError(String),
    /// The table does not exist.
    TableNotFound(String),
    /// The table's schema could not be read.
    SchemaExtractionError(String),
    /// A type of the table has no counterpart here.
    TypeConversionError(String),
    /// The table's data could not be read.
    DataReadError(String),
    /// The configuration is not valid.
    ConfigurationError(String),
    /// The operation is not supported.
    UnsupportedOperation(String),
    /// Any other failure.
    Other(String),
}

impl IcebergError {
    /// The line of text that reports the error.
    pub open spec fn message(self) -> Seq<char> {
        match self {
            IcebergError::ConnectionError(m) => "Failed to connect to Iceberg catalog: "@ + m@,
            IcebergError::TableNotFound(m) => "Iceberg table not found: "@ + m@,
            IcebergError::SchemaExtractionError(m) => "Failed to extract schema from Iceberg table: "@
                + m@,
            IcebergError::TypeConversionError(m) => "Failed to convert Iceberg type to DCE type: "@
                + m@,
            IcebergError::DataReadError(m) => "Failed to read data from Iceberg table: "@ + m@,
            IcebergError::ConfigurationError(m) => "Invalid Iceberg configuration: "@ + m@,
            IcebergError::UnsupportedOperation(m) => "Unsupported Iceberg operation: "@ + m@,
            IcebergError::Other(m) => "Iceberg error: "@ + m@,
        }
    }

    /// The line of text that reports the error.
    pub fn to_string(&self) -> (r: String)
        ensures
            r@ == self.message(),
    {
        match self {
            IcebergError::ConnectionError(m) => concat2(
                "Failed to connect to Iceberg catalog: ",
                m.as_str(),
            ),
            IcebergError::TableNotFound(m) => concat2("Iceberg table not found: ", m.as_str()),
            IcebergError::SchemaExtractionError(m) => concat2(
                "Failed to extract schema from Iceberg table: ",
                m.as_str(),
            ),
            IcebergError::TypeConversionError(m) => concat2(
                "Failed to convert Iceberg type to DCE type: ",
                m.as_str(),
            ),
            IcebergError::DataReadError(m) => concat2(
                "Failed to read data from Iceberg table: ",
                m.as_str(),
            ),
            IcebergError::ConfigurationError(m) => concat2(
                "Invalid Iceberg configuration: ",
                m.as_str(),
            ),
            IcebergError::UnsupportedOperation(m) => concat2(
                "Unsupported Iceberg operation: ",
                m.as_str(),
            ),
            IcebergError::Other(m) => concat2("Iceberg error: ", m.as_str()),
        }
    }
}

/// The kind of catalog that knows the table.
#[derive(Debug, Clone, PartialEq, Eq)]
pub enum CatalogType {
    /// No catalog: the table's files are read directly.
    FileIO,
    /// A REST catalog at `uri`.
    Rest { uri: String, warehouse: String },
    /// The AWS Glue catalog.
    Glue { warehouse: String, catalog_id: Option<String>, region: Option<String> },
    /// A Hive Metastore at `uri`.
    Hms { uri: String, warehouse: String },
}

/// How to reach one Iceberg table.
#[derive(Debug, Clone)]
pub struct IcebergConfig {
    /// The catalog.
    pub catalog: CatalogType,
    /// The namespace of the table, outermost level first.
    pub namespace: Vec<String>,
    /// The table's name.
    pub table_name: String,
    /// Further settings for the catalog.
    pub properties: Properties,
}

/// Collects the parts of an [`IcebergConfig`].
#[derive(Debug, Clone)]
pub struct IcebergConfigBuilder {
    catalog: Option<CatalogType>,
    namespace: Option<Vec<String>>,
    table_name: Option<String>,
    properties: Properties,
}

/// What is wrong with a configuration by itself, if anything: an empty
/// table name, else an empty namespace.
pub open spec fn config_fault(namespace: Seq<String>, table_name: Seq<char>) -> Option<Seq<char>> {
    if table_name.len() == 0 {
        Some("table_name cannot be empty"@)
    } else if namespace.len() == 0 {
        Some("namespace cannot be empty"@)
    } else {
        None
    }
}

impl IcebergConfig {
    /// A builder with nothing set.
    pub fn builder() -> (r: IcebergConfigBuilder)
        ensures
            r.chosen_catalog() is None,
            r.chosen_namespace() is None,
            r.chosen_table_name() is None,
            r.chosen_properties()@ == Map::<Seq<char>, Seq<char>>::empty(),
    {
        IcebergConfigBuilder {
            catalog: None,
            namespace: None,
            table_name: None,
            properties: Properties::new(),
        }
    }

    /// Checks that the table has a name and a namespace.
    pub fn validate(&self) -> (r: Result<(), IcebergError>)
        ensures
            match r {
                Ok(_) => config_fault(self.namespace@, self.table_name@) is None,
                Err(e) => e matches IcebergError::ConfigurationError(m) && config_fault(
                    self.namespace@,
                    self.table_name@,
                ) == Some(m@),
            },
    {
        if self.table_name.as_str().is_empty() {
            return Err(IcebergError::ConfigurationError("table_name cannot be empty".to_owned()));
        }
        if self.namespace.len() == 0 {
            return Err(IcebergError::ConfigurationError("namespace cannot be empty".to_owned()));
        }
        Ok(())
    }

    /// The warehouse named by the catalog, as a spec value.
    pub open spec fn warehouse_text(self) -> Option<Seq<char>> {
        match self.catalog {
            CatalogType::FileIO => None,
            CatalogType::Rest { uri, warehouse } => Some(warehouse@),
            CatalogType::Glue { warehouse, catalog_id, region } => Some(warehouse@),
            CatalogType::Hms { uri, warehouse } => Some(warehouse@),
        }
    }

    /// The levels of the namespace joined by dots.
    pub open spec fn dotted_namespace(self) -> Seq<char> {
        joined(self.namespace.deep_view(), "."@)
    }

    /// Where the table lies: warehouse, namespace and table name separated
    /// by slashes, or without a warehouse the namespace and the table name
    /// separated by a dot.
    pub open spec fn location_text(self) -> Seq<char> {
        match self.warehouse_text() {
            Some(w) => w + "/"@ + self.dotted_namespace() + "/"@ + self.table_name@,
            None => self.dotted_namespace() + "."@ + self.table_name@,
        }
    }

    /// Where the table lies.
    pub fn table_location(&self) -> (r: String)
        ensures
            r@ == self.location_text(),
    {
        let namespace = join(&self.namespace, ".");
        match self.warehouse() {
            Some(w) => {
                let mut r = concat3(w, "/", namespace.as_str());
                r.append("/");
                r.append(self.table_name.as_str());
                r
            },
            None => concat3(namespace.as_str(), ".", self.table_name.as_str()),
        }
    }

    /// The namespace and the table name, separated by dots.
    pub fn qualified_name(&self) -> (r: String)
        ensures
            r@ == self.dotted_namespace() + "."@ + self.table_name@,
    {
        let namespace = join(&self.namespace, ".");
        concat3(namespace.as_str(), ".", self.table_name.as_str())
    }

    /// The warehouse of the catalog, if the catalog has one.
    pub fn warehouse(&self) -> (r: Option<&str>)
        ensures
            match r {
                Some(w) => self.warehouse_text() == Some(w@),
                None => self.warehouse_text() is None,
            },
    {
        match &self.catalog {
            CatalogType::FileIO => None,
            CatalogType::Rest { warehouse, .. } => Some(warehouse.as_str()),
            CatalogType::Glue { warehouse, .. } => Some(warehouse.as_str()),
            CatalogType::Hms { warehouse, .. } => Some(warehouse.as_str()),
        }
    }
}

impl IcebergConfigBuilder {
    /// The catalog that has been set.
    pub closed spec fn chosen_catalog(self) -> Option<CatalogType> {
        self.catalog
    }

    /// The namespace that has been set.
    pub closed spec fn chosen_namespace(self) -> Option<Vec<String>> {
        self.namespace
    }

    /// The table name that has been set.
    pub closed spec fn chosen_table_name(self) -> Option<String> {
        self.table_name
    }

    /// The further settings.
    pub closed spec fn chosen_properties(self) -> Properties {
        self.properties
    }

    /// Whether two builders agree in all but the catalog.
    pub open spec fn same_but_catalog(self, other: IcebergConfigBuilder) -> bool {
        &&& self.chosen_namespace() == other.chosen_namespace()
        &&& self.chosen_table_name() == other.chosen_table_name()
        &&& self.chosen_properties() == other.chosen_properties()
    }

    /// What keeps the builder from giving a configuration, if anything: the
    /// first of a missing catalog, a missing namespace, a missing table
    /// name, an empty table name and an empty namespace.
    pub open spec fn fault(self) -> Option<Seq<char>> {
        if self.chosen_catalog() is None {
            Some("catalog type is required"@)
        } else if self.chosen_namespace() is None {
            Some("namespace is required"@)
        } else if self.chosen_table_name() is None {
            Some("table_name is required"@)
        } else {
            config_fault(self.chosen_namespace().unwrap()@, self.chosen_table_name().unwrap()@)
        }
    }

    /// Sets direct file access in place of a catalog.
    pub fn file_io(self) -> (r: IcebergConfigBuilder)
        ensures
            r.chosen_catalog() == Some(CatalogType::FileIO),
            r.same_but_catalog(self),
    {
        let mut r = self;
        r.catalog = Some(CatalogType::FileIO);
        r
    }

    /// Sets a REST catalog.
    pub fn rest_catalog(self, uri: &str, warehouse: &str) -> (r: IcebergConfigBuilder)
        ensures
            r.chosen_catalog() matches Some(CatalogType::Rest { uri: u, warehouse: w }) && u@ == uri@
                && w@ == warehouse@,
            r.same_but_catalog(self),
    {
        let mut r = self;
        r.catalog = Some(CatalogType::Rest { uri: uri.to_owned(), warehouse: warehouse.to_owned() });
        r
    }

    /// Sets the AWS Glue catalog, without a catalog id or a region.
    pub fn glue_catalog(self, warehouse: &str) -> (r: IcebergConfigBuilder)
        ensures
            r.chosen_catalog() matches Some(CatalogType::Glue { warehouse: w, catalog_id: c, region: g })
                && w@ == warehouse@ && c is None && g is None,
            r.same_but_catalog(self),
    {
        let mut r = self;
        r.catalog = Some(
            CatalogType::Glue { warehouse: warehouse.to_owned(), catalog_id: None, region: None },
        );
        r
    }

    /// Sets the AWS Glue catalog with a catalog id and a region.
    pub fn glue_catalog_with_options(
        self,
        warehouse: &str,
        catalog_id: Option<String>,
        region: Option<String>,
    ) -> (r: IcebergConfigBuilder)
        ensures
            r.chosen_catalog() matches Some(CatalogType::Glue { warehouse: w, catalog_id: c, region: g })
                && w@ == warehouse@ && c == catalog_id && g == region,
            r.same_but_catalog(self),
    {
        let mut r = self;
        r.catalog = Some(CatalogType::Glue { warehouse: warehouse.to_owned(), catalog_id, region });
        r
    }

    /// Sets a Hive Metastore catalog.
    pub fn hms_catalog(self, uri: &str, warehouse: &str) -> (r: IcebergConfigBuilder)
        ensures
            r.chosen_catalog() matches Some(CatalogType::Hms { uri: u, warehouse: w }) && u@ == uri@
                && w@ == warehouse@,
            r.same_but_catalog(self),
    {
        let mut r = self;
        r.catalog = Some(CatalogType::Hms { uri: uri.to_owned(), warehouse: warehouse.to_owned() });
        r
    }

    /// Sets the catalog.
    pub fn catalog(self, catalog: CatalogType) -> (r: IcebergConfigBuilder)
        ensures
            r.chosen_catalog() == Some(catalog),
            r.same_but_catalog(self),
    {
        let mut r = self;
        r.catalog = Some(catalog);
        r
    }

    /// Sets the namespace.
    pub fn namespace(self, namespace: Vec<String>) -> (r: IcebergConfigBuilder)
        ensures
            r.chosen_namespace() == Some(namespace),
            r.chosen_catalog() == self.chosen_catalog(),
            r.chosen_table_name() == self.chosen_table_name(),
            r.chosen_properties() == self.chosen_properties(),
    {
        let mut r = self;
        r.namespace = Some(namespace);
        r
    }

    /// Sets the table's name.
    pub fn table_name(self, name: &str) -> (r: IcebergConfigBuilder)
        ensures
            r.chosen_table_name() matches Some(n) && n@ == name@,
            r.chosen_catalog() == self.chosen_catalog(),
            r.chosen_namespace() == self.chosen_namespace(),
            r.chosen_properties() == self.chosen_properties(),
    {
        let mut r = self;
        r.table_name = Some(name.to_owned());
        r
    }

    /// Sets one further setting.
    pub fn property(self, key: &str, value: &str) -> (r: IcebergConfigBuilder)
        ensures
            r.chosen_properties()@ == self.chosen_properties()@.insert(key@, value@),
            r.chosen_catalog() == self.chosen_catalog(),
            r.chosen_namespace() == self.chosen_namespace(),
            r.chosen_table_name() == self.chosen_table_name(),
    {
        let mut properties = self.properties;
        properties.insert(key.to_owned(), value.to_owned());
        IcebergConfigBuilder {
            catalog: self.catalog,
            namespace: self.namespace,
            table_name: self.table_name,
            properties,
        }
    }

    /// Replaces the further settings.
    pub fn properties(self, properties: Properties) -> (r: IcebergConfigBuilder)
        ensures
            r.chosen_properties() == properties,
            r.chosen_catalog() == self.chosen_catalog(),
            r.chosen_namespace() == self.chosen_namespace(),
            r.chosen_table_name() == self.chosen_table_name(),
    {
        let mut r = self;
        r.properties = properties;
        r
    }

    /// The configuration, where a catalog, a namespace that is not empty
    /// and a table name that is not empty have been set; else the first
    /// thing that is wrong.
    pub fn build(self) -> (r: Result<IcebergConfig, IcebergError>)
        ensures
            match r {
                Ok(c) => {
                    &&& self.fault() is None
                    &&& self.chosen_catalog() == Some(c.catalog)
                    &&& self.chosen_namespace() == Some(c.namespace)
                    &&& self.chosen_table_name() == Some(c.table_name)
                    &&& self.chosen_properties() == c.properties
                },
                Err(e) => e matches IcebergError::ConfigurationError(m) && self.fault() == Some(m@),
            },
    {
        let catalog = match self.catalog {
            Some(c) => c,
            None => {
                return Err(IcebergError::ConfigurationError("catalog type is required".to_owned()));
            },
        };
        let namespace = match self.namespace {
            Some(n) => n,
            None => {
                return Err(IcebergError::ConfigurationError("namespace is required".to_owned()));
            },
        };
        let table_name = match self.table_name {
            Some(t) => t,
            None => {
                return Err(IcebergError::ConfigurationError("table_name is required".to_owned()));
            },
        };
        let config = IcebergConfig { catalog, namespace, table_name, properties: self.properties };
        match config.validate() {
            Ok(_) => Ok(config),
            Err(e) => Err(e),
        }
    }
}

impl Default for IcebergConfigBuilder {
    /// A builder with nothing set.
    fn default() -> (r: IcebergConfigBuilder)
        ensures
            r.chosen_catalog() is None,
            r.chosen_namespace() is None,
            r.chosen_table_name() is None,
            r.chosen_properties()@ == Map::<Seq<char>, Seq<char>>::empty(),
    {
        IcebergConfig::builder()
    }
}

} // verus!
