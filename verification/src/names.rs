//! The fixed identifiers the engines recognize and the reserved names they
//! introduce, as spec-level character sequences with matching executable
//! getters.

use vstd::prelude::*;

verus! {

// --- recognized export identifiers ---

pub open spec fn static_props_name() -> Seq<char> {
    "getStaticProps"@
}

pub open spec fn server_side_props_name() -> Seq<char> {
    "getServerSideProps"@
}

pub open spec fn init_props_name() -> Seq<char> {
    "getInitialProps"@
}

pub open spec fn default_name() -> Seq<char> {
    "default"@
}

/// Whether `name` is one of the recognized data-fetch export names.
pub open spec fn is_data_fetch_name(name: Seq<char>) -> bool {
    name == static_props_name() || name == server_side_props_name()
}

// --- adapter names bound from the tools module ---

pub open spec fn props_export_name() -> Seq<char> {
    "withSuperJSONProps"@
}

pub open spec fn init_props_export_name() -> Seq<char> {
    "withSuperJSONInitProps"@
}

pub open spec fn page_export_name() -> Seq<char> {
    "withSuperJSONPage"@
}

/// The reserved local alias of an adapter import: the exported name with a
/// leading underscore.
pub open spec fn underscored(name: Seq<char>) -> Seq<char> {
    "_"@ + name
}

pub open spec fn props_local_name() -> Seq<char> {
    underscored(props_export_name())
}

pub open spec fn init_props_local_name() -> Seq<char> {
    underscored(init_props_export_name())
}

pub open spec fn page_local_name() -> Seq<char> {
    underscored(page_export_name())
}

// --- reserved temporaries of the two bridging chains ---

pub open spec fn props_bridge_local_name() -> Seq<char> {
    "_NEXT_SUPERJSON_IMPORTED_PROPS"@
}

pub open spec fn props_bridge_orig_name() -> Seq<char> {
    "_NEXT_SUPERJSON_ORIGINAL_PROPS"@
}

pub open spec fn page_bridge_local_name() -> Seq<char> {
    "_NEXT_SUPERJSON_IMPORTED_PAGE"@
}

pub open spec fn page_bridge_orig_name() -> Seq<char> {
    "_NEXT_SUPERJSON_ORIGINAL_PAGE"@
}

// --- module paths and the client-side names ---

pub open spec fn tools_src_name() -> Seq<char> {
    "next-superjson-plugin/tools"@
}

pub open spec fn client_src_name() -> Seq<char> {
    "next-superjson-plugin/client"@
}

pub open spec fn directive_name() -> Seq<char> {
    "data-superjson"@
}

pub open spec fn serializer_name() -> Seq<char> {
    "serialize"@
}

pub open spec fn deserializer_name() -> Seq<char> {
    "SuperJSONComponent"@
}

pub open spec fn props_attr_name() -> Seq<char> {
    "props"@
}

pub open spec fn component_attr_name() -> Seq<char> {
    "component"@
}

// --- executable getters ---

pub fn static_props_str() -> (r: String)
    ensures
        r@ == static_props_name(),
{
    "getStaticProps".to_owned()
}

pub fn server_side_props_str() -> (r: String)
    ensures
        r@ == server_side_props_name(),
{
    "getServerSideProps".to_owned()
}

pub fn init_props_str() -> (r: String)
    ensures
        r@ == init_props_name(),
{
    "getInitialProps".to_owned()
}

pub fn default_str() -> (r: String)
    ensures
        r@ == default_name(),
{
    "default".to_owned()
}

pub fn props_export_str() -> (r: String)
    ensures
        r@ == props_export_name(),
{
    "withSuperJSONProps".to_owned()
}

pub fn init_props_export_str() -> (r: String)
    ensures
        r@ == init_props_export_name(),
{
    "withSuperJSONInitProps".to_owned()
}

pub fn page_export_str() -> (r: String)
    ensures
        r@ == page_export_name(),
{
    "withSuperJSONPage".to_owned()
}

pub fn props_local_str() -> (r: String)
    ensures
        r@ == props_local_name(),
{
    underscore(&props_export_str())
}

pub fn init_props_local_str() -> (r: String)
    ensures
        r@ == init_props_local_name(),
{
    underscore(&init_props_export_str())
}

pub fn page_local_str() -> (r: String)
    ensures
        r@ == page_local_name(),
{
    underscore(&page_export_str())
}

pub fn props_bridge_local_str() -> (r: String)
    ensures
        r@ == props_bridge_local_name(),
{
    "_NEXT_SUPERJSON_IMPORTED_PROPS".to_owned()
}

pub fn props_bridge_orig_str() -> (r: String)
    ensures
        r@ == props_bridge_orig_name(),
{
    "_NEXT_SUPERJSON_ORIGINAL_PROPS".to_owned()
}

pub fn page_bridge_local_str() -> (r: String)
    ensures
        r@ == page_bridge_local_name(),
{
    "_NEXT_SUPERJSON_IMPORTED_PAGE".to_owned()
}

pub fn page_bridge_orig_str() -> (r: String)
    ensures
        r@ == page_bridge_orig_name(),
{
    "_NEXT_SUPERJSON_ORIGINAL_PAGE".to_owned()
}

pub fn tools_src_str() -> (r: String)
    ensures
        r@ == tools_src_name(),
{
    "next-superjson-plugin/tools".to_owned()
}

pub fn client_src_str() -> (r: String)
    ensures
        r@ == client_src_name(),
{
    "next-superjson-plugin/client".to_owned()
}

pub fn directive_str() -> (r: String)
    ensures
        r@ == directive_name(),
{
    "data-superjson".to_owned()
}

pub fn serializer_str() -> (r: String)
    ensures
        r@ == serializer_name(),
{
    "serialize".to_owned()
}

pub fn deserializer_str() -> (r: String)
    ensures
        r@ == deserializer_name(),
{
    "SuperJSONComponent".to_owned()
}

pub fn props_attr_str() -> (r: String)
    ensures
        r@ == props_attr_name(),
{
    "props".to_owned()
}

pub fn component_attr_str() -> (r: String)
    ensures
        r@ == component_attr_name(),
{
    "component".to_owned()
}

/// Prefix a name with the reserved underscore, as the adapter import does.
pub fn underscore(name: &String) -> (r: String)
    ensures
        r@ == underscored(name@),
{
    let prefix: String = "_".to_owned();
    prefix.concat(name.as_str())
}

} // verus!
