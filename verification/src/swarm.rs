//! Where the swarm finds its tool server and how it signs in.
use vstd::prelude::*;
use crate::json::opt_chars;
use crate::text::concat;

verus! {

/// The tool server used when none is configured.
pub open spec fn default_mcp_url() -> Seq<char> {
    "https://mcp.neonia.io/mcp"@
}

/// The tool server: the configured address, or the default one.
pub fn mcp_base_url(configured: Option<String>) -> (r: String)
    ensures
        r@ == match opt_chars(configured) {
            Some(url) => url,
            None => default_mcp_url(),
        },
{
    match configured {
        Some(url) => url,
        None => String::from_str("https://mcp.neonia.io/mcp"),
    }
}

/// The address through which the workers reach the tool server, limited to
/// the tools the swarm uses.
pub fn mcp_tools_url(base: &str) -> (r: String)
    ensures
        r@ == base@
            + "?tools=neo_util_svg_generator,neo_util_svg_layout_validator,neo_util_pathfinder,neo_util_rng"@,
{
    concat(
        base,
        "?tools=neo_util_svg_generator,neo_util_svg_layout_validator,neo_util_pathfinder,neo_util_rng",
    )
}

/// The authorization header value for the key `key`: `Bearer KEY`.
pub fn bearer_header(key: &str) -> (r: String)
    ensures
        r@ == "Bearer "@ + key@,
{
    concat("Bearer ", key)
}

} // verus!
